# unifree

A controller for UniFi access points, with its core written in Verus and
proved against its contracts.

- `src/` is the verified library: the inform and discovery wire formats and
  their crypto framing, MAC addresses, the provisioning models, the INI
  configuration generators (system, radio, wireless, network, services,
  management), the per-device decisions of the controller (what an inform is
  answered, when a configuration is pushed, adoption and its recovery,
  firmware selection) and the localization tables.
- `tests/` runs the library on concrete values.
- `app/` is the program around it: the daemon (HTTP inform endpoint, device
  API, UDP discovery, SSH adoption, background tasks, metrics) and the
  operator commands. It reads and writes files and sockets and hands plain
  values to the library.

Calls into outside crates (AES-GCM, AES-CBC, ZLIB, hex, MD5, SHA-256,
SHA-512 crypt, ISO 3166 tables, time, randomness) go through small trusted
wrappers whose contracts say what the library relies on.
