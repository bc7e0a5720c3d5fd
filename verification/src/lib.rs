//! Verified core of a UniFi access-point controller: the inform and
//! discovery wire formats, the crypto framing around them, the INI
//! configuration generators and the controller's per-device decisions.

pub mod bytes;
pub mod text;
pub mod error;
pub mod mac;
pub mod types;
pub mod crypto;
pub mod inform;
pub mod discovery;
pub mod config;
pub mod ini;
pub mod state;
pub mod localization;
pub mod models;
pub mod radios;
pub mod wireless;
pub mod network;
pub mod services;
pub mod system_section;
pub mod builder;
pub mod interfaces;
pub mod mgmt;
pub mod controller;
pub mod adoption;
pub mod firmware;
pub mod provision;
pub mod provision_ini;
