//! Text building blocks shared by the INI generators and the MAC helpers:
//! lower-case hex digits, decimal numbers, `key=value` lines and joining.

use vstd::prelude::*;

verus! {

/// `String::push` appends one character.
pub assume_specification[ String::push ](s: &mut String, ch: char)
    ensures
        final(s)@ == old(s)@.push(ch),
;

/// The lower-case hex digit of a nibble.
pub open spec fn hex_char(n: int) -> char {
    if n < 10 {
        (48 + n) as char
    } else {
        (87 + n) as char
    }
}

/// Two lower-case hex digits of a byte, high nibble first.
pub open spec fn hex_byte(b: u8) -> Seq<char> {
    seq![hex_char(b as int / 16), hex_char(b as int % 16)]
}

/// Lower-case hex encoding of a byte string, two digits per byte.
pub open spec fn hex_lower(bs: Seq<u8>) -> Seq<char>
    decreases bs.len(),
{
    if bs.len() == 0 {
        Seq::empty()
    } else {
        hex_byte(bs[0]) + hex_lower(bs.drop_first())
    }
}

/// The decimal digit character of `d` (`0 <= d < 10`).
pub open spec fn digit_char(d: int) -> char {
    (48 + d) as char
}

/// Decimal representation of a natural number, without leading zeros.
pub open spec fn dec(n: nat) -> Seq<char>
    decreases n,
{
    if n < 10 {
        seq![digit_char(n as int)]
    } else {
        dec(n / 10).push(digit_char((n % 10) as int))
    }
}

/// Lines joined with `\n` between them (no trailing newline).
pub open spec fn join_lines(lines: Seq<Seq<char>>) -> Seq<char>
    decreases lines.len(),
{
    if lines.len() == 0 {
        Seq::empty()
    } else if lines.len() == 1 {
        lines[0]
    } else {
        join_lines(lines.drop_last()) + seq!['\n'] + lines.last()
    }
}

/// The character view of each string.
pub open spec fn views(v: Seq<String>) -> Seq<Seq<char>> {
    v.map_values(|s: String| s@)
}

/// The character of a nibble as a lower-case hex digit.
pub fn nibble_char(n: u8) -> (c: char)
    requires
        n < 16,
    ensures
        c == hex_char(n as int),
{
    match n {
        0 => '0',
        1 => '1',
        2 => '2',
        3 => '3',
        4 => '4',
        5 => '5',
        6 => '6',
        7 => '7',
        8 => '8',
        9 => '9',
        10 => 'a',
        11 => 'b',
        12 => 'c',
        13 => 'd',
        14 => 'e',
        _ => 'f',
    }
}

/// Appends the two lower-case hex digits of `b`.
pub fn push_hex_byte(s: &mut String, b: u8)
    ensures
        final(s)@ == old(s)@ + hex_byte(b),
{
    s.push(nibble_char(b / 16));
    s.push(nibble_char(b % 16));
    assert(final(s)@ =~= old(s)@ + hex_byte(b));
}

/// The decimal digit character of `d`.
pub fn digit(d: u128) -> (c: char)
    requires
        d < 10,
    ensures
        c == digit_char(d as int),
{
    match d {
        0 => '0',
        1 => '1',
        2 => '2',
        3 => '3',
        4 => '4',
        5 => '5',
        6 => '6',
        7 => '7',
        8 => '8',
        _ => '9',
    }
}

/// Appends the decimal representation of `n`.
pub fn push_dec(s: &mut String, n: u128)
    ensures
        final(s)@ == old(s)@ + dec(n as nat),
    decreases n,
{
    if n < 10 {
        s.push(digit(n));
        assert(final(s)@ =~= old(s)@ + dec(n as nat));
    } else {
        push_dec(s, n / 10);
        s.push(digit(n % 10));
        assert(final(s)@ =~= old(s)@ + dec(n as nat));
    }
}

/// The decimal representation of `n` as a new string.
pub fn dec_string(n: u64) -> (s: String)
    ensures
        s@ == dec(n as nat),
{
    let mut s = String::new();
    push_dec(&mut s, n as u128);
    assert(s@ =~= dec(n as nat));
    s
}

/// Joins the lines with `\n` between them.
pub fn join_lines_exec(lines: &Vec<String>) -> (s: String)
    ensures
        s@ == join_lines(views(lines@)),
{
    let mut s = String::new();
    let mut i: usize = 0;
    while i < lines.len()
        invariant
            i <= lines.len(),
            s@ == join_lines(views(lines@).take(i as int)),
        decreases lines.len() - i,
    {
        let ghost prev = views(lines@).take(i as int);
        if i > 0 {
            s.push('\n');
        }
        s.append(lines[i].as_str());
        proof {
            let next = views(lines@).take(i + 1);
            assert(next.drop_last() =~= prev);
            assert(next.last() == lines@[i as int]@);
            if i == 0 {
                assert(next =~= seq![lines@[0]@]);
            }
        }
        i = i + 1;
    }
    assert(views(lines@).take(lines.len() as int) =~= views(lines@));
    s
}

} // verus!

verus! {

/// `a` followed by `b`.
pub fn cat(a: &str, b: &str) -> (s: String)
    ensures
        s@ == a@ + b@,
{
    let mut s = String::from_str(a);
    s.append(b);
    s
}

/// `a`, then `b`, then `c`.
pub fn cat3(a: &str, b: &str, c: &str) -> (s: String)
    ensures
        s@ == a@ + b@ + c@,
{
    let mut s = String::from_str(a);
    s.append(b);
    s.append(c);
    s
}

/// `a`, the decimal `i`, `b`, then `v`: an indexed `key=value` line.
pub fn idx_line(a: &str, i: u128, b: &str, v: &str) -> (s: String)
    ensures
        s@ == a@ + dec(i as nat) + b@ + v@,
{
    let mut s = String::from_str(a);
    push_dec(&mut s, i);
    s.append(b);
    s.append(v);
    s
}

/// `a`, decimal `i`, `b`, decimal `j`, `c`, then `v`: a doubly indexed line.
pub fn idx2_line(a: &str, i: u128, b: &str, j: u128, c: &str, v: &str) -> (s: String)
    ensures
        s@ == a@ + dec(i as nat) + b@ + dec(j as nat) + c@ + v@,
{
    let mut s = String::from_str(a);
    push_dec(&mut s, i);
    s.append(b);
    push_dec(&mut s, j);
    s.append(c);
    s.append(v);
    s
}

/// The text of a boolean, as Rust displays it.
pub open spec fn bool_text(b: bool) -> Seq<char> {
    if b {
        "true"@
    } else {
        "false"@
    }
}

/// The text of a boolean.
pub fn bool_str(b: bool) -> (s: &'static str)
    ensures
        s@ == bool_text(b),
{
    if b {
        "true"
    } else {
        "false"
    }
}

/// `enabled` or `disabled`.
pub open spec fn enabled_text(b: bool) -> Seq<char> {
    if b {
        "enabled"@
    } else {
        "disabled"@
    }
}

/// `enabled` or `disabled`.
pub fn enabled_str(b: bool) -> (s: &'static str)
    ensures
        s@ == enabled_text(b),
{
    if b {
        "enabled"
    } else {
        "disabled"
    }
}

} // verus!

verus! {

/// Whether `c` is white space as `char::is_whitespace` defines it (the
/// Unicode `White_Space` property).
pub open spec fn is_ws(c: char) -> bool {
    ||| c == '\t' || c == '\n' || c == '\x0B' || c == '\x0C' || c == '\r' || c == ' '
    ||| c == '\u{85}' || c == '\u{A0}' || c == '\u{1680}'
    ||| ('\u{2000}' <= c && c <= '\u{200A}')
    ||| c == '\u{2028}' || c == '\u{2029}' || c == '\u{202F}' || c == '\u{205F}' || c == '\u{3000}'
}

/// The text without its leading white space.
pub open spec fn trim_start_ws(s: Seq<char>) -> Seq<char>
    decreases s.len(),
{
    if s.len() > 0 && is_ws(s[0]) {
        trim_start_ws(s.drop_first())
    } else {
        s
    }
}

/// The text without its trailing white space.
pub open spec fn trim_end_ws(s: Seq<char>) -> Seq<char>
    decreases s.len(),
{
    if s.len() > 0 && is_ws(s.last()) {
        trim_end_ws(s.drop_last())
    } else {
        s
    }
}

/// The text without leading and trailing white space.
pub open spec fn trim_ws(s: Seq<char>) -> Seq<char> {
    trim_end_ws(trim_start_ws(s))
}

/// `str::trim`: the text without leading and trailing white space.
#[verifier::external_body]
pub(crate) fn trim_str(s: &str) -> (r: &str)
    ensures
        r@ == trim_ws(s@),
{
    s.trim()
}

/// `i` is the first index of `c` in `s`.
pub open spec fn is_first(s: Seq<char>, c: char, i: int) -> bool {
    0 <= i < s.len() && s[i] == c && forall|j: int| 0 <= j < i ==> s[j] != c
}

/// The first index of `c` in `s`, if any.
pub open spec fn first_index(s: Seq<char>, c: char) -> Option<int> {
    if exists|i: int| is_first(s, c, i) {
        Some(choose|i: int| is_first(s, c, i))
    } else {
        None
    }
}

/// Finds the first index of `c` in `s`.
pub fn find_char(s: &str, c: char) -> (r: Option<usize>)
    ensures
        match first_index(s@, c) {
            Some(i) => r == Some(i as usize),
            None => r is None,
        },
{
    let n = s.unicode_len();
    let mut i: usize = 0;
    while i < n
        invariant
            n == s@.len(),
            i <= n,
            forall|j: int| 0 <= j < i ==> s@[j] != c,
        decreases n - i,
    {
        if s.get_char(i) == c {
            assert(is_first(s@, c, i as int));
            let ghost k = choose|k: int| is_first(s@, c, k);
            assert(k == i) by {
                if k < i {
                    assert(s@[k] != c);
                } else if k > i {
                    assert(s@[i as int] != c);
                }
            }
            return Some(i);
        }
        i = i + 1;
    }
    assert(!exists|k: int| is_first(s@, c, k)) by {
        if exists|k: int| is_first(s@, c, k) {
            let k = choose|k: int| is_first(s@, c, k);
            assert(s@[k] != c);
        }
    }
    None
}

/// Lower-case hex digits of a natural number, without leading zeros.
pub open spec fn hex_nz(n: nat) -> Seq<char>
    decreases n,
{
    if n < 16 {
        seq![hex_char(n as int)]
    } else {
        hex_nz(n / 16).push(hex_char((n % 16) as int))
    }
}

/// Appends the lower-case hex digits of `n`, without leading zeros.
pub fn push_hex_nz(s: &mut String, n: u128)
    ensures
        final(s)@ == old(s)@ + hex_nz(n as nat),
    decreases n,
{
    if n < 16 {
        s.push(nibble_char(n as u8));
        assert(final(s)@ =~= old(s)@ + hex_nz(n as nat));
    } else {
        push_hex_nz(s, n / 16);
        s.push(nibble_char((n % 16) as u8));
        assert(final(s)@ =~= old(s)@ + hex_nz(n as nat));
    }
}

/// Lower-case hex digits of `n`, left-padded with zeros to 16 digits.
pub open spec fn hex16(n: u64) -> Seq<char> {
    let d = hex_nz(n as nat);
    Seq::new((16 - d.len()) as nat, |i: int| '0') + d
}

/// `n < 16^k` has at most `k` hex digits.
proof fn lemma_hex_nz_len_bound(n: nat, k: nat)
    requires
        k >= 1,
        n < vstd::arithmetic::power::pow(16, k),
    ensures
        1 <= hex_nz(n).len() <= k,
    decreases n,
{
    if n >= 16 {
        reveal(vstd::arithmetic::power::pow);
        if k == 1 {
            reveal_with_fuel(vstd::arithmetic::power::pow, 2);
            assert(false);
        }
        let m = vstd::arithmetic::power::pow(16, (k - 1) as nat);
        assert(vstd::arithmetic::power::pow(16, k) == 16 * m);
        assert(n / 16 < m) by (nonlinear_arith)
            requires
                n < 16 * m,
        ;
        lemma_hex_nz_len_bound(n / 16, (k - 1) as nat);
    }
}

/// Appends `n` as 16 lower-case hex digits (`{:016x}`).
pub fn push_hex16(s: &mut String, n: u64)
    ensures
        final(s)@ == old(s)@ + hex16(n),
{
    let mut digits = String::new();
    push_hex_nz(&mut digits, n as u128);
    proof {
        vstd::arithmetic::power::lemma_pow_positive(16, 16);
        reveal_with_fuel(vstd::arithmetic::power::pow, 17);
        assert(vstd::arithmetic::power::pow(16, 16) == 0x1_0000_0000_0000_0000);
        lemma_hex_nz_len_bound(n as nat, 16);
    }
    let len = digits.as_str().unicode_len();
    let mut i: usize = len;
    let ghost start = s@;
    while i < 16
        invariant
            len == hex_nz(n as nat).len(),
            len <= i <= 16,
            s@ == start + Seq::new((i - len) as nat, |j: int| '0'),
        decreases 16 - i,
    {
        s.push('0');
        i = i + 1;
        assert(s@ =~= start + Seq::new((i - len) as nat, |j: int| '0'));
    }
    s.append(digits.as_str());
    assert(final(s)@ =~= old(s)@ + hex16(n));
}

} // verus!

verus! {

/// The lower-case form of a text, as `str::to_lowercase` gives it.
pub uninterp spec fn lowercase(s: Seq<char>) -> Seq<char>;

/// `str::to_lowercase`: the contract names the result and claims no more.
#[verifier::external_body]
pub(crate) fn to_lower(s: &str) -> (r: String)
    ensures
        r@ == lowercase(s@),
{
    s.to_lowercase()
}

/// The text with every `c` removed.
pub open spec fn without(s: Seq<char>, c: char) -> Seq<char>
    decreases s.len(),
{
    if s.len() == 0 {
        s
    } else if s.last() == c {
        without(s.drop_last(), c)
    } else {
        without(s.drop_last(), c).push(s.last())
    }
}

/// Removes every `c` from the text.
pub fn strip_char(s: &str, c: char) -> (r: String)
    ensures
        r@ == without(s@, c),
{
    let n = s.unicode_len();
    let mut r = String::new();
    let mut i: usize = 0;
    while i < n
        invariant
            n == s@.len(),
            i <= n,
            r@ == without(s@.take(i as int), c),
        decreases n - i,
    {
        let x = s.get_char(i);
        proof {
            assert(s@.take(i + 1).drop_last() =~= s@.take(i as int));
        }
        if x != c {
            r.push(x);
        }
        i = i + 1;
    }
    assert(s@.take(n as int) =~= s@);
    r
}

} // verus!

verus! {

/// Hex of bytes, one byte appended.
pub proof fn lemma_hex_lower_push(s: Seq<u8>, b: u8)
    ensures
        hex_lower(s.push(b)) == hex_lower(s) + hex_byte(b),
    decreases s.len(),
{
    if s.len() == 0 {
        assert(s.push(b).drop_first() =~= Seq::<u8>::empty());
        assert(hex_lower(Seq::<u8>::empty()) =~= Seq::<char>::empty());
        assert(s =~= Seq::<u8>::empty());
        assert(hex_lower(s.push(b)) =~= hex_lower(s) + hex_byte(b));
    } else {
        lemma_hex_lower_push(s.drop_first(), b);
        assert(s.push(b).drop_first() =~= s.drop_first().push(b));
        assert(hex_lower(s.push(b)) =~= hex_lower(s) + hex_byte(b));
    }
}

/// The lower-case hex digits of the bytes, two per byte.
pub fn hex_string(bytes: &[u8]) -> (s: String)
    ensures
        s@ == hex_lower(bytes@),
{
    let mut s = String::new();
    let mut i: usize = 0;
    assert(bytes@.take(0) =~= Seq::<u8>::empty());
    while i < bytes.len()
        invariant
            i <= bytes@.len(),
            s@ == hex_lower(bytes@.take(i as int)),
        decreases bytes.len() - i,
    {
        push_hex_byte(&mut s, bytes[i]);
        proof {
            lemma_hex_lower_push(bytes@.take(i as int), bytes@[i as int]);
            assert(bytes@.take(i + 1) =~= bytes@.take(i as int).push(bytes@[i as int]));
        }
        i = i + 1;
    }
    assert(bytes@.take(bytes@.len() as int) =~= bytes@);
    s
}

} // verus!
