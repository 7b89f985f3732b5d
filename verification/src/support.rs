//! Signal strength conversion, ESSID decoding and the supplicant's
//! configuration text.

use vstd::prelude::*;
use vstd::string::StringExecFns;
use vstd::utf8::{decode_utf8, encode_scalar, encode_utf8, valid_utf8};
use crate::text::string_from_chars;

verus! {

/// The quality curve in ten-thousandths: `-0.0154 x^2 - 0.3794 x + 98.182`.
pub open spec fn quality_curve_scaled(dbm: int) -> int {
    -154 * dbm * dbm - 3794 * dbm + 981820
}

/// The integer nearest to the quality curve at `dbm`.
pub open spec fn quality_curve_rounded(dbm: int) -> int {
    (quality_curve_scaled(dbm) + 5000) / 10000
}

/// Link quality in percent for a signal level in dBm.
pub open spec fn spec_dbm2perc(dbm: int) -> int {
    if dbm < -92 {
        1
    } else if dbm > -21 {
        100
    } else {
        let r = quality_curve_rounded(dbm);
        if r < 1 {
            1
        } else if r > 100 {
            100
        } else {
            r
        }
    }
}

proof fn lemma_curve_bounds(dbm: int)
    requires
        -92 <= dbm <= -21,
    ensures
        27412 <= quality_curve_scaled(dbm) <= 993580,
{
    assert(-154 * dbm * dbm - 3794 * dbm + 981820 >= 27412) by (nonlinear_arith)
        requires
            -92 <= dbm <= -21,
    ;
    assert(-154 * dbm * dbm - 3794 * dbm + 981820 <= 993580) by (nonlinear_arith)
        requires
            -92 <= dbm <= -21,
    ;
}

proof fn lemma_curve_increasing(a: int, b: int)
    requires
        -92 <= a <= b <= -21,
    ensures
        quality_curve_scaled(a) <= quality_curve_scaled(b),
{
    assert(-154 * a * a - 3794 * a <= -154 * b * b - 3794 * b) by (nonlinear_arith)
        requires
            -92 <= a <= b <= -21,
    ;
}

/// Quality never decreases as the signal gets stronger, and always lies
/// between 1 and 100.
pub proof fn lemma_dbm2perc_monotone(a: int, b: int)
    requires
        a <= b,
    ensures
        spec_dbm2perc(a) <= spec_dbm2perc(b),
        1 <= spec_dbm2perc(a) <= 100,
{
    if -92 <= a && b <= -21 {
        lemma_curve_increasing(a, b);
        lemma_curve_bounds(a);
        lemma_curve_bounds(b);
    }
}

/// Converts a signal level in dBm to a quality between 1 and 100.
pub fn dbm2perc(dbm: i32) -> (quality: u32)
    ensures
        quality == spec_dbm2perc(dbm as int),
        1 <= quality <= 100,
{
    if dbm < -92 {
        1
    } else if dbm > -21 {
        100
    } else {
        let x: i64 = dbm as i64;
        proof {
            lemma_curve_bounds(x as int);
            assert(441 <= x * x <= 8464) by (nonlinear_arith)
                requires
                    -92 <= x <= -21,
            ;
        }
        let square: i64 = x * x;
        let scaled: i64 = 981820 - 154 * square - 3794 * x;
        assert(scaled == quality_curve_scaled(dbm as int)) by (nonlinear_arith)
            requires
                scaled == 981820 - 154 * square - 3794 * x,
                square == x * x,
                x == dbm,
        ;
        let rounded: i64 = (scaled + 5000) / 10000;
        if rounded < 1 {
            1
        } else if rounded > 100 {
            100
        } else {
            rounded as u32
        }
    }
}

/// The byte that starts an escape: `\`.
pub const BACKSLASH: u8 = 0x5c;

/// The byte that a one-letter escape stands for: `\t`, `\'`, `\"`, `\\`.
pub open spec fn simple_escape(letter: u8) -> Option<u8> {
    if letter == 0x74 {
        Some(0x09u8)
    } else if letter == 0x27 {
        Some(0x27u8)
    } else if letter == 0x22 {
        Some(0x22u8)
    } else if letter == 0x5c {
        Some(0x5cu8)
    } else {
        None
    }
}

/// The value of the hexadecimal digit that a byte spells, or -1.
pub open spec fn hex_digit(b: u8) -> int {
    if 0x30 <= b <= 0x39 {
        b - 0x30
    } else if 0x61 <= b <= 0x66 {
        b - 0x61 + 10
    } else if 0x41 <= b <= 0x46 {
        b - 0x41 + 10
    } else {
        -1
    }
}

/// The byte that the two bytes behind `\x` spell: two hexadecimal digits,
/// or a plus sign and one digit.
pub open spec fn hex_pair(a: u8, b: u8) -> Option<u8> {
    if hex_digit(a) >= 0 && hex_digit(b) >= 0 {
        Some((hex_digit(a) * 16 + hex_digit(b)) as u8)
    } else if a == 0x2b && hex_digit(b) >= 0 {
        Some(hex_digit(b) as u8)
    } else {
        None
    }
}

/// The bytes that the escaped bytes `s` stand for, from index `from` on. A
/// byte other than `\` stands for itself; `\t`, `\'`, `\"` and `\\` for one
/// byte each; `\x` and two digits for the byte they spell. Decoding stops
/// before the first escape that it does not know.
pub open spec fn decode_essid(s: Seq<u8>, from: int) -> Seq<u8>
    decreases s.len() - from,
{
    if from < 0 || from >= s.len() {
        Seq::empty()
    } else if s[from] != BACKSLASH {
        seq![s[from]] + decode_essid(s, from + 1)
    } else if from + 1 >= s.len() {
        Seq::empty()
    } else if simple_escape(s[from + 1]) is Some {
        seq![simple_escape(s[from + 1])->0] + decode_essid(s, from + 2)
    } else if s[from + 1] == 0x78 && from + 3 < s.len() && hex_pair(s[from + 2], s[from + 3])
        is Some {
        seq![hex_pair(s[from + 2], s[from + 3])->0] + decode_essid(s, from + 4)
    } else {
        Seq::empty()
    }
}

/// Every `\x` that decoding reaches in `s` from index `from` on is followed
/// by two bytes that spell a byte.
pub open spec fn essid_well_formed(s: Seq<u8>, from: int) -> bool
    decreases s.len() - from,
{
    if from < 0 || from >= s.len() {
        true
    } else if s[from] != BACKSLASH {
        essid_well_formed(s, from + 1)
    } else if from + 1 >= s.len() {
        true
    } else if simple_escape(s[from + 1]) is Some {
        essid_well_formed(s, from + 2)
    } else if s[from + 1] == 0x78 {
        from + 3 < s.len() && hex_pair(s[from + 2], s[from + 3]) is Some && essid_well_formed(
            s,
            from + 4,
        )
    } else {
        true
    }
}

/// The bytes that the escaped name `text` stands for: what its UTF-8 bytes
/// decode to.
pub open spec fn essid_bytes(text: Seq<char>) -> Seq<u8> {
    decode_essid(encode_utf8(text), 0)
}

/// Every `\x` that decoding reaches in the name `text` spells a byte.
pub open spec fn essid_escapes_ok(text: Seq<char>) -> bool {
    essid_well_formed(encode_utf8(text), 0)
}

/// Bytes without `\` decode to themselves.
pub proof fn lemma_decode_plain(s: Seq<u8>, from: int)
    requires
        0 <= from <= s.len(),
        forall|i: int| from <= i < s.len() ==> s[i] != BACKSLASH,
    ensures
        essid_well_formed(s, from),
        decode_essid(s, from) == s.subrange(from, s.len() as int),
    decreases s.len() - from,
{
    if from < s.len() {
        lemma_decode_plain(s, from + 1);
        assert(seq![s[from]] + s.subrange(from + 1, s.len() as int) =~= s.subrange(
            from,
            s.len() as int,
        ));
    } else {
        assert(s.subrange(from, s.len() as int) =~= Seq::<u8>::empty());
    }
}

proof fn lemma_scalar_bytes(scalar: u32)
    by (bit_vector)
    ensures
        scalar <= 0x7F ==> (scalar & 0x7F) as u8 == scalar,
        0xC0u8 | ((scalar >> 6) & 0x1F) as u8 >= 0x80,
        0xE0u8 | ((scalar >> 12) & 0x0F) as u8 >= 0x80,
        0xF0u8 | ((scalar >> 18) & 0x7) as u8 >= 0x80,
        0x80u8 | (scalar & 0x3F) as u8 >= 0x80,
        0x80u8 | ((scalar >> 6) & 0x3F) as u8 >= 0x80,
        0x80u8 | ((scalar >> 12) & 0x3F) as u8 >= 0x80,
{
}

proof fn lemma_encoding_keeps_plain(text: Seq<char>)
    requires
        forall|i: int| 0 <= i < text.len() ==> text[i] != '\\',
    ensures
        forall|i: int| 0 <= i < encode_utf8(text).len() ==> encode_utf8(text)[i] != BACKSLASH,
    decreases text.len(),
{
    if text.len() > 0 {
        let rest = text.drop_first();
        assert forall|i: int| 0 <= i < rest.len() implies rest[i] != '\\' by {
            assert(rest[i] == text[i + 1]);
        }
        lemma_encoding_keeps_plain(rest);
        let scalar = text[0] as u32;
        lemma_scalar_bytes(scalar);
        let head = encode_scalar(scalar);
        assert(text[0] != '\\');
        assert(scalar != 0x5c) by {
            vstd::utf8::char_u32_cast(text[0], scalar);
            vstd::utf8::char_u32_cast('\\', 0x5c);
        }
        assert forall|i: int| 0 <= i < head.len() implies head[i] != BACKSLASH by {}
        let all = encode_utf8(text);
        assert forall|i: int| 0 <= i < all.len() implies all[i] != BACKSLASH by {
            if i < head.len() {
                assert(all[i] == head[i]);
            } else {
                assert(all[i] == encode_utf8(rest)[i - head.len()]);
            }
        }
    }
}

/// A name without `\` stands for itself: it decodes to its own bytes, and
/// read as text these are the name again.
pub proof fn lemma_plain_name(text: Seq<char>)
    requires
        forall|i: int| 0 <= i < text.len() ==> text[i] != '\\',
    ensures
        essid_escapes_ok(text),
        essid_bytes(text) == encode_utf8(text),
        valid_utf8(essid_bytes(text)),
        decode_utf8(essid_bytes(text)) == text,
{
    lemma_encoding_keeps_plain(text);
    let bytes = encode_utf8(text);
    lemma_decode_plain(bytes, 0);
    assert(bytes.subrange(0, bytes.len() as int) =~= bytes);
    vstd::utf8::encode_utf8_valid_utf8(text);
    vstd::utf8::encode_utf8_decode_utf8(text);
}

/// A one-letter escape decodes to its byte, and decoding goes on behind it:
/// `\t` gives 0x09, `\'` 0x27, `\"` 0x22 and `\\` 0x5c.
pub proof fn lemma_decode_simple_escape(s: Seq<u8>, from: int)
    requires
        0 <= from,
        from + 1 < s.len(),
        s[from] == BACKSLASH,
        simple_escape(s[from + 1]) is Some,
    ensures
        decode_essid(s, from) == seq![simple_escape(s[from + 1])->0] + decode_essid(s, from + 2),
        simple_escape(0x74) == Some(0x09u8),
        simple_escape(0x27) == Some(0x27u8),
        simple_escape(0x22) == Some(0x22u8),
        simple_escape(0x5c) == Some(0x5cu8),
{
}

/// `\xNN` decodes to the byte that the two hexadecimal digits spell, and
/// decoding goes on behind it.
pub proof fn lemma_decode_hex_escape(s: Seq<u8>, from: int)
    requires
        0 <= from,
        from + 3 < s.len(),
        s[from] == BACKSLASH,
        s[from + 1] == 0x78,
        hex_digit(s[from + 2]) >= 0,
        hex_digit(s[from + 3]) >= 0,
    ensures
        decode_essid(s, from) == seq![
            (hex_digit(s[from + 2]) * 16 + hex_digit(s[from + 3])) as u8,
        ] + decode_essid(s, from + 4),
{
}

fn simple_escape_byte(letter: u8) -> (r: Option<u8>)
    ensures
        r == simple_escape(letter),
{
    if letter == 0x74 {
        Some(0x09)
    } else if letter == 0x27 {
        Some(0x27)
    } else if letter == 0x22 {
        Some(0x22)
    } else if letter == 0x5c {
        Some(0x5c)
    } else {
        None
    }
}

fn hex_digit_value(b: u8) -> (r: Option<u8>)
    ensures
        match r {
            Some(v) => v as int == hex_digit(b) && v < 16,
            None => hex_digit(b) == -1,
        },
{
    if 0x30 <= b && b <= 0x39 {
        Some(b - 0x30)
    } else if 0x61 <= b && b <= 0x66 {
        Some(b - 0x61 + 10)
    } else if 0x41 <= b && b <= 0x46 {
        Some(b - 0x41 + 10)
    } else {
        None
    }
}

fn hex_pair_value(a: u8, b: u8) -> (r: Option<u8>)
    ensures
        r == hex_pair(a, b),
{
    match hex_digit_value(b) {
        None => None,
        Some(low) => match hex_digit_value(a) {
            Some(high) => Some(high * 16 + low),
            None => if a == 0x2b {
                Some(low)
            } else {
                None
            },
        },
    }
}

/// Decodes an escaped name where it is well formed.
pub fn try_parse_essid(input: &str) -> (r: Option<Vec<u8>>)
    ensures
        match r {
            Some(bytes) => essid_escapes_ok(input@) && bytes@ == essid_bytes(input@),
            None => !essid_escapes_ok(input@),
        },
{
    let raw = input.as_bytes();
    let ghost s = encode_utf8(input@);
    let n: usize = raw.len();
    let mut out: Vec<u8> = Vec::new();
    let mut i: usize = 0;
    assert(out@ + decode_essid(s, 0) =~= decode_essid(s, 0));
    while i < n
        invariant
            raw@ == s,
            s == encode_utf8(input@),
            n == s.len(),
            i <= n,
            essid_well_formed(s, 0) == essid_well_formed(s, i as int),
            decode_essid(s, 0) == out@ + decode_essid(s, i as int),
        decreases n - i,
    {
        let ghost rest = decode_essid(s, i as int);
        let ghost done = out@;
        let b: u8 = raw[i];
        if b != BACKSLASH {
            out.push(b);
            assert(out@ + decode_essid(s, i + 1) =~= done + rest) by {
                assert(rest == seq![b] + decode_essid(s, i + 1));
            }
            i += 1;
        } else if n - i < 2 {
            assert(rest =~= Seq::<u8>::empty());
            assert(out@ + rest =~= out@);
            return Some(out);
        } else {
            let letter: u8 = raw[i + 1];
            match simple_escape_byte(letter) {
                Some(v) => {
                    out.push(v);
                    assert(out@ + decode_essid(s, i + 2) =~= done + rest) by {
                        assert(rest == seq![v] + decode_essid(s, i + 2));
                    }
                    i += 2;
                },
                None => {
                    if letter == 0x78 {
                        if n - i < 4 {
                            return None;
                        }
                        match hex_pair_value(raw[i + 2], raw[i + 3]) {
                            Some(v) => {
                                out.push(v);
                                assert(out@ + decode_essid(s, i + 4) =~= done + rest) by {
                                    assert(rest == seq![v] + decode_essid(s, i + 4));
                                }
                                i += 4;
                            },
                            None => {
                                return None;
                            },
                        }
                    } else {
                        assert(rest =~= Seq::<u8>::empty());
                        assert(out@ + rest =~= out@);
                        return Some(out);
                    }
                },
            }
        }
    }
    assert(decode_essid(s, n as int) =~= Seq::<u8>::empty());
    assert(out@ + decode_essid(s, n as int) =~= out@);
    Some(out)
}

/// Whether every `\x` that decoding reaches in `input` spells a byte.
pub fn essid_is_well_formed(input: &str) -> (r: bool)
    ensures
        r == essid_escapes_ok(input@),
{
    try_parse_essid(input).is_some()
}

/// Decodes an escaped network name to the bytes it stands for.
pub fn parse_essid(input: &str) -> (bytes: Vec<u8>)
    requires
        essid_escapes_ok(input@),
    ensures
        bytes@ == essid_bytes(input@),
{
    match try_parse_essid(input) {
        Some(bytes) => bytes,
        None => Vec::new(),
    }
}

/// Reads bytes as UTF-8 text.
///
/// Wraps `String::from_utf8`, which std documents to succeed exactly on
/// valid UTF-8 and then to hold the text that the bytes encode.
#[verifier::external_body]
pub(crate) fn utf8_text(bytes: Vec<u8>) -> (r: Option<String>)
    ensures
        r is Some <==> valid_utf8(bytes@),
        r is Some ==> r->0@ == decode_utf8(bytes@),
{
    String::from_utf8(bytes).ok()
}

/// The character of a decimal digit.
pub open spec fn digit_char(d: int) -> char {
    ('0' as int + d) as char
}

/// The decimal digits of `n`, most significant first.
pub open spec fn decimal_digits(n: nat) -> Seq<char>
    decreases n,
{
    if n < 10 {
        seq![digit_char(n as int)]
    } else {
        decimal_digits(n / 10).push(digit_char((n % 10) as int))
    }
}

/// `n` in decimal, with a minus sign where it is negative.
pub open spec fn decimal_text(n: int) -> Seq<char> {
    if n < 0 {
        seq!['-'] + decimal_digits((-n) as nat)
    } else {
        decimal_digits(n as nat)
    }
}

/// The character of a hexadecimal digit, in lower case.
pub open spec fn hex_char(d: int) -> char {
    if d < 10 {
        ('0' as int + d) as char
    } else {
        ('a' as int + d - 10) as char
    }
}

/// The bytes in hexadecimal, two lower-case digits each.
pub open spec fn hex_text(bytes: Seq<u8>) -> Seq<char>
    decreases bytes.len(),
{
    if bytes.len() == 0 {
        Seq::empty()
    } else {
        hex_text(bytes.drop_last()).push(hex_char(bytes.last() as int / 16)).push(
            hex_char(bytes.last() as int % 16),
        )
    }
}

fn digit_to_char(d: u8) -> (c: char)
    requires
        d < 10,
    ensures
        c == digit_char(d as int),
{
    (48u8 + d) as char
}

fn hex_to_char(d: u8) -> (c: char)
    requires
        d < 16,
    ensures
        c == hex_char(d as int),
{
    if d < 10 {
        (48u8 + d) as char
    } else {
        (97u8 + (d - 10)) as char
    }
}

fn decimal_of(magnitude: u64, negative: bool) -> (r: String)
    ensures
        r@ == if negative {
            seq!['-'] + decimal_digits(magnitude as nat)
        } else {
            decimal_digits(magnitude as nat)
        },
{
    let mut m: u64 = magnitude;
    let mut digits: Vec<char> = Vec::new();
    while m >= 10
        invariant
            decimal_digits(magnitude as nat) == decimal_digits(m as nat) + digits@,
        decreases m,
    {
        let ghost before = digits@;
        digits.insert(0, digit_to_char((m % 10) as u8));
        assert(decimal_digits(m as nat) + before =~= decimal_digits((m / 10) as nat) + digits@);
        m = m / 10;
    }
    let ghost before = digits@;
    digits.insert(0, digit_to_char(m as u8));
    assert(decimal_digits(m as nat) + before =~= digits@);
    if negative {
        digits.insert(0, '-');
        assert(digits@ =~= seq!['-'] + decimal_digits(magnitude as nat));
    }
    string_from_chars(&digits)
}

/// Writes `n` in decimal.
pub fn decimal_string(n: i64) -> (r: String)
    ensures
        r@ == decimal_text(n as int),
{
    if n < 0 {
        let magnitude: u64 = if n == i64::MIN {
            9223372036854775808u64
        } else {
            (-n) as u64
        };
        decimal_of(magnitude, true)
    } else {
        decimal_of(n as u64, false)
    }
}

/// Writes a count in decimal.
pub fn decimal_count(n: usize) -> (r: String)
    ensures
        r@ == decimal_text(n as int),
{
    decimal_of(n as u64, false)
}

/// Writes bytes in hexadecimal, two lower-case digits each.
pub fn hex_string(bytes: &[u8]) -> (r: String)
    ensures
        r@ == hex_text(bytes@),
{
    let mut out: Vec<char> = Vec::new();
    let mut i: usize = 0;
    assert(bytes@.take(0) =~= Seq::<u8>::empty());
    while i < bytes.len()
        invariant
            i <= bytes@.len(),
            out@ == hex_text(bytes@.take(i as int)),
        decreases bytes@.len() - i,
    {
        let b: u8 = bytes[i];
        out.push(hex_to_char(b / 16));
        out.push(hex_to_char(b % 16));
        proof {
            assert(bytes@.take(i + 1).drop_last() =~= bytes@.take(i as int));
            assert(bytes@.take(i + 1).last() == b);
        }
        i += 1;
    }
    assert(bytes@.take(bytes@.len() as int) =~= bytes@);
    string_from_chars(&out)
}

/// Rounds of the key derivation that WPA2 prescribes.
pub const PSK_ITERATIONS: u32 = 4096;

/// Length of a WPA2 pre-shared key in bytes.
pub const PSK_LEN: usize = 32;

/// The longest secret or salt, in bytes, that is handed to the key
/// derivation.
pub const DERIVE_INPUT_MAX: usize = 0xffff_ffff;

/// The key of `len` bytes that PBKDF2 with HMAC-SHA1 derives from `secret`
/// and `salt` in `iterations` rounds.
pub uninterp spec fn pbkdf2_hmac_sha1(
    secret: Seq<u8>,
    salt: Seq<u8>,
    iterations: u32,
    len: nat,
) -> Seq<u8>;

/// Derives a key with `ring::pbkdf2::derive` and `PBKDF2_HMAC_SHA1`. The key
/// depends on the arguments alone; the contract names it and says that it
/// has the length asked for, as `derive` fills the whole buffer. The round
/// count goes in as a `NonZeroU32`, so it must not be zero, and `derive`
/// panics on inputs beyond what SHA-1 can take and on more output than the
/// scheme can give; the `requires` stays far below both.
#[verifier::external_body]
fn derive_key(secret: &[u8], salt: &[u8], iterations: u32, len: usize) -> (key: Vec<u8>)
    requires
        iterations > 0,
        secret@.len() <= DERIVE_INPUT_MAX,
        salt@.len() <= DERIVE_INPUT_MAX,
        len <= DERIVE_INPUT_MAX,
    ensures
        key@ == pbkdf2_hmac_sha1(secret@, salt@, iterations, len as nat),
        key@.len() == len,
{
    let mut key = vec![0u8; len];
    ring::pbkdf2::derive(
        ring::pbkdf2::PBKDF2_HMAC_SHA1,
        std::num::NonZeroU32::new(iterations).unwrap(),
        salt,
        secret,
        &mut key,
    );
    key
}

/// The `bgscan` directive for a roaming threshold.
pub open spec fn bgscan_text(
    threshold: i32,
    roaming_db: Seq<char>,
    short_interval: u32,
    long_interval: u32,
) -> Seq<char> {
    "\n\tbgscan=\"learn:"@ + decimal_text(short_interval as int) + ":"@ + decimal_text(
        threshold as int,
    ) + ":"@ + decimal_text(long_interval as int) + ":"@ + roaming_db + "\""@
}

/// The supplicant's configuration for one network: the ssid, then the
/// pre-shared key in hexadecimal or `key_mgmt=NONE` for an open network,
/// then the `bgscan` directive where a roaming threshold is set.
pub open spec fn wpa_config_text(
    essid: Seq<char>,
    psk: Option<Seq<u8>>,
    threshold: Option<i32>,
    roaming_db: Seq<char>,
    short_interval: u32,
    long_interval: u32,
) -> Seq<char> {
    "network={\n\tssid=\""@ + essid + "\"\n"@ + (match psk {
        Some(key) => "\tpsk="@ + hex_text(key),
        None => "\tkey_mgmt=NONE"@,
    }) + (match threshold {
        Some(t) => bgscan_text(t, roaming_db, short_interval, long_interval),
        None => Seq::empty(),
    }) + "\n}\n"@
}

/// The bytes of an optional key.
pub open spec fn option_bytes(key: Option<Vec<u8>>) -> Option<Seq<u8>> {
    match key {
        Some(k) => Some(k@),
        None => None,
    }
}

/// Writes the supplicant's configuration for one network whose pre-shared
/// key, if it has one, is `psk`.
pub fn render_wpa_config(
    essid: &str,
    psk: &Option<Vec<u8>>,
    signal_threshold: Option<i32>,
    roaming_db: &str,
    short_interval: u32,
    long_interval: u32,
) -> (r: String)
    ensures
        r@ == wpa_config_text(
            essid@,
            option_bytes(*psk),
            signal_threshold,
            roaming_db@,
            short_interval,
            long_interval,
        ),
{
    let mut text = "network={\n\tssid=\"".to_owned();
    text.append(essid);
    text.append("\"\n");
    match psk {
        Some(key) => {
            text.append("\tpsk=");
            let hex = hex_string(key.as_slice());
            text.append(hex.as_str());
            assert(text@ =~= "network={\n\tssid=\""@ + essid@ + "\"\n"@ + ("\tpsk="@ + hex_text(
                key@,
            )));
        },
        None => {
            text.append("\tkey_mgmt=NONE");
        },
    }
    match signal_threshold {
        Some(threshold) => {
            let ghost before = text@;
            let short = decimal_string(short_interval as i64);
            let level = decimal_string(threshold as i64);
            let long = decimal_string(long_interval as i64);
            text.append("\n\tbgscan=\"learn:");
            text.append(short.as_str());
            text.append(":");
            text.append(level.as_str());
            text.append(":");
            text.append(long.as_str());
            text.append(":");
            text.append(roaming_db);
            text.append("\"");
            assert(text@ =~= before + bgscan_text(
                threshold,
                roaming_db@,
                short_interval,
                long_interval,
            ));
        },
        None => {
            assert(text@ =~= text@ + Seq::<char>::empty());
        },
    }
    text.append("\n}\n");
    text
}

/// The pre-shared key of a network: derived from the password with the
/// essid as salt; none for an open network.
pub open spec fn psk_of(essid: Seq<u8>, password: Option<Seq<u8>>) -> Option<Seq<u8>> {
    match password {
        Some(p) => Some(pbkdf2_hmac_sha1(p, essid, PSK_ITERATIONS, PSK_LEN as nat)),
        None => None,
    }
}

/// The UTF-8 bytes of an optional password.
pub open spec fn option_str_bytes(s: Option<&str>) -> Option<Seq<u8>> {
    match s {
        Some(s) => Some(encode_utf8(s@)),
        None => None,
    }
}

/// Whether a key can be derived for this essid and password: always for an
/// open network, and for a secured one unless essid or password is longer
/// than the derivation takes.
pub open spec fn derivable(essid: Seq<u8>, password: Option<Seq<u8>>) -> bool {
    password is Some ==> essid.len() <= DERIVE_INPUT_MAX && password->0.len() <= DERIVE_INPUT_MAX
}

/// Writes the supplicant's configuration for the network `essid`: with the
/// key derived from `password`, or as an open network where there is none.
/// `None` where no key can be derived.
pub fn gen_wpa_config(
    essid: &str,
    password: Option<&str>,
    signal_threshold: Option<i32>,
    roaming_db: &str,
    short_interval: u32,
    long_interval: u32,
) -> (r: Option<String>)
    ensures
        r is Some <==> derivable(encode_utf8(essid@), option_str_bytes(password)),
        r is Some ==> r->0@ == wpa_config_text(
            essid@,
            psk_of(encode_utf8(essid@), option_str_bytes(password)),
            signal_threshold,
            roaming_db@,
            short_interval,
            long_interval,
        ),
{
    let psk: Option<Vec<u8>> = match password {
        Some(pass) => {
            let salt = essid.as_bytes();
            let secret = pass.as_bytes();
            if salt.len() > DERIVE_INPUT_MAX || secret.len() > DERIVE_INPUT_MAX {
                return None;
            }
            Some(derive_key(secret, salt, PSK_ITERATIONS, PSK_LEN))
        },
        None => None,
    };
    Some(
        render_wpa_config(
            essid,
            &psk,
            signal_threshold,
            roaming_db,
            short_interval,
            long_interval,
        ),
    )
}

} // verus!
