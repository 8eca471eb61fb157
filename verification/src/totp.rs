use vstd::prelude::*;
use hmac::{Hmac, Mac};
use sha1::Sha1;
use crate::error::AppError;
use crate::kite_auth::{replace_text, replaced};
use crate::text::{digit_char, string_push};

verus! {

/// `s` in upper case, as `str::to_uppercase` gives it.
pub uninterp spec fn uppercase(s: Seq<char>) -> Seq<char>;

/// The bytes that a text stands for in base 32 with the alphabet of RFC 4648,
/// as `base32::decode` gives them; none where the text is no such encoding.
pub uninterp spec fn base32_decoded(s: Seq<char>) -> Option<Seq<u8>>;

/// The HMAC-SHA1 code of a message under a key.
pub uninterp spec fn hmac_sha1_of(key: Seq<u8>, message: Seq<u8>) -> Seq<u8>;

/// `str::to_uppercase`: the text in upper case.
#[verifier::external_body]
fn to_uppercase(s: &str) -> (r: String)
    ensures
        r@ == uppercase(s@),
{
    s.to_uppercase()
}

/// `base32::decode` with the alphabet of RFC 4648, padding not asked for.
#[verifier::external_body]
fn base32_decode(s: &str) -> (r: Option<Vec<u8>>)
    ensures
        match r {
            Some(bytes) => base32_decoded(s@) == Some(bytes@),
            None => base32_decoded(s@) is None,
        },
{
    base32::decode(base32::Alphabet::RFC4648 { padding: false }, s)
}

/// `Hmac::<Sha1>::new_from_slice`, `update` and `finalize`: the code of
/// `message` under `key`, which is twenty bytes long. A key of any length
/// is taken, so there always is a code.
#[verifier::external_body]
fn hmac_sha1(key: &[u8], message: &[u8]) -> (r: Option<Vec<u8>>)
    ensures
        match r {
            Some(code) => code@ == hmac_sha1_of(key@, message@) && code@.len() == 20,
            None => false,
        },
{
    let mut mac = Hmac::<Sha1>::new_from_slice(key).ok()?;
    mac.update(message);
    Some(mac.finalize().into_bytes().to_vec())
}

/// The eight bytes of `n`, most significant first.
pub open spec fn u64_be_bytes(n: u64) -> Seq<u8> {
    Seq::new(8, |i: int| ((n as int / pow256(7 - i)) % 256) as u8)
}

/// 256 to the power of `k`, for `k` up to 7.
pub open spec fn pow256(k: int) -> int {
    if k <= 0 {
        1
    } else if k == 1 {
        0x100
    } else if k == 2 {
        0x1_0000
    } else if k == 3 {
        0x100_0000
    } else if k == 4 {
        0x1_0000_0000
    } else if k == 5 {
        0x100_0000_0000
    } else if k == 6 {
        0x1_0000_0000_0000
    } else {
        0x100_0000_0000_0000
    }
}

/// The eight bytes of `n`, most significant first.
pub fn be_bytes(n: u64) -> (bytes: Vec<u8>)
    ensures
        bytes@ == u64_be_bytes(n),
{
    let mut bytes: Vec<u8> = Vec::new();
    bytes.push(((n / 0x100_0000_0000_0000) % 256) as u8);
    bytes.push(((n / 0x1_0000_0000_0000) % 256) as u8);
    bytes.push(((n / 0x100_0000_0000) % 256) as u8);
    bytes.push(((n / 0x1_0000_0000) % 256) as u8);
    bytes.push(((n / 0x100_0000) % 256) as u8);
    bytes.push(((n / 0x1_0000) % 256) as u8);
    bytes.push(((n / 0x100) % 256) as u8);
    bytes.push((n % 256) as u8);
    assert(bytes@ =~= u64_be_bytes(n));
    bytes
}

/// The number that a code of twenty bytes is cut down to: the low four
/// bits of its last byte say where four bytes are taken, and these are read
/// most significant first, without the top bit.
pub open spec fn truncated(code: Seq<u8>) -> int {
    let at = code[19] as int % 16;
    (code[at] as int % 128) * 0x100_0000 + code[at + 1] as int * 0x1_0000 + code[at + 2] as int
        * 0x100 + code[at + 3] as int
}

/// `n` in six decimal digits, with zeros in front where it is short.
pub open spec fn six_digits(n: int) -> Seq<char> {
    seq![
        digit_char(n / 100000 % 10),
        digit_char(n / 10000 % 10),
        digit_char(n / 1000 % 10),
        digit_char(n / 100 % 10),
        digit_char(n / 10 % 10),
        digit_char(n % 10),
    ]
}

/// The one-time password that a code stands for: its truncation, modulo a
/// million, in six digits.
pub open spec fn password_of(code: Seq<u8>) -> Seq<char> {
    six_digits(truncated(code) % 1_000_000)
}

/// The one-time password that an HMAC-SHA1 code stands for.
pub fn password_from_code(code: &[u8]) -> (r: String)
    requires
        code@.len() == 20,
    ensures
        r@ == password_of(code@),
{
    let at: usize = (code[19] % 16) as usize;
    let number: u32 = (code[at] % 128) as u32 * 0x100_0000 + code[at + 1] as u32 * 0x1_0000
        + code[at + 2] as u32 * 0x100 + code[at + 3] as u32;
    let otp: u32 = number % 1_000_000;
    let mut out = String::new();
    string_push(&mut out, (0x30u8 + (otp / 100000 % 10) as u8) as char);
    string_push(&mut out, (0x30u8 + (otp / 10000 % 10) as u8) as char);
    string_push(&mut out, (0x30u8 + (otp / 1000 % 10) as u8) as char);
    string_push(&mut out, (0x30u8 + (otp / 100 % 10) as u8) as char);
    string_push(&mut out, (0x30u8 + (otp / 10 % 10) as u8) as char);
    string_push(&mut out, (0x30u8 + (otp % 10) as u8) as char);
    assert(out@ =~= password_of(code@));
    out
}

/// The key that a secret stands for: the secret with every blank replaced
/// by nothing, in upper case, read as base 32.
pub open spec fn key_of(secret: Seq<char>) -> Option<Seq<u8>> {
    base32_decoded(uppercase(replaced(secret, " "@, ""@)))
}

/// The time-based one-time password of a secret at so many seconds after
/// the epoch: the password of the HMAC-SHA1 code of the count of
/// thirty-second steps under the key of the secret. A secret that is no
/// base 32 is an error.
pub open spec fn totp_of(secret: Seq<char>, unix_secs: u64) -> Result<Seq<char>, Seq<char>> {
    match key_of(secret) {
        Some(key) => Ok(password_of(hmac_sha1_of(key, u64_be_bytes((unix_secs / 30) as u64)))),
        None => Err("Invalid base32 totp_secret"@),
    }
}

/// The time-based one-time password of `secret` at `unix_secs` seconds
/// after the epoch: six digits, renewed every thirty seconds.
pub fn generate_totp(secret_b32: &str, unix_secs: u64) -> (r: Result<String, AppError>)
    ensures
        match r {
            Ok(password) => totp_of(secret_b32@, unix_secs) == Ok::<Seq<char>, Seq<char>>(password@),
            Err(error) => error matches AppError::KiteApi(text) && totp_of(secret_b32@, unix_secs)
                == Err::<Seq<char>, Seq<char>>(text@),
        },
{
    let bare = replace_text(secret_b32, " ", "");
    let cleaned = to_uppercase(bare.as_str());
    let key = match base32_decode(cleaned.as_str()) {
        Some(key) => key,
        None => {
            return Err(AppError::KiteApi("Invalid base32 totp_secret".to_owned()));
        },
    };
    let counter = unix_secs / 30;
    let message = be_bytes(counter);
    match hmac_sha1(key.as_slice(), message.as_slice()) {
        Some(code) => Ok(password_from_code(code.as_slice())),
        None => Err(AppError::KiteApi("HMAC init failed".to_owned())),
    }
}

} // verus!
