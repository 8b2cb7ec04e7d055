//! One-time passwords that change with the time.
//!
//! A password is taken from the keyed hash of a counter, and the counter is
//! the number of the thirty-second step that holds the present moment. The
//! hash is computed by the crates `hmac` and `sha1`; how a password is taken
//! from it is this module's own.

use hmac::digest::FixedOutput;
use hmac::{Hmac, Mac};
use std::time::{SystemTime, UNIX_EPOCH};
use vstd::prelude::*;
use crate::text::{digit, string_of};

verus! {

/// What `base32::encode` returns for `data` with the alphabet of RFC 4648
/// and with padding.
pub uninterp spec fn base32_text(data: Seq<u8>) -> Seq<char>;

/// The keyed hash of `message` under `key` that `hmac::Hmac` computes over
/// `sha1::Sha1`.
pub uninterp spec fn hmac_sha1(key: Seq<u8>, message: Seq<u8>) -> Seq<u8>;

/// Writes `secret` in base 32, with the alphabet of RFC 4648 and with
/// padding. Calls `base32::encode` with `Alphabet::RFC4648 { padding: true }`;
/// the contract claims only that the same bytes give the same text.
#[verifier::external_body]
pub fn base32_encode(secret: &[u8]) -> (text: String)
    ensures
        text@ == base32_text(secret@),
{
    base32::encode(base32::Alphabet::RFC4648 { padding: true }, secret)
}

/// Makes an `Hmac<Sha1>` with `Mac::new_from_slice`, which takes a key of any
/// length, feeds it `message` with `Mac::update` and takes the hash with
/// `FixedOutput::finalize_fixed`. The contract claims that the same key and
/// message give the same hash, and that the hash has the twenty bytes of an
/// output of SHA-1.
#[verifier::external_body]
fn hmac_sha1_of(key: &[u8], message: &[u8]) -> (hash: Vec<u8>)
    ensures
        hash@ == hmac_sha1(key@, message@),
        hash@.len() == 20,
{
    let mut mac = Hmac::<sha1::Sha1>::new_from_slice(key).unwrap();
    mac.update(message);
    mac.finalize_fixed().to_vec()
}

/// Asks `SystemTime::now` for the time and hands out the whole seconds that
/// `SystemTime::duration_since` counts from `UNIX_EPOCH`; nothing for a
/// clock that stands before it. Nothing is claimed of the number.
#[verifier::external_body]
fn unix_seconds() -> (secs: Option<u64>) {
    SystemTime::now().duration_since(UNIX_EPOCH).ok().map(|elapsed| elapsed.as_secs())
}

/// Number of the thirty-second step that holds the instant `secs` seconds
/// after the epoch.
pub open spec fn tick_of(secs: u64) -> u64 {
    (secs / 30) as u64
}

/// The eight bytes of `counter`, the most significant first.
pub open spec fn counter_bytes(counter: u64) -> Seq<u8> {
    Seq::new(8, |k: int| byte_of(counter, 7 - k))
}

/// The byte of `counter` that has `place` bytes below it.
pub open spec fn byte_of(counter: u64, place: int) -> u8 {
    if place == 0 {
        (counter % 0x100) as u8
    } else if place == 1 {
        (counter / 0x100 % 0x100) as u8
    } else if place == 2 {
        (counter / 0x1_0000 % 0x100) as u8
    } else if place == 3 {
        (counter / 0x100_0000 % 0x100) as u8
    } else if place == 4 {
        (counter / 0x1_0000_0000 % 0x100) as u8
    } else if place == 5 {
        (counter / 0x100_0000_0000 % 0x100) as u8
    } else if place == 6 {
        (counter / 0x1_0000_0000_0000 % 0x100) as u8
    } else {
        (counter / 0x100_0000_0000_0000 % 0x100) as u8
    }
}

/// A password can be taken from `hash`: the place that its last byte points
/// to, and the three bytes after it, lie within it.
pub open spec fn can_truncate(hash: Seq<u8>) -> bool {
    hash.len() > 0 && hash.last() % 16 + 3 < hash.len()
}

/// The number that `hash` gives: the four bytes at the place that the low
/// half of its last byte points to, read as one number with the most
/// significant byte first and without its top bit.
pub open spec fn truncated(hash: Seq<u8>) -> int {
    let at = (hash.last() % 16) as int;
    (hash[at] % 0x80) * 0x100_0000 + hash[at + 1] * 0x1_0000 + hash[at + 2] * 0x100 + hash[at + 3]
}

/// The six decimal digits of `code`, with zeros in front where it is short.
pub open spec fn six_digits(code: int) -> Seq<char> {
    seq![
        digit(code / 100000 % 10),
        digit(code / 10000 % 10),
        digit(code / 1000 % 10),
        digit(code / 100 % 10),
        digit(code / 10 % 10),
        digit(code % 10),
    ]
}

/// The password that `hash` gives: the last six digits of its number.
pub open spec fn otp_text(hash: Seq<u8>) -> Seq<char> {
    six_digits(truncated(hash) % 1000000)
}

/// Computes the step that holds the instant `secs` seconds after the epoch.
pub fn tick_at(secs: u64) -> (tick: u64)
    ensures
        tick == tick_of(secs),
{
    secs / 30
}

/// The step that holds the present moment, or zero where the clock stands
/// before the epoch.
pub fn time_tick() -> (tick: u64)
    ensures
        tick <= u64::MAX / 30,
{
    tick_from(unix_seconds())
}

/// The step for a reading of the clock: the step that holds the instant read,
/// or zero where the clock gave no reading.
pub open spec fn tick_for(reading: Option<u64>) -> u64 {
    match reading {
        Some(secs) => tick_of(secs),
        None => 0,
    }
}

/// Computes the step for a reading of the clock, in whole seconds after the
/// epoch.
pub fn tick_from(reading: Option<u64>) -> (tick: u64)
    ensures
        tick == tick_for(reading),
        tick <= u64::MAX / 30,
{
    match reading {
        Some(secs) => tick_at(secs),
        None => 0,
    }
}

/// The eight bytes of `counter`, the most significant first.
pub fn counter_to_bytes(counter: u64) -> (bytes: Vec<u8>)
    ensures
        bytes@ == counter_bytes(counter),
{
    let mut bytes: Vec<u8> = Vec::new();
    bytes.push((counter / 0x100_0000_0000_0000 % 0x100) as u8);
    bytes.push((counter / 0x1_0000_0000_0000 % 0x100) as u8);
    bytes.push((counter / 0x100_0000_0000 % 0x100) as u8);
    bytes.push((counter / 0x1_0000_0000 % 0x100) as u8);
    bytes.push((counter / 0x100_0000 % 0x100) as u8);
    bytes.push((counter / 0x1_0000 % 0x100) as u8);
    bytes.push((counter / 0x100 % 0x100) as u8);
    bytes.push((counter % 0x100) as u8);
    assert(bytes@ =~= counter_bytes(counter));
    bytes
}

/// Takes the password from `hash`.
pub fn truncate_otp(hash: &[u8]) -> (text: String)
    requires
        can_truncate(hash@),
    ensures
        text@ == otp_text(hash@),
{
    let at: usize = (hash[hash.len() - 1] % 16) as usize;
    let number: u32 = (hash[at] % 0x80) as u32 * 0x100_0000 + hash[at + 1] as u32 * 0x1_0000
        + hash[at + 2] as u32 * 0x100 + hash[at + 3] as u32;
    let code: u32 = number % 1000000;
    let mut digits: Vec<char> = Vec::new();
    digits.push((0x30u8 + (code / 100000 % 10) as u8) as char);
    digits.push((0x30u8 + (code / 10000 % 10) as u8) as char);
    digits.push((0x30u8 + (code / 1000 % 10) as u8) as char);
    digits.push((0x30u8 + (code / 100 % 10) as u8) as char);
    digits.push((0x30u8 + (code / 10 % 10) as u8) as char);
    digits.push((0x30u8 + (code % 10) as u8) as char);
    assert(digits@ =~= otp_text(hash@));
    string_of(digits.as_slice())
}

/// The password for `counter` under the key `secret`.
pub fn generate_otp(secret: &[u8], counter: u64) -> (password: Result<String, &'static str>)
    ensures
        password matches Ok(text) && text@ == otp_text(
            hmac_sha1(secret@, counter_bytes(counter)),
        ),
{
    let message: Vec<u8> = counter_to_bytes(counter);
    let hash: Vec<u8> = hmac_sha1_of(secret, message.as_slice());
    Ok(truncate_otp(hash.as_slice()))
}

} // verus!
