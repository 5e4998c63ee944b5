//! Contracts over outside code: the hash, encoding and calendar primitives the
//! library leans on, each behind one small trusted declaration.
use vstd::prelude::*;

use base64::Engine;
use sha2::Digest;

verus! {

/// Appending one character appends exactly that character.
pub assume_specification[ String::push ](s: &mut String, c: char)
    ensures
        final(s)@ == old(s)@.push(c),
;

/// The SHA-256 digest of a byte sequence; a function of the bytes alone.
pub uninterp spec fn sha256_of(bytes: Seq<u8>) -> Seq<u8>;

/// Relies on sha2::Sha256::digest: the digest is 32 bytes and depends on the
/// input bytes alone.
#[verifier::external_body]
pub fn sha256(bytes: &[u8]) -> (r: Vec<u8>)
    ensures
        r@ == sha256_of(bytes@),
        r@.len() == 32,
{
    sha2::Sha256::digest(bytes).to_vec()
}

/// The standard-alphabet, padded base64 rendering of a byte sequence; a
/// function of the bytes alone.
pub uninterp spec fn base64_of(bytes: Seq<u8>) -> Seq<char>;

/// Relies on base64's STANDARD engine: the encoding depends on the input
/// bytes alone.
#[verifier::external_body]
pub fn base64_encode(bytes: &[u8]) -> (r: String)
    ensures
        r@ == base64_of(bytes@),
{
    base64::engine::general_purpose::STANDARD.encode(bytes)
}

/// The RFC 3339 rendering of the UTC instant `secs` seconds and `nanos`
/// nanoseconds after the epoch; a function of the two values alone.
pub uninterp spec fn rfc3339_of(secs: i64, nanos: u32) -> Seq<char>;

/// Relies on time's OffsetDateTime::from_unix_timestamp, replace_nanosecond
/// and RFC 3339 formatting: all pure in their arguments; each rejects an
/// out-of-range argument with an error, returned here as None. For seconds
/// within the calendar years 1 through 9999 and nanoseconds below one
/// billion every step accepts — from_unix_timestamp covers the years -9999
/// through 9999, replace_nanosecond any value below one billion, and the
/// RFC 3339 formatter any UTC instant of the years 0 through 9999 — so the
/// rendering is owed there.
#[verifier::external_body]
pub fn format_rfc3339(secs: i64, nanos: u32) -> (r: Option<String>)
    ensures
        r matches Some(s) ==> s@ == rfc3339_of(secs, nanos),
        -62135596800 <= secs <= 253402300799 && nanos < 1_000_000_000 ==> r is Some,
{
    let t = match time::OffsetDateTime::from_unix_timestamp(secs) {
        Ok(t) => t,
        Err(_) => return None,
    };
    let t = match t.replace_nanosecond(nanos) {
        Ok(t) => t,
        Err(_) => return None,
    };
    match t.format(&time::format_description::well_known::Rfc3339) {
        Ok(s) => Some(s),
        Err(_) => None,
    }
}

/// The ISO calendar-day label ("2024-03-01") of the UTC instant `secs`
/// seconds after the epoch; a function of the value alone.
pub uninterp spec fn day_label_of(secs: i64) -> Seq<char>;

/// Relies on time's OffsetDateTime::from_unix_timestamp and Date's ISO
/// display: both pure in their arguments. from_unix_timestamp accepts every
/// second value of the calendar years -9999 through 9999 and the display
/// never fails, so the label is owed for the years 1 through 9999.
#[verifier::external_body]
pub fn format_day_label(secs: i64) -> (r: Option<String>)
    ensures
        r matches Some(s) ==> s@ == day_label_of(secs),
        -62135596800 <= secs <= 253402300799 ==> r is Some,
{
    match time::OffsetDateTime::from_unix_timestamp(secs) {
        Ok(t) => Some(t.date().to_string()),
        Err(_) => None,
    }
}

} // verus!
