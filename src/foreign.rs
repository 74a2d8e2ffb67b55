//! What this library takes on trust from std, `uuid` and `rand`.
use crate::text::{hyphenated, uuid_text_value};
use rand::RngCore;
use std::str::FromStr;
use std::time::{Duration, SystemTime};
use uuid::Uuid;
use vstd::prelude::*;

verus! {

/// The number of whole milliseconds in a duration.
pub uninterp spec fn millis_of(d: Duration) -> u128;

/// Relies on `Duration::from_millis`: the duration is exactly `millis` milliseconds.
pub assume_specification[ Duration::from_millis ](millis: u64) -> (r: Duration)
    ensures
        millis_of(r) == millis as u128,
;

/// Relies on `Duration::as_millis`: the total number of whole milliseconds.
pub assume_specification[ Duration::as_millis ](d: &Duration) -> (r: u128)
    ensures
        r == millis_of(*d),
;

#[verifier::external_type_specification]
#[verifier::external_body]
pub struct ExUuid(Uuid);

/// The 128 bits that a UUID holds, read big-endian.
pub uninterp spec fn uuid_bits(u: Uuid) -> u128;

/// Relies on `Uuid::from_u128`: the UUID holds the bytes of `v`, big-endian.
pub assume_specification[ Uuid::from_u128 ](v: u128) -> (r: Uuid)
    ensures
        uuid_bits(r) == v,
;

/// Relies on `Uuid::as_u128`: the bytes of the UUID read back big-endian.
pub assume_specification[ Uuid::as_u128 ](u: &Uuid) -> (r: u128)
    ensures
        r == uuid_bits(*u),
;

/// Relies on `Uuid`'s `FromStr`: it accepts 32 hexadecimal digits, the
/// hyphenated form, that form in braces or after a `urn:uuid:` prefix, and
/// nothing else. A refusal is returned as the parser's message, which is
/// never empty.
#[verifier::external_body]
pub(crate) fn parse_uuid(data: &str) -> (r: Result<Uuid, String>)
    ensures
        match uuid_text_value(data@) {
            Some(v) => r is Ok && uuid_bits(r->Ok_0) == v,
            None => r is Err,
        },
        r is Err ==> r->Err_0@.len() > 0,
{
    match Uuid::from_str(data) {
        Ok(u) => Ok(u),
        Err(e) => Err(e.to_string()),
    }
}

/// Relies on `Uuid`'s `Display`: lowercase digits, grouped 8-4-4-4-12.
#[verifier::external_body]
pub(crate) fn format_uuid(u: &Uuid) -> (r: String)
    ensures
        r@ == hyphenated(uuid_bits(*u) as nat),
{
    u.to_string()
}

/// Relies on `RngCore::try_fill_bytes` of `rand::rngs::OsRng`: ten bytes from
/// the operating system's random source, or the message of the error that the
/// source reported.
#[verifier::external_body]
pub(crate) fn random_bytes() -> (r: Result<[u8; 10], String>) {
    let mut bytes = [0u8; 10];
    match rand::rngs::OsRng.try_fill_bytes(&mut bytes) {
        Ok(()) => Ok(bytes),
        Err(e) => Err(e.to_string()),
    }
}

#[verifier::external_type_specification]
#[verifier::external_body]
pub struct ExSystemTime(SystemTime);

/// Relies on `SystemTime::now`: the current wall-clock time.
pub assume_specification[ SystemTime::now ]() -> SystemTime;

/// Relies on `SystemTime::duration_since`, measured from `UNIX_EPOCH`: the
/// time elapsed since the epoch, or the message of the error that a time
/// before the epoch gives.
#[verifier::external_body]
pub(crate) fn since_unix_epoch(t: SystemTime) -> (r: Result<Duration, String>) {
    match t.duration_since(std::time::UNIX_EPOCH) {
        Ok(d) => Ok(d),
        Err(e) => Err(e.to_string()),
    }
}

} // verus!
