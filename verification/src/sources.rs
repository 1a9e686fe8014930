//! What the machine supplies: the clock, and random identifiers.
use vstd::prelude::*;

verus! {

/// Calls `std::time::SystemTime::now` and `duration_since(UNIX_EPOCH)`: the
/// whole seconds since the Unix epoch, or nothing when the system clock reads
/// a time before 1970 (or one too far ahead for an `i64`). Which time is not
/// stated; only that a reading is not negative.
#[verifier::external_body]
pub(crate) fn now_secs() -> (r: Option<i64>)
    ensures
        r matches Some(t) ==> t >= 0,
{
    match std::time::SystemTime::now().duration_since(std::time::UNIX_EPOCH) {
        Ok(d) => i64::try_from(d.as_secs()).ok(),
        Err(_) => None,
    }
}

/// Calls `uuid::Uuid::new_v4` and renders the result with `Display`: a random
/// UUID in its hyphenated form, which is 36 characters long. Which
/// characters is random and is not stated.
#[verifier::external_body]
pub(crate) fn random_uuid() -> (r: String)
    ensures
        r@.len() == 36,
{
    uuid::Uuid::new_v4().to_string()
}

/// Calls `ulid::Ulid::new` and renders the result with `Display`: a ULID
/// built from the current time and random bits, written as 26 characters
/// of Crockford's base 32. Which characters is not stated.
#[verifier::external_body]
pub(crate) fn new_ulid() -> (r: String)
    ensures
        r@.len() == 26,
{
    ulid::Ulid::new().to_string()
}

/// Reads the clock as `now_secs` does, makes the date and time with
/// `chrono::DateTime::from_timestamp` and formats it with `%Y%m%d_%H%M%S`: the
/// current time in UTC as a compact stamp, or nothing when the clock reads a
/// time before 1970 or beyond the dates `chrono` holds. Which time, and so
/// which text, is not stated.
#[verifier::external_body]
pub(crate) fn utc_stamp() -> (r: Option<String>) {
    let d = std::time::SystemTime::now().duration_since(std::time::UNIX_EPOCH).ok()?;
    let t = chrono::DateTime::from_timestamp(i64::try_from(d.as_secs()).ok()?, d.subsec_nanos())?;
    Some(t.format("%Y%m%d_%H%M%S").to_string())
}

} // verus!
