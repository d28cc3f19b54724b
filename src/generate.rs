//! Fresh identifiers and timestamps for new records.
use vstd::prelude::*;

verus! {

/// Relies on `SystemTime::elapsed`, called on `UNIX_EPOCH`: the time from the
/// epoch to the system clock, or `None` when the clock reads before the epoch.
/// Nothing is known of the value.
#[verifier::external_body]
fn time_since_epoch() -> (r: Option<core::time::Duration>) {
    match std::time::UNIX_EPOCH.elapsed() {
        Ok(d) => Some(d),
        Err(_) => None,
    }
}

/// Relies on `Duration::as_secs`: the whole seconds of a duration; it never panics.
pub assume_specification[ core::time::Duration::as_secs ](d: &core::time::Duration) -> u64;

/// Relies on `uuid::Uuid::new_v4` and on `Uuid`'s `Display`, which writes the
/// lower-case hyphenated form: 36 characters.
#[verifier::external_body]
pub(crate) fn fresh_id() -> (r: String)
    ensures
        r@.len() == 36,
{
    uuid::Uuid::new_v4().to_string()
}

/// The Unix timestamp for a clock reading of `secs` whole seconds since the
/// epoch: the reading itself, `i64::MAX` for one beyond the range of `i64`,
/// and 0 for a clock that reads before the epoch (`None`).
pub fn timestamp_from_secs(secs: Option<u64>) -> (r: i64)
    ensures
        r == match secs {
            Some(s) => if s <= i64::MAX as u64 {
                s as i64
            } else {
                i64::MAX
            },
            None => 0,
        },
{
    match secs {
        Some(s) => {
            if s <= i64::MAX as u64 {
                s as i64
            } else {
                i64::MAX
            }
        },
        None => 0,
    }
}

/// The current Unix time in whole seconds: `timestamp_from_secs` of the
/// system clock's reading, which is never negative.
pub fn now_timestamp() -> (r: i64)
    ensures
        r >= 0,
{
    let secs = match time_since_epoch() {
        Some(d) => Some(d.as_secs()),
        None => None,
    };
    timestamp_from_secs(secs)
}

} // verus!
