//! The wall clock: the time since the Unix epoch, checked the way
//! `chrono::Utc::now` checks it, but without panicking.

use vstd::prelude::*;

verus! {

/// A reading of the clock that `chrono::Utc::now` could have given: whole
/// seconds since the Unix epoch, not negative, and nanoseconds below one second.
pub open spec fn clock_reading(t: (i64, u32)) -> bool {
    t.0 >= 0 && t.1 < 1_000_000_000
}

/// `SystemTime::elapsed` of std, on the Unix epoch: the time since 1970 by the
/// system clock, as the whole seconds and the nanoseconds of the `Duration`
/// (which std documents to be below one second); `None` when the clock stands
/// before 1970. Which time comes back is the machine's business and is not
/// stated.
#[verifier::external_body]
fn since_epoch() -> (r: Option<(u64, u32)>)
    ensures
        r matches Some(t) ==> t.1 < 1_000_000_000,
{
    match std::time::UNIX_EPOCH.elapsed() {
        Ok(d) => Some((d.as_secs(), d.subsec_nanos())),
        Err(_) => None,
    }
}

/// `chrono::DateTime::from_timestamp`, read back through `timestamp()` and
/// `timestamp_subsec_nanos()`. chrono documents that these round-trip, so a
/// result is the arguments themselves; `None` comes for seconds outside
/// chrono's range of dates or for invalid nanoseconds. That range is not
/// stated here.
#[verifier::external_body]
fn utc_timestamp(secs: i64, nanos: u32) -> (r: Option<(i64, u32)>)
    ensures
        r matches Some(t) ==> t == (secs, nanos),
{
    match chrono::DateTime::from_timestamp(secs, nanos) {
        Some(d) => Some((d.timestamp(), d.timestamp_subsec_nanos())),
        None => None,
    }
}

/// The time now, as `chrono::Utc::now` takes it (the system clock since the
/// epoch, made a UTC date and time), or `None` where `Utc::now` would panic:
/// the clock stands before 1970, or past the dates that chrono represents.
pub(crate) fn now() -> (r: Option<(i64, u32)>)
    ensures
        r matches Some(t) ==> clock_reading(t),
{
    match since_epoch() {
        Some((secs, nanos)) => {
            if secs <= 9223372036854775807u64 {
                utc_timestamp(secs as i64, nanos)
            } else {
                None
            }
        },
        None => None,
    }
}

} // verus!
