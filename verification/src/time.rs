//! The wall clock, read as whole seconds since the Unix epoch.
use vstd::prelude::*;

verus! {

#[verifier::external_type_specification]
#[verifier::external_body]
pub struct ExSystemTime(std::time::SystemTime);

/// `SystemTime::now`: the current wall-clock time. Nothing is promised of it.
#[verifier::external_body]
fn system_now() -> std::time::SystemTime {
    std::time::SystemTime::now()
}

/// `SystemTime::duration_since(UNIX_EPOCH)`; `None` when `t` lies before
/// the epoch. Nothing is promised of the value: it depends on the clock.
#[verifier::external_body]
fn duration_since_epoch(t: &std::time::SystemTime) -> Option<core::time::Duration> {
    match t.duration_since(std::time::UNIX_EPOCH) {
        Ok(d) => Some(d),
        Err(_) => None,
    }
}

/// `Duration::as_secs`: the whole seconds of `d`. The duration is opaque
/// here, so nothing is stated of the count.
#[verifier::external_body]
fn whole_secs(d: &core::time::Duration) -> u64 {
    d.as_secs()
}

/// A count of seconds since the epoch as an `i64`: 0 when the clock lies
/// before the epoch, `i64::MAX` when the count does not fit.
pub open spec fn unix_seconds_spec(since_epoch: Option<u64>) -> int {
    match since_epoch {
        None => 0,
        Some(s) => if s > i64::MAX {
            i64::MAX as int
        } else {
            s as int
        },
    }
}

/// Turns the whole seconds since the epoch (`None` before it) into the
/// timestamp the daemon stores.
pub fn unix_seconds(since_epoch: Option<u64>) -> (r: i64)
    ensures
        r == unix_seconds_spec(since_epoch),
{
    match since_epoch {
        Some(secs) => {
            if secs > 0x7fff_ffff_ffff_ffffu64 {
                0x7fff_ffff_ffff_ffffi64
            } else {
                secs as i64
            }
        },
        None => 0,
    }
}

/// Seconds since the Unix epoch, as the clock reads now; 0 for a clock set
/// before the epoch, `i64::MAX` when the count does not fit. The reading
/// itself is the clock's: whatever it is, the result is
/// `unix_seconds_spec` of some reading.
pub fn now_unix() -> (r: i64)
    ensures
        r >= 0,
        exists|since_epoch: Option<u64>| r == unix_seconds_spec(since_epoch),
{
    let t = system_now();
    let since_epoch = match duration_since_epoch(&t) {
        Some(d) => Some(whole_secs(&d)),
        None => None,
    };
    unix_seconds(since_epoch)
}

} // verus!
