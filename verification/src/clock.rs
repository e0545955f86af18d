use vstd::prelude::*;

verus! {

#[verifier::external_type_specification]
#[verifier::external_body]
pub struct ExSystemTime(std::time::SystemTime);

#[verifier::external_type_specification]
#[verifier::external_body]
pub struct ExSystemTimeError(std::time::SystemTimeError);

/// Calls `std::time::SystemTime::now`. The reading depends on the machine's
/// clock, so nothing is claimed of it.
#[verifier::external_body]
fn system_time_now() -> std::time::SystemTime {
    std::time::SystemTime::now()
}

/// Calls `SystemTime::duration_since(UNIX_EPOCH)` on `t`; std documents an
/// `Err` when `t` lies before the epoch. Nothing more is claimed.
#[verifier::external_body]
fn since_unix_epoch(t: &std::time::SystemTime) -> std::result::Result<
    core::time::Duration,
    std::time::SystemTimeError,
> {
    t.duration_since(std::time::UNIX_EPOCH)
}

/// Calls `Duration::as_secs`. A `Duration` is opaque here, so nothing is
/// claimed of the number of whole seconds returned.
#[verifier::external_body]
fn whole_seconds(d: &core::time::Duration) -> u64 {
    d.as_secs()
}

/// `t` is a reading `now_unix` gave: the wall clock's whole seconds since
/// the Unix epoch at some call. (The clock is the machine's, so nothing
/// more can be said of which second it is.)
pub open spec fn clock_reading(t: u64) -> bool {
    call_ensures(now_unix, (), Some(t))
}

/// The wall-clock time in whole seconds since the Unix epoch, or `None`
/// when the system clock reads earlier than the epoch.
pub fn now_unix() -> Option<u64> {
    let now = system_time_now();
    match since_unix_epoch(&now) {
        Ok(d) => Some(whole_seconds(&d)),
        Err(_) => None,
    }
}

} // verus!
