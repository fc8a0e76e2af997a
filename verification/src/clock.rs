//! The wall clock, read through `std::time::SystemTime`.
use vstd::prelude::*;

verus! {

/// The time since the Unix epoch by `SystemTime::now().duration_since(UNIX_EPOCH)`: whole
/// seconds and the milliseconds past them, or the error's text when the clock reads
/// earlier than the epoch. Of the value only the range of the milliseconds is stated: it
/// is the time.
#[verifier::external_body]
fn since_epoch() -> (r: Result<(u64, u32), String>)
    ensures
        r matches Ok((_, ms)) ==> ms < 1000,
{
    match std::time::SystemTime::now().duration_since(std::time::UNIX_EPOCH) {
        Ok(d) => Ok((d.as_secs(), d.subsec_millis())),
        Err(e) => Err(e.to_string()),
    }
}

/// Milliseconds since the Unix epoch, saturating at `u64::MAX`; zero if the clock reads
/// earlier than the epoch.
pub(crate) fn clock_millis() -> u64 {
    match since_epoch() {
        Ok((secs, ms)) => {
            if secs > u64::MAX / 1000 {
                u64::MAX
            } else {
                let base: u64 = secs * 1000;
                if base > u64::MAX - ms as u64 {
                    u64::MAX
                } else {
                    base + ms as u64
                }
            }
        },
        Err(_) => 0,
    }
}

/// Seconds since the Unix epoch, or the error's text when the clock reads earlier than
/// the epoch.
pub(crate) fn unix_time_secs() -> Result<u64, String> {
    match since_epoch() {
        Ok((secs, _)) => Ok(secs),
        Err(e) => Err(e),
    }
}

} // verus!
