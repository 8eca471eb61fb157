use vstd::prelude::*;
use std::time::{Duration, SystemTime, UNIX_EPOCH};

verus! {

/// `std::time::SystemTime`, a reading of the clock of the system. It is
/// carried as it is.
#[verifier::external_type_specification]
#[verifier::external_body]
pub struct ExSystemTime(SystemTime);

/// `SystemTime::now`: the time on the clock of the system. Nothing is
/// claimed of the reading.
#[verifier::external_body]
fn system_now() -> (now: SystemTime) {
    SystemTime::now()
}

/// `SystemTime::duration_since` the UNIX epoch: how long after the epoch
/// the time lies, or nothing where it lies before.
#[verifier::external_body]
fn since_epoch(time: &SystemTime) -> (r: Option<Duration>) {
    time.duration_since(UNIX_EPOCH).ok()
}

/// `Duration::as_nanos`: the whole duration in nanoseconds.
#[verifier::external_body]
fn nanos_of(duration: &Duration) -> (nanos: u128) {
    duration.as_nanos()
}

/// A count of nanoseconds as a time of receipt: its low 64 bits.
pub fn receipt_time(nanos: u128) -> (ns: u64)
    ensures
        ns == nanos % 0x1_0000_0000_0000_0000,
{
    let ns: u64 = #[verifier::truncate] (nanos as u64);
    assert(nanos as u64 == nanos % 0x1_0000_0000_0000_0000) by (bit_vector);
    ns
}

/// The time of receipt that a reading of the clock stands for: the low 64
/// bits of the nanoseconds since the UNIX epoch, and zero for a clock that
/// stands before the epoch.
pub fn receipt_time_since(elapsed_nanos: Option<u128>) -> (ns: u64)
    ensures
        ns == match elapsed_nanos {
            Some(nanos) => nanos % 0x1_0000_0000_0000_0000,
            None => 0,
        },
{
    match elapsed_nanos {
        Some(nanos) => receipt_time(nanos),
        None => 0,
    }
}

/// The time now, in nanoseconds since the UNIX epoch; zero where the clock
/// stands before the epoch. The clock decides the reading; what is made of a
/// reading is what `receipt_time_since` says.
pub fn now_unix_ns() -> (ns: u64) {
    let elapsed_nanos = match since_epoch(&system_now()) {
        Some(elapsed) => Some(nanos_of(&elapsed)),
        None => None,
    };
    receipt_time_since(elapsed_nanos)
}

} // verus!
