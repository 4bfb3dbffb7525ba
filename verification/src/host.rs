//! The two questions the library asks of the machine it runs on: what time
//! it is, and whether a path exists.

use std::path::Path;
use std::time::Duration;
use std::time::SystemTime;
use std::time::UNIX_EPOCH;
use vstd::prelude::*;

verus! {

/// `std::time::SystemTime`, a reading of the system clock; opaque.
#[verifier::external_type_specification]
#[verifier::external_body]
pub struct ExSystemTime(SystemTime);

/// `std::time::SystemTime::now`: the reading of the system clock. Nothing is
/// claimed of the result.
#[verifier::external_body]
fn current_time() -> (now: SystemTime) {
    SystemTime::now()
}

/// `std::time::SystemTime::duration_since` with the Unix epoch as the earlier
/// time: the time elapsed since the epoch, or nothing if the clock reads a
/// time before it. Nothing is claimed of the result.
#[verifier::external_body]
fn since_epoch(time: &SystemTime) -> (elapsed: Option<Duration>) {
    match time.duration_since(UNIX_EPOCH) {
        Ok(elapsed) => Some(elapsed),
        Err(_) => None,
    }
}

/// `std::time::Duration::as_secs`: the whole seconds of a duration. Nothing is
/// claimed of the result.
#[verifier::external_body]
fn whole_seconds(elapsed: &Duration) -> (seconds: u64) {
    elapsed.as_secs()
}

/// `std::time::Duration::subsec_millis`: the fractional part of a duration in
/// whole milliseconds, which is below one thousand.
#[verifier::external_body]
fn fraction_millis(elapsed: &Duration) -> (millis: u32)
    ensures
        millis < 1000,
{
    elapsed.subsec_millis()
}

/// `std::path::Path::exists`: whether the path points at something on disk.
/// Nothing is claimed of the result.
#[verifier::external_body]
fn path_exists(path: &str) -> (present: bool) {
    Path::new(path).exists()
}

/// The milliseconds in `seconds` whole seconds and `millis` further
/// milliseconds.
pub open spec fn millis_in(seconds: u64, millis: u32) -> int {
    seconds * 1000 + millis
}

/// Computes [`millis_in`].
pub fn whole_millis(seconds: u64, millis: u32) -> (total: u128)
    ensures
        total == millis_in(seconds, millis),
{
    let scaled: u128 = seconds as u128 * 1000;
    scaled + millis as u128
}

/// The current wall-clock time in whole milliseconds since the Unix epoch,
/// or `None` if the clock reads a time before the epoch.
///
/// The value depends on the clock alone. Whatever the clock reads, the result
/// is what [`whole_millis`] makes of its seconds and milliseconds, so it never
/// exceeds the largest such value.
pub fn timestamp() -> (millis: Option<u128>)
    ensures
        millis matches Some(m) ==> m <= millis_in(u64::MAX, 999),
{
    let now = current_time();
    match since_epoch(&now) {
        Some(elapsed) => Some(whole_millis(whole_seconds(&elapsed), fraction_millis(&elapsed))),
        None => None,
    }
}

/// Whether `path` exists on disk. A path that cannot be examined counts as
/// missing; the call never fails.
pub fn file_exists(path: String) -> (present: bool) {
    path_exists(path.as_str())
}

} // verus!
