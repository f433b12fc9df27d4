//! The monotonic nanosecond clock that the packet classifier stamps entries with.
use vstd::prelude::*;

verus! {

/// The error type of `nix::time::clock_gettime`, carried through unread.
#[verifier::external_type_specification]
#[verifier::external_body]
pub struct ExErrno(nix::errno::Errno);

/// `x` held within the range of `i64`.
pub open spec fn clamp_i64(x: int) -> int {
    if x > i64::MAX {
        i64::MAX as int
    } else if x < i64::MIN {
        i64::MIN as int
    } else {
        x
    }
}

/// Nanoseconds of a `(seconds, nanoseconds)` reading: the two are combined with
/// saturating `i64` arithmetic, and a negative total reads as zero.
pub open spec fn timespec_ns(sec: i64, nsec: i64) -> u64 {
    let t = clamp_i64(clamp_i64(sec * 1_000_000_000) + nsec);
    if t < 0 {
        0
    } else {
        t as u64
    }
}

/// Relies on `nix::time::clock_gettime` with `CLOCK_MONOTONIC`, the clock the
/// kernel stamps packets with: on success, its seconds and nanoseconds.
#[verifier::external_body]
fn monotonic_timespec() -> (r: Result<(i64, i64), nix::errno::Errno>) {
    nix::time::clock_gettime(nix::time::ClockId::CLOCK_MONOTONIC).map(
        |t| (t.tv_sec() as i64, t.tv_nsec() as i64),
    )
}

/// Nanoseconds of a clock reading of `sec` seconds and `nsec` nanoseconds.
pub fn timespec_to_ns(sec: i64, nsec: i64) -> (r: u64)
    ensures
        r == timespec_ns(sec, nsec),
{
    let scaled: i64 = if sec > i64::MAX / 1_000_000_000 {
        i64::MAX
    } else if sec < i64::MIN / 1_000_000_000 {
        i64::MIN
    } else {
        sec * 1_000_000_000
    };
    let total: i64 = match scaled.checked_add(nsec) {
        Some(t) => t,
        None => if nsec > 0 {
            i64::MAX
        } else {
            i64::MIN
        },
    };
    if total < 0 {
        0
    } else {
        total as u64
    }
}

/// The current time of the monotonic clock in nanoseconds, or zero when the
/// clock cannot be read (a zero time makes no entry look stale).
pub fn get_ktime_ns() -> u64 {
    match monotonic_timespec() {
        Ok((sec, nsec)) => timespec_to_ns(sec, nsec),
        Err(_) => 0,
    }
}

} // verus!
