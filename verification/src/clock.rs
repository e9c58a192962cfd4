//! Reading the system clock.

use vstd::prelude::*;

verus! {

#[verifier::external_type_specification]
#[verifier::external_body]
pub struct ExSystemTime(std::time::SystemTime);

/// `std::time::SystemTime::now`: the current time of the system clock;
/// nothing is promised of it.
#[verifier::external_body]
pub(crate) fn system_time_now() -> std::time::SystemTime {
    std::time::SystemTime::now()
}

/// `SystemTime::duration_since(UNIX_EPOCH)` as whole seconds and the
/// nanoseconds of the second begun (`Duration::as_secs`,
/// `Duration::subsec_nanos`, the latter below one billion): `Ok` with the
/// time since the epoch, or, for a time before it, `Err` with how far before
/// (`SystemTimeError::duration`). The time read from the clock is tied to
/// nothing here.
#[verifier::external_body]
pub(crate) fn since_epoch(t: std::time::SystemTime) -> (r: Result<(u64, u32), (u64, u32)>)
    ensures
        is_epoch_reading(r),
{
    match t.duration_since(std::time::UNIX_EPOCH) {
        Ok(d) => Ok((d.as_secs(), d.subsec_nanos())),
        Err(e) => Err((e.duration().as_secs(), e.duration().subsec_nanos())),
    }
}

/// A reading of `since_epoch`: whole seconds and the nanoseconds of the
/// second begun, below one billion, after (`Ok`) or before (`Err`) the epoch.
pub open spec fn is_epoch_reading(since: Result<(u64, u32), (u64, u32)>) -> bool {
    match since {
        Ok(d) => d.1 < 1_000_000_000,
        Err(d) => d.1 < 1_000_000_000,
    }
}

/// Whole seconds since the epoch of a reading, as workspace records store
/// them: the count as an `i64` (wrapping past `i64::MAX`, as `as` does), or
/// 0 for a time before the epoch.
pub open spec fn secs_of(since: Result<(u64, u32), (u64, u32)>) -> i64 {
    match since {
        Ok(d) => d.0 as i64,
        Err(_) => 0,
    }
}

/// `t` is what a reading of the clock gives as seconds (see `secs_of`).
pub open spec fn is_clock_secs(t: i64) -> bool {
    exists|since: Result<(u64, u32), (u64, u32)>| is_epoch_reading(since) && t == secs_of(since)
}

/// Whole seconds since the epoch, or 0 before it (see `secs_of`).
pub fn epoch_secs_or_zero(since: Result<(u64, u32), (u64, u32)>) -> (r: i64)
    ensures
        r == secs_of(since),
{
    match since {
        Ok(d) => d.0 as i64,
        Err(_) => 0,
    }
}

/// The Unix time stamp of a reading, as tool and skill records store it
/// (`DateTime::timestamp`): the whole seconds since the epoch, rounded
/// down, so negative before it (wrapping past the range of `i64`).
pub open spec fn timestamp_of(since: Result<(u64, u32), (u64, u32)>) -> i64 {
    match since {
        Ok(d) => d.0 as i64,
        Err(d) => (-(d.0 as int) - (if d.1 > 0 { 1int } else { 0int })) as i64,
    }
}

/// `t` is what a reading of the clock gives as a time stamp (see
/// `timestamp_of`).
pub open spec fn is_clock_timestamp(t: i64) -> bool {
    exists|since: Result<(u64, u32), (u64, u32)>| is_epoch_reading(since) && t == timestamp_of(since)
}

/// The Unix time stamp of a reading (see `timestamp_of`).
pub fn epoch_timestamp(since: Result<(u64, u32), (u64, u32)>) -> (r: i64)
    ensures
        r == timestamp_of(since),
{
    match since {
        Ok(d) => d.0 as i64,
        Err(d) => {
            let carry: i128 = if d.1 > 0 { 1 } else { 0 };
            let t: i128 = -(d.0 as i128) - carry;
            #[verifier::truncate] (t as i64)
        },
    }
}

/// The nanoseconds since the epoch of a reading, or 0 for a time before the
/// epoch.
pub open spec fn nanos_of(since: Result<(u64, u32), (u64, u32)>) -> int {
    match since {
        Ok(d) => d.0 as int * 1_000_000_000 + d.1 as int,
        Err(_) => 0,
    }
}

/// The nanoseconds since the epoch (`Duration::as_nanos`), or 0 for a time
/// before the epoch.
pub fn epoch_nanos_or_zero(since: Result<(u64, u32), (u64, u32)>) -> (r: u128)
    ensures
        r == nanos_of(since),
{
    match since {
        Ok(d) => {
            assert(d.0 as int * 1_000_000_000 + d.1 as int <= u128::MAX) by (nonlinear_arith)
                requires
                    d.0 <= u64::MAX,
                    d.1 <= u32::MAX;
            d.0 as u128 * 1_000_000_000 + d.1 as u128
        },
        Err(_) => 0,
    }
}

/// Seconds since the Unix epoch by the system clock, or 0 when the clock
/// stands before it.
pub fn now_epoch_secs() -> (r: i64)
    ensures
        is_clock_secs(r),
{
    let since = since_epoch(system_time_now());
    let r = epoch_secs_or_zero(since);
    assert(is_epoch_reading(since) && r == secs_of(since));
    r
}

/// The Unix time stamp of the system clock: whole seconds since the epoch,
/// rounded down, negative when the clock stands before it.
pub fn now_timestamp() -> (r: i64)
    ensures
        is_clock_timestamp(r),
{
    let since = since_epoch(system_time_now());
    let r = epoch_timestamp(since);
    assert(is_epoch_reading(since) && r == timestamp_of(since));
    r
}

/// Nanoseconds since the Unix epoch by the system clock, or 0 when the
/// clock stands before it.
pub fn now_epoch_nanos() -> (r: u128)
    ensures
        exists|since: Result<(u64, u32), (u64, u32)>| is_epoch_reading(since) && r == nanos_of(since),
{
    let since = since_epoch(system_time_now());
    let r = epoch_nanos_or_zero(since);
    assert(is_epoch_reading(since) && r == nanos_of(since));
    r
}

} // verus!
