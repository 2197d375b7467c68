//! Reading the wall clock, the one source of chance in plan computation.

use vstd::prelude::*;

verus! {

#[verifier::external_type_specification]
#[verifier::external_body]
pub struct ExSystemTime(std::time::SystemTime);

/// `SystemTime::now`: the current wall-clock time. Nothing is promised of it.
#[verifier::external_body]
fn system_time_now() -> std::time::SystemTime {
    std::time::SystemTime::now()
}

/// `SystemTime::duration_since(UNIX_EPOCH)`: the time since the epoch, `None` when
/// the clock reads earlier than the epoch. Nothing is promised of the value.
#[verifier::external_body]
fn duration_since_unix_epoch(t: &std::time::SystemTime) -> Option<std::time::Duration> {
    match t.duration_since(std::time::UNIX_EPOCH) {
        Ok(d) => Some(d),
        Err(_) => None,
    }
}

/// `Duration::as_nanos`: a duration in whole nanoseconds. Nothing is promised of the
/// value, which is a function of the opaque duration.
#[verifier::external_body]
fn duration_as_nanos(d: &std::time::Duration) -> u128 {
    d.as_nanos()
}

/// The index that a clock reading selects among `len` choices: the reading, truncated
/// to `usize`, modulo `len`; `0` when there is no choice or no reading.
pub open spec fn spec_pick_index_from_nanos(nanos: Option<u128>, len: usize) -> usize {
    if len == 0 {
        0
    } else {
        match nanos {
            Some(n) => ((n as usize) % len) as usize,
            None => 0,
        }
    }
}

/// The index that the clock reading `nanos` selects among `len` choices.
pub fn pick_index_from_nanos(nanos: Option<u128>, len: usize) -> (r: usize)
    ensures
        r == spec_pick_index_from_nanos(nanos, len),
        len > 0 ==> r < len,
        len == 0 ==> r == 0,
{
    if len == 0 {
        return 0;
    }
    match nanos {
        Some(n) => (n as usize) % len,
        None => 0,
    }
}

/// A reading of the wall clock: whole nanoseconds since the Unix epoch, `None` when
/// the clock reads earlier than the epoch. Any value may come back.
pub fn clock_reading_nanos() -> Option<u128> {
    let now = system_time_now();
    match duration_since_unix_epoch(&now) {
        Some(d) => Some(duration_as_nanos(&d)),
        None => None,
    }
}

/// An index below `len` chosen by the current time (`0` when `len` is `0`): the
/// index that some clock reading selects.
pub fn pick_index(len: usize) -> (r: usize)
    ensures
        exists|nanos: Option<u128>| r == spec_pick_index_from_nanos(nanos, len),
        len > 0 ==> r < len,
        len == 0 ==> r == 0,
{
    if len == 0 {
        assert(0 == spec_pick_index_from_nanos(None, len));
        return 0;
    }
    let nanos = clock_reading_nanos();
    let r = pick_index_from_nanos(nanos, len);
    assert(r == spec_pick_index_from_nanos(nanos, len));
    r
}

} // verus!
