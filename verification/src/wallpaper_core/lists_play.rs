//! Rotation intervals: a positive count followed by `s`, `m` or `h`.

use vstd::prelude::*;
use crate::error::IntervalError;
use crate::text::{chars_of, parse_u64, parse_u64_spec};

verus! {

/// Seconds in one unit of an interval suffix; 0 for any other character.
pub open spec fn unit_seconds(c: char) -> nat {
    if c == 's' {
        1
    } else if c == 'm' {
        60
    } else if c == 'h' {
        3600
    } else {
        0
    }
}

/// Whether `s` ends in one of the suffixes `s`, `m`, `h`.
pub open spec fn has_interval_unit(s: Seq<char>) -> bool {
    s.len() > 0 && unit_seconds(s.last()) > 0
}

/// The count in front of the suffix, where it reads as a `u64`.
pub open spec fn interval_count(s: Seq<char>) -> Option<u64> {
    parse_u64_spec(s.drop_last())
}

/// Whether `s` is a well-formed, positive interval.
pub open spec fn interval_ok(s: Seq<char>) -> bool {
    &&& has_interval_unit(s)
    &&& interval_count(s) matches Some(n) && n > 0
}

/// The length in seconds of a well-formed interval.
pub open spec fn interval_seconds(s: Seq<char>) -> nat {
    (interval_count(s).unwrap() as nat) * unit_seconds(s.last())
}

/// Whether the length in seconds of `s`, where it is well-formed, fits in a `u64`.
pub open spec fn interval_fits(s: Seq<char>) -> bool {
    interval_ok(s) ==> interval_seconds(s) <= u64::MAX
}

/// Whether the length of `interval` in seconds fits in a `u64`; a
/// malformed interval counts as fitting, since reading it fails first.
pub fn interval_in_range(interval: &str) -> (r: bool)
    ensures
        r == interval_fits(interval@),
{
    let mut v = chars_of(interval);
    if v.len() == 0 {
        return true;
    }
    let last = v[v.len() - 1];
    let unit: u64 = if last == 's' { 1 } else if last == 'm' { 60 } else if last == 'h' { 3600 } else { 0 };
    if unit == 0 {
        return true;
    }
    v.pop();
    assert(v@ == interval@.drop_last());
    assert(unit == unit_seconds(interval@.last()));
    match parse_u64(&v) {
        Some(n) => {
            if unit == 1 {
                true
            } else if unit == 60 {
                n <= u64::MAX / 60
            } else {
                n <= u64::MAX / 3600
            }
        },
        None => true,
    }
}

/// Reads an interval such as `30s`, `10m` or `2h` and gives its length in
/// seconds.
pub fn parse_interval(interval: &str) -> (r: Result<u64, IntervalError>)
    requires
        interval_fits(interval@),
    ensures
        r is Ok <==> interval_ok(interval@),
        r matches Ok(secs) ==> secs == interval_seconds(interval@),
        !has_interval_unit(interval@) ==> (r matches Err(IntervalError::InvalidFormat { input })
            && input@ == interval@),
        has_interval_unit(interval@) && interval_count(interval@) is None ==> (r matches Err(
            IntervalError::InvalidNumber { input },
        ) && input@ == interval@),
        has_interval_unit(interval@) && interval_count(interval@) == Some(0u64) ==> (r matches Err(
            IntervalError::ZeroInterval,
        )),
{
    let mut v = chars_of(interval);
    if v.len() == 0 {
        return Err(IntervalError::InvalidFormat { input: String::from_str(interval) });
    }
    let last = v[v.len() - 1];
    let unit: u64 = if last == 's' { 1 } else if last == 'm' { 60 } else if last == 'h' { 3600 } else { 0 };
    if unit == 0 {
        return Err(IntervalError::InvalidFormat { input: String::from_str(interval) });
    }
    v.pop();
    assert(v@ == interval@.drop_last());
    match parse_u64(&v) {
        None => Err(IntervalError::InvalidNumber { input: String::from_str(interval) }),
        Some(n) => {
            if n == 0 {
                Err(IntervalError::ZeroInterval)
            } else {
                assert(interval_seconds(interval@) == n * unit);
                Ok(n * unit)
            }
        },
    }
}

} // verus!

verus! {

/// The `Duration` that `std::time::Duration::from_secs` makes of `secs`:
/// `secs` whole seconds.
pub uninterp spec fn duration_of(secs: u64) -> std::time::Duration;

/// `std::time::Duration::from_secs`. `Duration` is opaque to the verifier;
/// the value is named `duration_of(secs)`, the duration of `secs` seconds.
#[verifier::external_body]
pub(crate) fn duration_from_secs(secs: u64) -> (r: std::time::Duration)
    ensures
        r == duration_of(secs),
{
    std::time::Duration::from_secs(secs)
}
} // verus!
