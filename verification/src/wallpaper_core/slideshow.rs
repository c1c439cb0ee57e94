//! Interval parsing with the error reported as text.

use vstd::prelude::*;
use crate::wallpaper_core::lists_play::{
    duration_from_secs, duration_of, has_interval_unit, interval_seconds, interval_count, interval_fits, interval_ok,
};

verus! {

/// The text of the error that reading the malformed interval `s` reports.
pub open spec fn interval_message(s: Seq<char>) -> Seq<char> {
    if !has_interval_unit(s) {
        "Invalid interval format: '"@ + s + "'. Use a number followed by s, m, or h (e.g., 30s, 10m, 2h)."@
    } else if interval_count(s) is None {
        "Invalid number in '"@ + s + "'. Use a positive integer (e.g., 30s, 10m, 2h)."@
    } else {
        "The interval must be greater than zero."@
    }
}

/// Reads an interval such as `30s`, `10m` or `2h`; a malformed or zero
/// interval gives the text of the error.
pub fn parse_interval(interval: &str) -> (r: Result<std::time::Duration, String>)
    requires
        interval_fits(interval@),
    ensures
        r is Ok <==> interval_ok(interval@),
        r matches Ok(d) ==> d == duration_of(interval_seconds(interval@) as u64),
        r matches Err(m) ==> m@ == interval_message(interval@),
{
    match crate::wallpaper_core::lists_play::parse_interval(interval) {
        Ok(secs) => Ok(duration_from_secs(secs)),
        Err(e) => Err(e.message()),
    }
}

} // verus!
