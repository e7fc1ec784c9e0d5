//! Conversions between spans of time and counts of micro- and milliseconds.

use std::time::Duration;
use vstd::prelude::*;

verus! {

/// The whole seconds that a span of time holds: what `Duration::as_secs` reports.
pub uninterp spec fn whole_seconds(span: Duration) -> u64;

/// The part of a span of time below one second, in nanoseconds: what
/// `Duration::subsec_nanos` reports.
pub uninterp spec fn subsecond_nanos(span: Duration) -> u32;

/// `Duration::new` carries every full billion of `nanos` over into the seconds and
/// keeps the rest as the part below one second. It panics when the carry takes
/// the seconds past `u64::MAX`, so that input is left out.
pub assume_specification[ Duration::new ](secs: u64, nanos: u32) -> (span: Duration)
    requires
        secs + nanos / 1_000_000_000 <= u64::MAX,
    ensures
        whole_seconds(span) == secs + nanos / 1_000_000_000,
        subsecond_nanos(span) == nanos % 1_000_000_000,
;

/// `Duration::as_secs` reports the whole seconds of the span.
pub assume_specification[ Duration::as_secs ](span: &Duration) -> (secs: u64)
    ensures
        secs == whole_seconds(*span),
;

/// `Duration::subsec_nanos` reports the part below one second, which is always
/// less than a billion nanoseconds.
pub assume_specification[ Duration::subsec_nanos ](span: &Duration) -> (nanos: u32)
    ensures
        nanos == subsecond_nanos(*span),
        nanos < 1_000_000_000,
;

/// The length of a span of time in microseconds, as a number without bound.
pub open spec fn micros_of(span: Duration) -> int {
    whole_seconds(span) * 1_000_000 + subsecond_nanos(span) / 1000
}

/// The length of a span of time in whole milliseconds, as a number without bound.
pub open spec fn millis_of(span: Duration) -> int {
    whole_seconds(span) * 1000 + subsecond_nanos(span) / 1_000_000
}

/// Whether a span of time lasts `micros` microseconds and not a nanosecond
/// more.
pub open spec fn lasts_micros(span: Duration, micros: u64) -> bool {
    &&& whole_seconds(span) == micros / 1_000_000
    &&& subsecond_nanos(span) == (micros % 1_000_000) * 1000
}

/// The span of time that lasts `micros` microseconds.
pub fn from_micros_ext(micros: u64) -> (span: Duration)
    ensures
        lasts_micros(span, micros),
        micros_of(span) == micros,
        millis_of(span) == micros / 1000,
{
    let whole: u64 = micros / 1_000_000;
    let rest: u32 = (micros - whole * 1_000_000) as u32;
    Duration::new(whole, rest * 1000)
}

/// The whole milliseconds in a span of time. The count has to fit in a `u64`.
pub fn as_millis(span: &Duration) -> (millis: u64)
    requires
        millis_of(*span) <= u64::MAX,
    ensures
        millis == millis_of(*span),
{
    span.as_secs() * 1000 + (span.subsec_nanos() / 1000 / 1000) as u64
}

/// The whole microseconds in a span of time. The count has to fit in a `u64`.
pub fn as_micros(span: &Duration) -> (micros: u64)
    requires
        micros_of(*span) <= u64::MAX,
    ensures
        micros == micros_of(*span),
{
    span.as_secs() * 1000 * 1000 + (span.subsec_nanos() / 1000) as u64
}

} // verus!
