//! System clock and time spans.
use std::time::{Duration, SystemTime};
use vstd::prelude::*;

verus! {

#[verifier::external_type_specification]
#[verifier::external_body]
pub struct ExSystemTime(SystemTime);

/// `SystemTime` is `Copy`; its `clone` returns the same instant.
pub assume_specification[ <SystemTime as Clone>::clone ](t: &SystemTime) -> (r: SystemTime)
    ensures
        r == *t,
;

/// `Duration` is `Copy`; its `clone` returns the same span.
pub assume_specification[ <Duration as Clone>::clone ](d: &Duration) -> (r: Duration)
    ensures
        r == *d,
;

/// Length of a time span in nanoseconds, as `Duration::as_nanos` reports it.
pub uninterp spec fn duration_nanos(d: Duration) -> nat;

/// `SystemTime::now()`: reads the wall clock. The value depends on the moment of
/// the call, so nothing is stated of it.
#[verifier::external_body]
pub(crate) fn clock_now() -> SystemTime {
    SystemTime::now()
}

/// `Duration::as_nanos`: the whole length of the span in nanoseconds.
#[verifier::external_body]
pub(crate) fn span_nanos(d: Duration) -> (n: u128)
    ensures
        n as nat == duration_nanos(d),
{
    d.as_nanos()
}

/// `Duration::from_secs`: a span of `secs` whole seconds, that is
/// `secs * 10^9` nanoseconds.
#[verifier::external_body]
pub(crate) fn span_from_secs(secs: u64) -> (d: Duration)
    ensures
        duration_nanos(d) == secs * 1_000_000_000,
{
    Duration::from_secs(secs)
}

/// The text `Duration`'s `Debug` rendering gives for a span (such as `2s` or
/// `1.5s`); it depends on the span alone.
pub uninterp spec fn duration_debug(d: Duration) -> Seq<char>;

/// `Duration`'s `Debug` rendering, used in messages; the text is named
/// [`duration_debug`].
#[verifier::external_body]
pub(crate) fn span_debug_text(d: Duration) -> (r: String)
    ensures
        r@ == duration_debug(d),
{
    format!("{:?}", d)
}

} // verus!
