//! Timestamps.  An article's publication time is held as whole seconds since
//! the Unix epoch; reading the clock and rendering a timestamp are delegated
//! to the `chrono` crate behind trusted wrappers.

use vstd::prelude::*;

verus! {

/// The last second of year 9999, the upper bound this library renders.
pub const MAX_TIMESTAMP: i64 = 253402300799;

/// Relies on `chrono::Utc::now`: reads the wall clock.  Nothing is promised
/// of the value; callers must hold whatever they state for every outcome.
#[verifier::external_body]
pub(crate) fn now_timestamp() -> i64 {
    chrono::Utc::now().timestamp()
}

/// The `%d.%m.%Y %H:%M` rendering of a timestamp, abstract because spelling
/// out the civil calendar here would restate `chrono`.
pub uninterp spec fn formatted_of(ts: i64) -> Seq<char>;

/// Relies on `chrono::DateTime::from_timestamp` (defined for this range) and
/// `DateTime::format` with `%d.%m.%Y %H:%M`: the rendering is a function of
/// the timestamp alone.
#[verifier::external_body]
pub(crate) fn format_timestamp(ts: i64) -> (r: String)
    requires
        0 <= ts <= MAX_TIMESTAMP,
    ensures
        r@ == formatted_of(ts),
{
    let dt = chrono::DateTime::from_timestamp(ts, 0).unwrap();
    dt.format("%d.%m.%Y %H:%M").to_string()
}

/// The RFC 2822 rendering of a timestamp, used by the feed projection.
pub uninterp spec fn rfc2822_of(ts: i64) -> Seq<char>;

/// Relies on `chrono::DateTime::from_timestamp` (defined for this range) and
/// `DateTime::to_rfc2822`: the rendering is a function of the timestamp
/// alone.
#[verifier::external_body]
pub(crate) fn rfc2822_timestamp(ts: i64) -> (r: String)
    requires
        0 <= ts <= MAX_TIMESTAMP,
    ensures
        r@ == rfc2822_of(ts),
{
    let dt = chrono::DateTime::from_timestamp(ts, 0).unwrap();
    dt.to_rfc2822()
}

} // verus!
