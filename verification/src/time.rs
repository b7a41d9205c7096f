//! Timestamps and their RFC 2822 rendering.
//!
//! Timestamps are milliseconds since the Unix epoch. The feed renders dates
//! with chrono, whose RFC 2822 formatter covers years 0 through 9999; the
//! two bounds below are the first and last millisecond of that span, and the
//! decoder admits only timestamps inside it, so that every accepted entry
//! has a renderable date.

use vstd::prelude::*;

verus! {

/// First millisecond of year 0 (0000-01-01T00:00:00.000 UTC).
pub const RFC2822_MIN_MS: i64 = -62167219200000;

/// Last millisecond of year 9999 (9999-12-31T23:59:59.999 UTC).
pub const RFC2822_MAX_MS: i64 = 253402300799999;

/// The RFC 2822 text of a millisecond timestamp, as chrono renders it for
/// UTC. The text depends on the timestamp alone.
pub uninterp spec fn rfc2822_of(ms: int) -> Seq<char>;

/// Relies on chrono's `DateTime::<Utc>::from_timestamp_millis` and
/// `DateTime::to_rfc2822`: for a timestamp within years 0 through 9999 the
/// former returns the corresponding UTC instant and the latter renders it as
/// RFC 2822 text, a function of the timestamp alone.
#[verifier::external_body]
pub fn rfc2822_utc(ms: i64) -> (r: String)
    requires
        RFC2822_MIN_MS <= ms <= RFC2822_MAX_MS,
    ensures
        r@ == rfc2822_of(ms as int),
{
    match chrono::DateTime::<chrono::Utc>::from_timestamp_millis(ms) {
        Some(dt) => dt.to_rfc2822(),
        None => String::new(),
    }
}

/// Relies on chrono's `Utc::now`: the wall clock at the moment of the call,
/// in milliseconds since the Unix epoch. Nothing is promised of the value.
#[verifier::external_body]
pub fn now_unix_ms() -> (r: i64)
{
    chrono::Utc::now().timestamp_millis()
}

} // verus!
