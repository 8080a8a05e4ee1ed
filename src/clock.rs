//! Wall-clock time, held as whole seconds since the Unix epoch (UTC).
use vstd::prelude::*;

verus! {

/// Relies on `chrono::Utc::now` and `DateTime::timestamp`: the current UTC
/// time in whole seconds. Nothing is known of the value.
#[verifier::external_body]
pub fn now_seconds() -> (r: i64) {
    chrono::Utc::now().timestamp()
}

/// What `chrono` prints for a UTC instant with the pattern
/// `%Y-%m-%d %H:%M:%S`; it depends on the seconds alone.
pub uninterp spec fn clock_text_of(secs: i64) -> Seq<char>;

/// Relies on `chrono::DateTime::from_timestamp` and `format`: the instant
/// `secs` seconds after the epoch as `YYYY-MM-DD HH:MM:SS`, or `None` where
/// chrono's calendar cannot hold it.
#[verifier::external_body]
pub fn clock_text(secs: i64) -> (r: Option<String>)
    ensures
        r matches Some(t) ==> t@ == clock_text_of(secs),
{
    chrono::DateTime::from_timestamp(secs, 0).map(|d| d.format("%Y-%m-%d %H:%M:%S").to_string())
}

} // verus!
