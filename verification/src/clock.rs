//! Wall-clock instants, held as plain values.

use std::fmt::Write;
use vstd::prelude::*;

verus! {

/// A local wall-clock instant: seconds and nanoseconds since the Unix epoch,
/// and the local offset from UTC in seconds at that instant.
#[derive(Debug, Clone, Copy, PartialEq, Eq)]
pub struct LocalTime {
    pub unix_seconds: i64,
    pub subsec_nanos: u32,
    pub utc_offset_seconds: i32,
}

/// The text that chrono's `format` gives for the instant `(seconds, nanos)` at
/// the UTC offset `offset` under the strftime pattern `pattern`, or `None` where
/// chrono cannot represent the instant or the pattern does not format.
pub uninterp spec fn formatted_local_time(
    seconds: i64,
    nanos: u32,
    offset: i32,
    pattern: Seq<char>,
) -> Option<Seq<char>>;

/// Reads the clock through `chrono::Local::now`. Nothing is stated of the
/// instant, which depends on the time at which it is called.
#[verifier::external_body]
pub(crate) fn local_now() -> (now: LocalTime) {
    let now = chrono::Local::now();
    LocalTime {
        unix_seconds: now.timestamp(),
        subsec_nanos: now.timestamp_subsec_nanos(),
        utc_offset_seconds: chrono::Offset::fix(now.offset()).local_minus_utc(),
    }
}

/// Formats an instant with chrono (`DateTime::from_timestamp`, `with_timezone`
/// at the fixed offset, then `format(pattern)`); `None` where chrono cannot
/// build the instant or the offset, or the pattern fails to format.
#[verifier::external_body]
pub(crate) fn format_local_time(t: &LocalTime, pattern: &str) -> (text: Option<String>)
    ensures
        match text {
            Some(s) => formatted_local_time(
                t.unix_seconds,
                t.subsec_nanos,
                t.utc_offset_seconds,
                pattern@,
            ) == Some(s@),
            None => formatted_local_time(
                t.unix_seconds,
                t.subsec_nanos,
                t.utc_offset_seconds,
                pattern@,
            ) is None,
        },
{
    let offset = chrono::FixedOffset::east_opt(t.utc_offset_seconds)?;
    let utc = chrono::DateTime::from_timestamp(t.unix_seconds, t.subsec_nanos)?;
    let mut out = String::new();
    match write!(out, "{}", utc.with_timezone(&offset).format(pattern)) {
        Ok(()) => Some(out),
        Err(_) => None,
    }
}

} // verus!
