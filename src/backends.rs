use vstd::prelude::*;

use crate::feed::Timestamp;

verus! {

/// Whether the `regex` crate compiles `pattern`.
pub uninterp spec fn regex_accepts(pattern: Seq<char>) -> bool;

/// The text of the error with which the `regex` crate rejects `pattern`.
pub uninterp spec fn regex_complaint(pattern: Seq<char>) -> Seq<char>;

/// The instant, as UTC seconds and nanoseconds, that chrono reads from `text`.
pub uninterp spec fn instant_of(text: Seq<char>) -> Option<(i64, u32)>;

/// Relies on `regex::Regex::new`, which compiles a pattern or reports why it cannot, and
/// on the `Display` of `regex::Error` for that report. Both depend on the pattern alone.
#[verifier::external_body]
pub(crate) fn check_pattern(pattern: &str) -> (r: Result<(), String>)
    ensures
        r is Ok <==> regex_accepts(pattern@),
        r matches Err(m) ==> m@ == regex_complaint(pattern@),
{
    match regex::Regex::new(pattern) {
        Ok(_) => Ok(()),
        Err(e) => Err(e.to_string()),
    }
}

/// Relies on chrono's `FromStr` for `DateTime<Utc>` (a relaxed RFC 3339 with an explicit
/// offset, converted to UTC), and on `timestamp` / `timestamp_subsec_nanos` to read the
/// instant out.
#[verifier::external_body]
pub(crate) fn parse_instant(text: &str) -> (r: Option<Timestamp>)
    ensures
        match r {
            Some(t) => instant_of(text@) == Some((t.secs, t.nanos)),
            None => instant_of(text@) is None,
        },
{
    match text.parse::<chrono::DateTime<chrono::Utc>>() {
        Ok(d) => Some(Timestamp { secs: d.timestamp(), nanos: d.timestamp_subsec_nanos() }),
        Err(_) => None,
    }
}

} // verus!
