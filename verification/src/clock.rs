//! When a show was last seen, as the user reads it: the stored timestamp in
//! local time, or the stored text itself where it is no timestamp.
use vstd::prelude::*;

verus! {

/// The instant that an RFC 3339 timestamp names, in seconds since the epoch
/// and nanoseconds within the second; nothing for any other text.
pub uninterp spec fn rfc3339_instant(raw: Seq<char>) -> Option<(i64, u32)>;

/// `chrono::DateTime::parse_from_rfc3339`, with `timestamp` and
/// `timestamp_subsec_nanos` of what it gives: the instant that the text
/// names, or nothing where the text is no RFC 3339 timestamp. The same text
/// always gives the same instant.
#[verifier::external_body]
fn parse_rfc3339(raw: &str) -> (out: Option<(i64, u32)>)
    ensures
        out == rfc3339_instant(raw@),
{
    match chrono::DateTime::parse_from_rfc3339(raw) {
        Ok(dt) => Some((dt.timestamp(), dt.timestamp_subsec_nanos())),
        Err(_) => None,
    }
}

/// `chrono::DateTime::from_timestamp`, `with_timezone(&Local)` and
/// `format`: the instant in the time zone of this machine, written after
/// the pattern. What comes out depends on that time zone, so nothing is
/// said of it.
#[verifier::external_body]
fn local_time_text(secs: i64, nanos: u32, pattern: &str) -> (out: Option<String>)
    requires
        pattern@ == "%Y-%m-%d %H:%M %:z"@ || pattern@ == "%Y-%m-%d %H:%M"@,
{
    match chrono::DateTime::from_timestamp(secs, nanos) {
        Some(dt) => Some(dt.with_timezone(&chrono::Local).format(pattern).to_string()),
        None => None,
    }
}

/// What to show for a stored time: its local form where there is one, else
/// the stored text.
pub fn last_seen_display(raw: &str, local: Option<String>) -> (out: String)
    ensures
        out@ == match local {
            Some(t) => t@,
            None => raw@,
        },
{
    match local {
        Some(t) => t,
        None => String::from_str(raw),
    }
}

fn display_with(raw: &str, pattern: &str) -> (out: String)
    requires
        pattern@ == "%Y-%m-%d %H:%M %:z"@ || pattern@ == "%Y-%m-%d %H:%M"@,
    ensures
        rfc3339_instant(raw@) is None ==> out@ == raw@,
{
    let local = match parse_rfc3339(raw) {
        Some((secs, nanos)) => local_time_text(secs, nanos, pattern),
        None => None,
    };
    last_seen_display(raw, local)
}

/// The time a show was last seen, in local time with the offset from UTC;
/// the stored text itself where it is no RFC 3339 timestamp.
pub fn format_last_seen_display(raw: &str) -> (out: String)
    ensures
        rfc3339_instant(raw@) is None ==> out@ == raw@,
{
    display_with(raw, "%Y-%m-%d %H:%M %:z")
}

/// The time a show was last seen, in local time without the offset; the
/// stored text itself where it is no RFC 3339 timestamp.
pub fn format_last_seen_display_tui(raw: &str) -> (out: String)
    ensures
        rfc3339_instant(raw@) is None ==> out@ == raw@,
{
    display_with(raw, "%Y-%m-%d %H:%M")
}

} // verus!
