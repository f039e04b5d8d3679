use vstd::prelude::*;
use chrono::TimeZone;

verus! {

/// What chrono renders, with the pattern `%b %d %H:%M`, for the UTC instant
/// `secs` seconds after the Unix epoch.
pub uninterp spec fn utc_display(secs: int) -> Seq<char>;

/// An ASCII decimal digit.
pub open spec fn is_digit(c: char) -> bool {
    '0' <= c && c <= '9'
}

/// An ASCII letter.
pub open spec fn is_letter(c: char) -> bool {
    ('a' <= c && c <= 'z') || ('A' <= c && c <= 'Z')
}

/// The shape `Mon DD HH:MM`: a three-letter month, then day, hour and
/// minute as two digits each.
pub open spec fn stamp_shape(s: Seq<char>) -> bool {
    &&& s.len() == 12
    &&& is_letter(s[0]) && is_letter(s[1]) && is_letter(s[2])
    &&& s[3] == ' ' && is_digit(s[4]) && is_digit(s[5])
    &&& s[6] == ' ' && is_digit(s[7]) && is_digit(s[8])
    &&& s[9] == ':' && is_digit(s[10]) && is_digit(s[11])
}

/// One second past the last instant of the year 9999.
pub const YEAR_10000: u64 = 253402300800;

/// Relies on chrono's `Utc.timestamp_opt(secs, 0)`, which yields a single
/// instant for every timestamp within chrono's date range, and on its
/// `%b %d %H:%M` formatting: a three-letter month, then day, hour and minute
/// each zero-padded to two digits.
#[verifier::external_body]
fn utc_text(secs: i64) -> (r: Option<String>)
    ensures
        r.is_some() ==> r.unwrap()@ == utc_display(secs as int),
        r.is_some() ==> stamp_shape(r.unwrap()@),
        0 <= secs < YEAR_10000 ==> r.is_some(),
{
    match chrono::Utc.timestamp_opt(secs, 0).single() {
        Some(dt) => Some(dt.format("%b %d %H:%M").to_string()),
        None => None,
    }
}

/// Relies on chrono's `Utc::now` and the same `%b %d %H:%M` formatting; the
/// value depends on the clock.
#[verifier::external_body]
fn now_text() -> (r: String)
    ensures
        stamp_shape(r@),
{
    chrono::Utc::now().format("%b %d %H:%M").to_string()
}

/// What a rendered modification time may be: `Unknown` when absent; for a
/// present time the shape `Mon DD HH:MM`, fixed by the timestamp
/// alone whenever it lies before the year 10000.
pub open spec fn date_text_ok(text: Seq<char>, mtime: Option<u64>) -> bool {
    match mtime {
        None => text == "Unknown"@,
        Some(t) => stamp_shape(text) && (t < YEAR_10000 ==> text == utc_display(t as int)),
    }
}

/// Renders a modification time for the file table.
pub fn format_timestamp(mtime: Option<u64>) -> (r: String)
    ensures
        date_text_ok(r@, mtime),
{
    match mtime {
        None => String::from_str("Unknown"),
        Some(t) => {
            let secs: i64 = t as i64;
            match utc_text(secs) {
                Some(s) => s,
                None => now_text(),
            }
        },
    }
}

} // verus!
