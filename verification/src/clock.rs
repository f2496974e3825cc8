//! Wall-clock readings, calendar days, and their textual forms.

use vstd::prelude::*;

verus! {

/// A point in time: whole seconds since the Unix epoch and the nanoseconds
/// past that second.
#[derive(Debug, Clone, Copy, PartialEq, Eq, Structural)]
pub struct Timestamp {
    pub secs: i64,
    pub nanos: u32,
}

/// The RFC 3339 text of the time `secs` seconds and `nanos` nanoseconds
/// after the Unix epoch in UTC, or `None` where the calendar cannot
/// represent that time.
pub uninterp spec fn rfc3339_text(secs: int, nanos: int) -> Option<Seq<char>>;

/// The text of the same time in UTC under a `strftime` pattern, or `None`
/// where the calendar cannot represent the time or the pattern cannot be
/// applied.
pub uninterp spec fn formatted_time(secs: int, nanos: int, pattern: Seq<char>) -> Option<
    Seq<char>,
>;

/// `text` is a calendar day written under the pattern.
pub uninterp spec fn date_matches(text: Seq<char>, pattern: Seq<char>) -> bool;

/// The day `days` days after the day that `text` writes under the pattern,
/// written under the same pattern; `None` where `text` is no such day or
/// the result is out of range.
pub uninterp spec fn shifted_days(text: Seq<char>, pattern: Seq<char>, days: int) -> Option<
    Seq<char>,
>;

/// The day `months` months after the day that `text` writes under the
/// pattern, written under the same pattern; `None` where `text` is no such
/// day or the result is out of range.
pub uninterp spec fn shifted_months(text: Seq<char>, pattern: Seq<char>, months: int) -> Option<
    Seq<char>,
>;

/// The day that `text` writes under the pattern `from`, written under the
/// pattern `to`; `None` where `text` is no such day or `to` cannot be
/// applied.
pub uninterp spec fn rewritten_date(text: Seq<char>, from: Seq<char>, to: Seq<char>) -> Option<
    Seq<char>,
>;

/// The view of an optional string.
pub open spec fn text_view(s: Option<String>) -> Option<Seq<char>> {
    match s {
        Some(t) => Some(t@),
        None => None,
    }
}

/// Reads the current time.
///
/// Trusted: calls `chrono::Utc::now` and keeps its seconds and sub-second
/// nanoseconds. Nothing is claimed about the value, which depends on the
/// system clock; `chrono` panics if that clock is set before the Unix epoch.
#[verifier::external_body]
pub(crate) fn now() -> Timestamp {
    let t = chrono::Utc::now();
    Timestamp { secs: t.timestamp(), nanos: t.timestamp_subsec_nanos() }
}

/// The RFC 3339 text of a time.
///
/// Trusted: builds the UTC time with `chrono::DateTime::from_timestamp`,
/// which gives `None` out of range, and formats it with
/// `chrono::DateTime::to_rfc3339`. The text is a function of the seconds and
/// nanoseconds alone.
#[verifier::external_body]
pub(crate) fn rfc3339(t: Timestamp) -> (r: Option<String>)
    ensures
        text_view(r) == rfc3339_text(t.secs as int, t.nanos as int),
{
    chrono::DateTime::from_timestamp(t.secs, t.nanos).map(|d| d.to_rfc3339())
}

/// The text of a time under a `strftime` pattern.
///
/// Trusted: builds the UTC time with `chrono::DateTime::from_timestamp`,
/// which gives `None` out of range, and writes it with
/// `chrono::DateTime::format`, whose `write_to` reports a pattern it cannot
/// apply. The text is a function of the time and the pattern alone.
#[verifier::external_body]
pub(crate) fn format_time(t: Timestamp, pattern: &str) -> (r: Option<String>)
    ensures
        text_view(r) == formatted_time(t.secs as int, t.nanos as int, pattern@),
{
    let time = chrono::DateTime::from_timestamp(t.secs, t.nanos)?;
    let mut out = String::new();
    time.format(pattern).write_to(&mut out).ok()?;
    Some(out)
}

/// Tells whether `text` is a calendar day written under the pattern.
///
/// Trusted: `chrono::NaiveDate::parse_from_str` succeeds or fails by the
/// text and the pattern alone.
#[verifier::external_body]
pub(crate) fn matches_date(text: &str, pattern: &str) -> (r: bool)
    ensures
        r == date_matches(text@, pattern@),
{
    chrono::NaiveDate::parse_from_str(text, pattern).is_ok()
}

/// The day `days` days after the day written in `text`.
///
/// Trusted: reads the day with `chrono::NaiveDate::parse_from_str`, adds
/// with `chrono::NaiveDate::checked_add_signed` a span made by
/// `chrono::TimeDelta::try_days`, and writes the result with
/// `chrono::NaiveDate::format`; each step gives `None` where it cannot be
/// done. The result is a function of the arguments alone.
#[verifier::external_body]
pub(crate) fn shift_days(text: &str, pattern: &str, days: i64) -> (r: Option<String>)
    ensures
        text_view(r) == shifted_days(text@, pattern@, days as int),
{
    let day = chrono::NaiveDate::parse_from_str(text, pattern).ok()?;
    let next = day.checked_add_signed(chrono::TimeDelta::try_days(days)?)?;
    let mut out = String::new();
    next.format(pattern).write_to(&mut out).ok()?;
    Some(out)
}

/// The day `months` months after the day written in `text`.
///
/// Trusted: reads the day with `chrono::NaiveDate::parse_from_str`, adds
/// with `chrono::NaiveDate::checked_add_months`, and writes the result
/// with `chrono::NaiveDate::format`; each step gives `None` where it cannot
/// be done. The result is a function of the arguments alone.
#[verifier::external_body]
pub(crate) fn shift_months(text: &str, pattern: &str, months: u32) -> (r: Option<String>)
    ensures
        text_view(r) == shifted_months(text@, pattern@, months as int),
{
    let day = chrono::NaiveDate::parse_from_str(text, pattern).ok()?;
    let next = day.checked_add_months(chrono::Months::new(months))?;
    let mut out = String::new();
    next.format(pattern).write_to(&mut out).ok()?;
    Some(out)
}

/// The day written in `text` under one pattern, written under another.
///
/// Trusted: reads the day with `chrono::NaiveDate::parse_from_str` and
/// writes it with `chrono::NaiveDate::format`; each step gives `None` where
/// it cannot be done. The result is a function of the arguments alone.
#[verifier::external_body]
pub(crate) fn rewrite_date(text: &str, from: &str, to: &str) -> (r: Option<String>)
    ensures
        text_view(r) == rewritten_date(text@, from@, to@),
{
    let day = chrono::NaiveDate::parse_from_str(text, from).ok()?;
    let mut out = String::new();
    day.format(to).write_to(&mut out).ok()?;
    Some(out)
}

/// The text `YYYY-MM-DD HH:MM` of a time in UTC.
pub open spec fn minute_text(secs: int, nanos: int) -> Option<Seq<char>> {
    formatted_time(secs, nanos, "%Y-%m-%d %H:%M"@)
}

/// The text `YYYYMMDD-HHMMSS` of a time in UTC.
pub open spec fn compact_text(secs: int, nanos: int) -> Option<Seq<char>> {
    formatted_time(secs, nanos, "%Y%m%d-%H%M%S"@)
}

/// The text `YYYY-MM-DD` of the day of a time in UTC.
pub open spec fn day_text(secs: int, nanos: int) -> Option<Seq<char>> {
    formatted_time(secs, nanos, "%Y-%m-%d"@)
}

/// `text` is a calendar day written `YYYY-MM-DD`.
pub open spec fn date_ok(text: Seq<char>) -> bool {
    date_matches(text, "%Y-%m-%d"@)
}

/// The day `days` days after the day written `YYYY-MM-DD` in `text`.
pub open spec fn date_plus_days(text: Seq<char>, days: int) -> Option<Seq<char>> {
    shifted_days(text, "%Y-%m-%d"@, days)
}

/// The day `months` months after the day written `YYYY-MM-DD` in `text`.
pub open spec fn date_plus_months(text: Seq<char>, months: int) -> Option<Seq<char>> {
    shifted_months(text, "%Y-%m-%d"@, months)
}

/// The day written `YYYY-MM-DD` in `text` spelled out, as in
/// `Monday, January 01, 2024`.
pub open spec fn long_date_text(text: Seq<char>) -> Option<Seq<char>> {
    rewritten_date(text, "%Y-%m-%d"@, "%A, %B %d, %Y"@)
}

/// The text `YYYY-MM-DD HH:MM` of a time.
pub fn minute_stamp(t: Timestamp) -> (r: Option<String>)
    ensures
        text_view(r) == minute_text(t.secs as int, t.nanos as int),
{
    format_time(t, "%Y-%m-%d %H:%M")
}

/// The text `YYYYMMDD-HHMMSS` of a time.
pub fn compact_stamp(t: Timestamp) -> (r: Option<String>)
    ensures
        text_view(r) == compact_text(t.secs as int, t.nanos as int),
{
    format_time(t, "%Y%m%d-%H%M%S")
}

/// The text `YYYY-MM-DD` of the day of a time.
pub fn day_stamp(t: Timestamp) -> (r: Option<String>)
    ensures
        text_view(r) == day_text(t.secs as int, t.nanos as int),
{
    format_time(t, "%Y-%m-%d")
}

/// Tells whether `text` is a calendar day written `YYYY-MM-DD`.
pub fn is_date(text: &str) -> (r: bool)
    ensures
        r == date_ok(text@),
{
    matches_date(text, "%Y-%m-%d")
}

/// The day `days` days after the day written in `text`.
pub fn add_days(text: &str, days: i64) -> (r: Option<String>)
    ensures
        text_view(r) == date_plus_days(text@, days as int),
{
    shift_days(text, "%Y-%m-%d", days)
}

/// The day `months` months after the day written in `text`.
pub fn add_months(text: &str, months: u32) -> (r: Option<String>)
    ensures
        text_view(r) == date_plus_months(text@, months as int),
{
    shift_months(text, "%Y-%m-%d", months)
}

/// The day written in `text`, spelled out.
pub fn long_date(text: &str) -> (r: Option<String>)
    ensures
        text_view(r) == long_date_text(text@),
{
    rewrite_date(text, "%Y-%m-%d", "%A, %B %d, %Y")
}

/// The text of a time, or `Unknown` where it has none.
pub open spec fn time_text(secs: int, nanos: int) -> Seq<char> {
    match rfc3339_text(secs, nanos) {
        Some(s) => s,
        None => "Unknown"@,
    }
}

/// Returns the text of a time, or `Unknown` where it has none.
pub fn time_text_of(t: Timestamp) -> (s: String)
    ensures
        s@ == time_text(t.secs as int, t.nanos as int),
{
    match rfc3339(t) {
        Some(s) => s,
        None => "Unknown".to_owned(),
    }
}

/// Reads the current time.
pub fn current_time() -> Timestamp {
    now()
}

/// Returns the text of the current time.
pub fn now_text() -> (s: String)
    ensures
        exists|t: Timestamp| s@ == #[trigger] time_text(t.secs as int, t.nanos as int),
{
    let t = now();
    time_text_of(t)
}

/// The two texts under which something made at a time is filed: the
/// compact text for file names and the full text for its fields. `None`
/// where the calendar cannot represent the time.
pub fn stamps_at(t: Timestamp) -> (r: Option<(String, String)>)
    ensures
        match r {
            Some((compact, full)) => compact_text(t.secs as int, t.nanos as int) == Some(compact@)
                && full@ == time_text(t.secs as int, t.nanos as int),
            None => compact_text(t.secs as int, t.nanos as int) is None,
        },
{
    match compact_stamp(t) {
        Some(compact) => Some((compact, time_text_of(t))),
        None => None,
    }
}

/// The two texts for the current time. See [`stamps_at`].
pub fn stamps_now() -> (r: Option<(String, String)>)
    ensures
        exists|t: Timestamp|
            match r {
                Some((compact, full)) => #[trigger] compact_text(t.secs as int, t.nanos as int)
                    == Some(compact@) && full@ == time_text(t.secs as int, t.nanos as int),
                None => compact_text(t.secs as int, t.nanos as int) is None,
            },
{
    let t = now();
    stamps_at(t)
}

} // verus!
