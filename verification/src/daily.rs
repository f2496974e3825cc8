//! Daily notes: one file per calendar day, named by the day.

use vstd::prelude::*;
use crate::clock::{
    date_ok, day_stamp, day_text, is_date, long_date, long_date_text, now, text_view, Timestamp,
};
use crate::frontmatter::{
    fails_with, frame_of, frontmatter_fields, parse_frontmatter, restamped_fields,
    serialize_frontmatter, serialized, writes, Unwritable,
};
use crate::notes::text_or_else;
use crate::text::{cat2, cat3, descending};
use crate::yaml::{fields_of, get_text, new_mapping, no_fields, set_text, Field};

verus! {

/// A daily note with its frontmatter and body.
#[derive(Debug)]
pub struct DailyNote {
    pub id: String,
    pub date: String,
    pub path: String,
    pub content: String,
    pub frontmatter: serde_yaml::Mapping,
}

/// A daily note as shown in listings.
#[derive(Debug, Clone)]
pub struct DailyNoteSummary {
    pub id: String,
    pub date: String,
    pub path: String,
    pub title: String,
}

/// Request to create a daily note.
#[derive(Debug, Clone)]
pub struct CreateDailyNoteRequest {
    pub content: Option<String>,
}

/// The identifier of the note of a day.
pub open spec fn daily_id(date: Seq<char>) -> Seq<char> {
    "daily-"@ + date
}

/// The path of the note of a day, relative to the document root.
pub open spec fn daily_path(date: Seq<char>) -> Seq<char> {
    "daily/"@ + date + ".md"@
}

/// Tells whether `date` is a calendar day written `YYYY-MM-DD`.
pub fn is_valid_date(date: &str) -> (r: bool)
    ensures
        r == date_ok(date@),
{
    is_date(date)
}

/// The day of a time, written `YYYY-MM-DD`; `None` where the calendar
/// cannot represent the time.
pub fn date_of(t: Timestamp) -> (r: Option<String>)
    ensures
        text_view(r) == day_text(t.secs as int, t.nanos as int),
{
    day_stamp(t)
}

/// Today, written `YYYY-MM-DD`.
pub fn today() -> (r: Option<String>)
    ensures
        exists|t: Timestamp| text_view(r) == #[trigger] day_text(t.secs as int, t.nanos as int),
{
    let t = now();
    date_of(t)
}

/// Summarises the file with the stem `stem` as a daily note; `None` where
/// the stem is no day.
pub fn daily_summary(stem: &str, content: &str) -> (r: Option<DailyNoteSummary>)
    ensures
        r is Some <==> date_ok(stem@),
        r matches Some(s) ==> {
            &&& s.id@ == daily_id(stem@)
            &&& s.date@ == stem@
            &&& s.path@ == daily_path(stem@)
            &&& s.title@ == text_or_else(frontmatter_fields(content@), "title"@, stem@)
        },
{
    if !is_date(stem) {
        return None;
    }
    let (fm, _body, _has) = parse_frontmatter(content);
    let title = match get_text(&fm, "title") {
        Some(t) => t,
        None => stem.to_owned(),
    };
    Some(
        DailyNoteSummary {
            id: cat2("daily-", stem),
            date: stem.to_owned(),
            path: cat3("daily/", stem, ".md"),
            title,
        },
    )
}

/// Reads the note of a day from the text of its file.
pub fn daily_note_from(date: &str, content: &str) -> (n: DailyNote)
    ensures
        n.id@ == daily_id(date@),
        n.date@ == date@,
        n.path@ == daily_path(date@),
        n.content@ == frame_of(content@).body,
        fields_of(n.frontmatter) == frontmatter_fields(content@),
{
    let (fm, body, _has) = parse_frontmatter(content);
    DailyNote {
        id: cat2("daily-", date),
        date: date.to_owned(),
        path: cat3("daily/", date, ".md"),
        content: body,
        frontmatter: fm,
    }
}

/// The body that a daily note starts with where none is given.
pub open spec fn daily_template(display: Seq<char>) -> Seq<char> {
    "# "@ + display + "\n\n## Today's Focus\n\n- \n\n## Notes\n\n\n\n## Tasks\n\n- [ ] \n"@
}

/// The fields of a new daily note.
pub open spec fn new_daily_fields(date: Seq<char>, display: Seq<char>, now: Seq<char>) -> Map<
    Seq<char>,
    Field,
> {
    no_fields().insert("id"@, Field::Text(daily_id(date))).insert(
        "type"@,
        Field::Text("daily"@),
    ).insert("title"@, Field::Text(display)).insert("date"@, Field::Text(date)).insert(
        "created"@,
        Field::Text(now),
    ).insert("updated"@, Field::Text(now))
}

/// Why a daily note could not be made.
#[derive(Debug, Clone)]
pub enum DailyError {
    /// The date is no calendar day written `YYYY-MM-DD`.
    InvalidDate,
    /// The frontmatter could not be written as YAML.
    Unwritable { detail: String },
}

/// Creates the note of the day `date` at the time with text `now`: returns
/// the text to write and the note. The note is titled with the day spelled
/// out and starts with `initial_content`, or with the template.
pub fn create_daily_note_at(date: &str, initial_content: Option<&str>, now: &str) -> (r: Result<
    (String, DailyNote),
    DailyError,
>)
    ensures
        long_date_text(date@) is None <==> r matches Err(DailyError::InvalidDate),
        r matches Ok((text, n)) ==> {
            let display = long_date_text(date@)->0;
            let body = match initial_content {
                Some(c) => c@,
                None => daily_template(display),
            };
            &&& fields_of(n.frontmatter) == new_daily_fields(date@, display, now@)
            &&& serialized(n.frontmatter, body) == Ok::<Seq<char>, Seq<char>>(text@)
            &&& n.id@ == daily_id(date@)
            &&& n.date@ == date@
            &&& n.path@ == daily_path(date@)
            &&& n.content@ == body
        },
{
    let display = match long_date(date) {
        Some(d) => d,
        None => {
            return Err(DailyError::InvalidDate);
        },
    };
    let id = cat2("daily-", date);
    let mut fm = new_mapping();
    set_text(&mut fm, "id", id.as_str());
    set_text(&mut fm, "type", "daily");
    set_text(&mut fm, "title", display.as_str());
    set_text(&mut fm, "date", date);
    set_text(&mut fm, "created", now);
    set_text(&mut fm, "updated", now);
    let body = match initial_content {
        Some(c) => c.to_owned(),
        None => cat3(
            "# ",
            display.as_str(),
            "\n\n## Today's Focus\n\n- \n\n## Notes\n\n\n\n## Tasks\n\n- [ ] \n",
        ),
    };
    match serialize_frontmatter(&fm, body.as_str()) {
        Ok(text) => Ok(
            (
                text,
                DailyNote {
                    id,
                    date: date.to_owned(),
                    path: cat3("daily/", date, ".md"),
                    content: body,
                    frontmatter: fm,
                },
            ),
        ),
        Err(detail) => Err(DailyError::Unwritable { detail }),
    }
}

/// Replaces the body of the note of a day at the time with text `now`:
/// returns the text to write and the note. Fails exactly when the
/// frontmatter has no YAML text, and then hands that frontmatter back with
/// the reason.
pub fn update_daily_note_at(date: &str, content: &str, new_content: &str, now: &str) -> (r: Result<
    (String, DailyNote),
    Unwritable,
>)
    ensures
        r matches Err(e) ==> fails_with(e, restamped_fields(content@, now@), new_content@),
        r matches Ok((text, n)) ==> {
            &&& writes(n.frontmatter, restamped_fields(content@, now@), new_content@, text@)
            &&& n.id@ == daily_id(date@)
            &&& n.date@ == date@
            &&& n.path@ == daily_path(date@)
            &&& n.content@ == new_content@
        },
{
    let (mut fm, _old, _has) = parse_frontmatter(content);
    set_text(&mut fm, "updated", now);
    match serialize_frontmatter(&fm, new_content) {
        Ok(text) => Ok(
            (
                text,
                DailyNote {
                    id: cat2("daily-", date),
                    date: date.to_owned(),
                    path: cat3("daily/", date, ".md"),
                    content: new_content.to_owned(),
                    frontmatter: fm,
                },
            ),
        ),
        Err(detail) => Err(Unwritable { frontmatter: fm, detail }),
    }
}

/// The day of each note.
pub open spec fn dates_of(notes: Seq<DailyNoteSummary>) -> Seq<Seq<char>> {
    Seq::new(notes.len(), |i: int| notes[i].date@)
}

/// The notes of the day `key`, in their order.
pub open spec fn dated(notes: Seq<DailyNoteSummary>, key: Seq<char>) -> Seq<DailyNoteSummary> {
    notes.filter(|n: DailyNoteSummary| n.date@ == key)
}

/// `after` is `before` in listing order: the same notes, latest day first,
/// notes of one day in the order they had.
pub open spec fn latest_first(before: Seq<DailyNoteSummary>, after: Seq<DailyNoteSummary>) -> bool {
    &&& after.to_multiset() == before.to_multiset()
    &&& descending(dates_of(after))
    &&& forall|key: Seq<char>| dated(after, key) == dated(before, key)
}

/// Puts the notes in listing order.
///
/// Trusted: calls `slice::sort_by_key`, a stable sort that rearranges the
/// items by ascending key and drops or adds none. The key is the day under
/// `std::cmp::Reverse`, and `String` compares by bytes, which for text is
/// the order of its characters: so the latest day comes first and notes of
/// one day keep their order.
#[verifier::external_body]
fn sort_by_date(notes: &mut Vec<DailyNoteSummary>)
    ensures
        latest_first(old(notes)@, final(notes)@),
{
    notes.sort_by_key(|n| std::cmp::Reverse(n.date.clone()));
}

/// Puts daily notes in listing order: latest day first, notes of one day in
/// the order they had. No note is lost or added.
pub fn sort_daily_notes(notes: Vec<DailyNoteSummary>) -> (sorted: Vec<DailyNoteSummary>)
    ensures
        latest_first(notes@, sorted@),
{
    let mut sorted = notes;
    sort_by_date(&mut sorted);
    sorted
}

} // verus!
