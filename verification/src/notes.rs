//! Notes of the document store: which files are notes, and how a note is
//! read from and written back to the text of its file.

use vstd::prelude::*;
use crate::clock::text_view;
use crate::filesystem::{ignored, is_ignored, is_note_file, normalize_path, note_file};
use crate::paths::relative_name;
use crate::frontmatter::{
    complete, derive_id_from_path, derived_id, ensure_frontmatter_at, ensured_fields, frame_of,
    frontmatter_fields, generate_frontmatter_at, generated_fields, is_frontmatter_complete,
    fails_with, parse_frontmatter, serialize_frontmatter, serialized, update_frontmatter_at,
    Unwritable,
};
use crate::paths::{file_name, file_name_exec, is_markdown, is_markdown_exec};
use crate::search::{extract_title_from_path, title_of};
use crate::text::{cat3, cat4, chars_of, str_eq, trim_start, trim_start_str};
use crate::yaml::{fields_of, get_text, text_at, Field};

verus! {

/// A note as shown in listings.
#[derive(Debug, Clone)]
pub struct NoteSummary {
    pub id: String,
    pub title: String,
    pub path: String,
    pub note_type: String,
    pub updated: Option<String>,
}

/// A note with its frontmatter and text.
#[derive(Debug)]
pub struct Note {
    pub id: String,
    pub path: String,
    pub note_type: String,
    pub frontmatter: serde_yaml::Mapping,
    pub content: String,
}

/// The text of a field, or `fallback` where the field is no string.
pub open spec fn text_or_else(fields: Map<Seq<char>, Field>, key: Seq<char>, fallback: Seq<char>) -> Seq<
    char,
> {
    match text_at(fields, key) {
        Some(s) => s,
        None => fallback,
    }
}

/// The identifier of the note in the file at `path` with these fields: the
/// `id` field, or the identifier derived from the path.
pub open spec fn note_id(fields: Map<Seq<char>, Field>, root: Seq<char>, path: Seq<char>) -> Seq<
    char,
> {
    text_or_else(fields, "id"@, derived_id(root, path))
}

/// `path` is listed as a note of the store rooted at `data_dir`.
pub open spec fn listed(path: Seq<char>, data_dir: Seq<char>) -> bool {
    !ignored(path) && is_markdown(path) && note_file(path, data_dir)
}

/// Tells whether the file at `path` is listed as a note.
pub fn is_listed_note(path: &str, data_dir: &str) -> (r: bool)
    ensures
        r == listed(path@, data_dir@),
{
    !is_ignored(path) && is_markdown_exec(&chars_of(path)) && is_note_file(path, data_dir)
}

fn id_of(fm: &serde_yaml::Mapping, root: &str, path: &str) -> (id: String)
    ensures
        id@ == note_id(fields_of(*fm), root@, path@),
{
    match get_text(fm, "id") {
        Some(id) => id,
        None => derive_id_from_path(root, path),
    }
}

fn type_of(fm: &serde_yaml::Mapping) -> (t: String)
    ensures
        t@ == text_or_else(fields_of(*fm), "type"@, "note"@),
{
    match get_text(fm, "type") {
        Some(t) => t,
        None => "note".to_owned(),
    }
}

/// Summarises the note in the file at `path` with the text `content`: its
/// identifier and title from the frontmatter or else from the path, its
/// type, `note` where none is given, and its update time.
pub fn parse_note_summary(root: &str, path: &str, content: &str) -> (s: NoteSummary)
    ensures
        s.id@ == note_id(frontmatter_fields(content@), root@, path@),
        s.title@ == text_or_else(frontmatter_fields(content@), "title"@, title_of(path@)),
        s.path@ == relative_name(root@, path@),
        s.note_type@ == text_or_else(frontmatter_fields(content@), "type"@, "note"@),
        text_view(s.updated) == text_at(frontmatter_fields(content@), "updated"@),
{
    let (fm, _body, _has) = parse_frontmatter(content);
    let title = match get_text(&fm, "title") {
        Some(t) => t,
        None => extract_title_from_path(path),
    };
    NoteSummary {
        id: id_of(&fm, root, path),
        title,
        path: normalize_path(root, path),
        note_type: type_of(&fm),
        updated: get_text(&fm, "updated"),
    }
}

/// Reads the note in the file at `path` if its identifier is `note_id`.
pub fn read_note(root: &str, path: &str, content: &str, wanted: &str) -> (r: Option<Note>)
    ensures
        r is Some <==> note_id(frontmatter_fields(content@), root@, path@) == wanted@,
        r matches Some(n) ==> {
            &&& n.id@ == wanted@
            &&& n.path@ == relative_name(root@, path@)
            &&& n.note_type@ == text_or_else(frontmatter_fields(content@), "type"@, "note"@)
            &&& fields_of(n.frontmatter) == frontmatter_fields(content@)
            &&& n.content@ == trim_start(frame_of(content@).body)
        },
{
    let (fm, body, _has) = parse_frontmatter(content);
    let id = id_of(&fm, root, path);
    if !str_eq(id.as_str(), wanted) {
        return None;
    }
    let note_type = type_of(&fm);
    Some(
        Note {
            id,
            path: normalize_path(root, path),
            note_type,
            frontmatter: fm,
            content: trim_start_str(body.as_str()),
        },
    )
}

/// The path of a note created in `notes_dir` under the name `stamp`.
pub open spec fn new_note_path(notes_dir: Seq<char>, stamp: Seq<char>) -> Seq<char> {
    notes_dir + "/"@ + stamp + ".md"@
}

/// Creates an empty note in `notes_dir` at the time with compact text
/// `stamp` and full text `now`: returns the path of its file, the text to
/// write there, and the note. Fails exactly when the note's frontmatter has
/// no YAML text, and then hands that frontmatter back with the reason.
pub fn create_note_at(root: &str, notes_dir: &str, stamp: &str, now: &str) -> (r: Result<
    (String, String, Note),
    Unwritable,
>)
    ensures
        match r {
            Ok((path, text, note)) => {
                &&& path@ == new_note_path(notes_dir@, stamp@)
                &&& fields_of(note.frontmatter) == generated_fields(root@, path@, "note"@, now@)
                &&& serialized(note.frontmatter, Seq::empty()) == Ok::<Seq<char>, Seq<char>>(
                    text@,
                )
                &&& note.id@ == derived_id(root@, path@)
                &&& note.path@ == relative_name(root@, path@)
                &&& note.note_type@ == "note"@
                &&& note.content@ == Seq::<char>::empty()
            },
            Err(e) => fails_with(
                e,
                generated_fields(root@, new_note_path(notes_dir@, stamp@), "note"@, now@),
                Seq::empty(),
            ),
        },
{
    let path = cat4(notes_dir, "/", stamp, ".md");
    assert(path@ =~= new_note_path(notes_dir@, stamp@));
    let fm = generate_frontmatter_at(root, path.as_str(), "note", now);
    let empty = String::new();
    match serialize_frontmatter(&fm, empty.as_str()) {
        Ok(text) => {
            let id = match get_text(&fm, "id") {
                Some(id) => id,
                None => String::new(),
            };
            proof {
                lemma_generated_id(root@, path@, "note"@, now@);
            }
            let rel = normalize_path(root, path.as_str());
            Ok(
                (
                    path,
                    text,
                    Note {
                        id,
                        path: rel,
                        note_type: "note".to_owned(),
                        frontmatter: fm,
                        content: String::new(),
                    },
                ),
            )
        },
        Err(detail) => Err(Unwritable { frontmatter: fm, detail }),
    }
}

/// Generated frontmatter carries the identifier derived from the path.
pub proof fn lemma_generated_id(
    root: Seq<char>,
    path: Seq<char>,
    note_type: Seq<char>,
    stamp: Seq<char>,
)
    ensures
        text_at(generated_fields(root, path, note_type, stamp), "id"@) == Some(
            derived_id(root, path),
        ),
{
    reveal_strlit("id");
    reveal_strlit("type");
    reveal_strlit("created");
    reveal_strlit("updated");
    assert("id"@.len() == 2 && "type"@.len() == 4 && "created"@.len() == 7 && "updated"@.len()
        == 7);
}

/// The fields of a note after an update at the time with text `stamp`:
/// all required fields are ensured where the file had no frontmatter or an
/// incomplete one; else only the update time is set.
pub open spec fn updated_fields(
    content: Seq<char>,
    root: Seq<char>,
    path: Seq<char>,
    stamp: Seq<char>,
) -> Map<
    Seq<char>,
    Field,
> {
    let fields = frontmatter_fields(content);
    if !frame_of(content).has_frontmatter || !complete(fields) {
        ensured_fields(fields, root, path, stamp)
    } else {
        fields.insert("updated"@, Field::Text(stamp))
    }
}

/// Rewrites the note in the file at `path` with the new text `new_content`
/// if its identifier is `wanted`: returns the text to write and the note.
/// `None` means the file holds another note.
pub fn update_note_at(
    root: &str,
    path: &str,
    content: &str,
    wanted: &str,
    new_content: &str,
    stamp: &str,
) -> (r:
    Option<Result<(String, Note), String>>)
    ensures
        r is Some <==> note_id(frontmatter_fields(content@), root@, path@) == wanted@,
        r matches Some(Ok((text, n))) ==> {
            &&& n.id@ == wanted@
            &&& n.path@ == relative_name(root@, path@)
            &&& fields_of(n.frontmatter) == updated_fields(content@, root@, path@, stamp@)
            &&& n.note_type@ == text_or_else(fields_of(n.frontmatter), "type"@, "note"@)
            &&& n.content@ == new_content@
            &&& serialized(n.frontmatter, trim_start(new_content@)) == Ok::<
                Seq<char>,
                Seq<char>,
            >(text@)
        },
{
    let (mut fm, _old_body, has_fm) = parse_frontmatter(content);
    let id = id_of(&fm, root, path);
    if !str_eq(id.as_str(), wanted) {
        return None;
    }
    if !has_fm || !is_frontmatter_complete(&fm) {
        ensure_frontmatter_at(&mut fm, root, path, stamp);
    } else {
        update_frontmatter_at(&mut fm, stamp);
    }
    let body = trim_start_str(new_content);
    match serialize_frontmatter(&fm, body.as_str()) {
        Ok(text) => {
            let note_type = type_of(&fm);
            Some(
                Ok(
                    (
                        text,
                        Note {
                            id,
                            path: normalize_path(root, path),
                            note_type,
                            frontmatter: fm,
                            content: new_content.to_owned(),
                        },
                    ),
                ),
            )
        },
        Err(e) => Some(Err(e)),
    }
}

/// Tells whether the file at `path` holds the note `wanted`.
pub fn holds_note(root: &str, path: &str, content: &str, wanted: &str) -> (r: bool)
    ensures
        r == (note_id(frontmatter_fields(content@), root@, path@) == wanted@),
{
    let (fm, _body, _has) = parse_frontmatter(content);
    let id = id_of(&fm, root, path);
    str_eq(id.as_str(), wanted)
}

/// Where a file goes when it is archived: under its own name in
/// `archive_dir`. `None` where the path names no file.
pub fn archive_target(archive_dir: &str, path: &str) -> (r: Option<String>)
    ensures
        match r {
            Some(t) => file_name(path@).len() > 0 && t@ == archive_dir@ + "/"@ + file_name(path@),
            None => file_name(path@).len() == 0,
        },
{
    let name = file_name_exec(&chars_of(path));
    if name.len() == 0 {
        return None;
    }
    let name_text = crate::text::string_of(&name);
    Some(cat3(archive_dir, "/", name_text.as_str()))
}

} // verus!
