//! Projects: a directory each, described by the frontmatter of its
//! `index.md`, with notes of its own.

use vstd::prelude::*;
use crate::frontmatter::{
    fails_with, frame_of, frontmatter_fields, parse_frontmatter, restamped_fields,
    serialize_frontmatter, serialized, writes, Unwritable,
};
use crate::notes::text_or_else;
use crate::tasks::task_body;
use crate::text::{
    alphanumeric, cat2, cat3, cat5, chars_of, descending, is_alphanumeric, lowercase, str_eq,
    string_of,
    to_lowercase, trim_start_char, trim_start_char_exec,
};
use crate::yaml::{fields_of, get_text, new_mapping, no_fields, set_text, text_at, Field};

verus! {

/// A project as shown in listings.
#[derive(Debug, Clone)]
pub struct Project {
    pub id: String,
    pub name: String,
    pub path: String,
    pub created: String,
}

/// A project with the body of its index file.
#[derive(Debug, Clone)]
pub struct ProjectWithContent {
    pub id: String,
    pub name: String,
    pub path: String,
    pub created: String,
    pub content: String,
}

/// Request to replace the body of a project's index file.
#[derive(Debug, Clone)]
pub struct UpdateProjectContentRequest {
    pub content: String,
}

/// Request to create a project.
#[derive(Debug, Clone)]
pub struct CreateProjectRequest {
    pub name: String,
}

/// A note of a project as shown in listings.
#[derive(Debug, Clone)]
pub struct ProjectNote {
    pub id: String,
    pub title: String,
    pub path: String,
    pub project_id: String,
    pub created: String,
    pub updated: String,
}

/// A note of a project with its body.
#[derive(Debug, Clone)]
pub struct ProjectNoteWithContent {
    pub id: String,
    pub title: String,
    pub path: String,
    pub project_id: String,
    pub created: String,
    pub updated: String,
    pub content: String,
}

/// Request to create a note in a project.
#[derive(Debug, Clone)]
pub struct CreateNoteRequest {
    pub title: Option<String>,
}

fn field_or(fm: &serde_yaml::Mapping, key: &str, fallback: &str) -> (r: String)
    ensures
        r@ == text_or_else(fields_of(*fm), key@, fallback@),
{
    match get_text(fm, key) {
        Some(s) => s,
        None => fallback.to_owned(),
    }
}

/// Reads a project from the text of its index file: its name is the
/// `title` field, or else its identifier.
pub fn project_from(id: &str, content: &str) -> (p: ProjectWithContent)
    ensures
        p.id@ == id@,
        p.name@ == text_or_else(frontmatter_fields(content@), "title"@, id@),
        p.path@ == "projects/"@ + id@,
        p.created@ == text_or_else(frontmatter_fields(content@), "created"@, ""@),
        p.content@ == frame_of(content@).body,
{
    let (fm, body, _has) = parse_frontmatter(content);
    ProjectWithContent {
        id: id.to_owned(),
        name: field_or(&fm, "title", id),
        path: cat2("projects/", id),
        created: field_or(&fm, "created", ""),
        content: body,
    }
}

/// The project without the body of its index file.
pub fn project_summary(p: ProjectWithContent) -> (s: Project)
    ensures
        s.id@ == p.id@,
        s.name@ == p.name@,
        s.path@ == p.path@,
        s.created@ == p.created@,
{
    Project { id: p.id, name: p.name, path: p.path, created: p.created }
}

/// `s` without its trailing run of `c`.
pub open spec fn trim_end_char(s: Seq<char>, c: char) -> Seq<char>
    decreases s.len(),
{
    if s.len() > 0 && s.last() == c {
        trim_end_char(s.drop_last(), c)
    } else {
        s
    }
}

/// `name` with every character that is no letter or digit replaced by `-`.
pub open spec fn dashed(name: Seq<char>) -> Seq<char> {
    Seq::new(name.len(), |i: int| if alphanumeric(name[i]) { name[i] } else { '-' })
}

/// The directory name of a project called `name`: the name in lower case,
/// with `-` for what is no letter or digit, without dashes at either end.
pub open spec fn slug_of(name: Seq<char>) -> Seq<char> {
    trim_end_char(trim_start_char(dashed(lowercase(name)), '-'), '-')
}

/// Computes the directory name of a project.
pub fn project_slug(name: &str) -> (slug: String)
    ensures
        slug@ == slug_of(name@),
{
    let lower = chars_of(to_lowercase(name).as_str());
    let mut out: Vec<char> = Vec::new();
    let mut i: usize = 0;
    while i < lower.len()
        invariant
            i <= lower.len(),
            out.len() == i,
            forall|j: int| 0 <= j < i ==> out@[j] == (if alphanumeric(lower@[j]) { lower@[j] } else { '-' }),
        decreases lower.len() - i,
    {
        let c = lower[i];
        if is_alphanumeric(c) {
            out.push(c);
        } else {
            out.push('-');
        }
        i += 1;
    }
    assert(out@ =~= dashed(lower@));
    let front = trim_start_char_exec(&out, '-');
    let mut n: usize = front.len();
    assert(front@.take(n as int) =~= front@);
    while n > 0 && front[n - 1] == '-'
        invariant
            n <= front.len(),
            trim_end_char(front@, '-') == trim_end_char(front@.take(n as int), '-'),
        decreases n,
    {
        assert(front@.take(n as int).drop_last() =~= front@.take(n - 1));
        n -= 1;
    }
    proof {
        if n > 0 {
            assert(front@.take(n as int).last() == front@[n - 1]);
        }
    }
    string_of(&crate::text::take_front_exec(&front, n))
}

/// The fields of a new project's index file.
pub open spec fn new_project_fields(slug: Seq<char>, name: Seq<char>, now: Seq<char>) -> Map<
    Seq<char>,
    Field,
> {
    no_fields().insert("id"@, Field::Text(slug + "-index"@)).insert(
        "type"@,
        Field::Text("project"@),
    ).insert("title"@, Field::Text(name)).insert("created"@, Field::Text(now)).insert(
        "updated"@,
        Field::Text(now),
    )
}

/// Why a project could not be created.
#[derive(Debug, Clone)]
pub enum ProjectError {
    /// The name holds no letter or digit.
    InvalidName,
    /// The index file could not be written as YAML.
    Unwritable { detail: String },
}

/// What creating a project yields: its directory name, the text of its
/// index file, and the project.
pub struct NewProject {
    pub slug: String,
    pub text: String,
    pub frontmatter: serde_yaml::Mapping,
    pub project: Project,
}

/// Creates a project called `name` at the time with text `now`. Fails with
/// `InvalidName` exactly when the name yields an empty directory name.
pub fn create_project_at(name: &str, now: &str) -> (r: Result<NewProject, ProjectError>)
    ensures
        slug_of(name@).len() == 0 <==> r matches Err(ProjectError::InvalidName),
        r matches Ok(made) ==> {
            &&& made.slug@ == slug_of(name@)
            &&& fields_of(made.frontmatter) == new_project_fields(made.slug@, name@, now@)
            &&& serialized(made.frontmatter, task_body(name@)) == Ok::<Seq<char>, Seq<char>>(
                made.text@,
            )
            &&& made.project.id@ == made.slug@
            &&& made.project.name@ == name@
            &&& made.project.path@ == "projects/"@ + made.slug@
            &&& made.project.created@ == now@
        },
{
    let slug = project_slug(name);
    if slug.as_str().unicode_len() == 0 {
        return Err(ProjectError::InvalidName);
    }
    let mut fm = new_mapping();
    set_text(&mut fm, "id", cat2(slug.as_str(), "-index").as_str());
    set_text(&mut fm, "type", "project");
    set_text(&mut fm, "title", name);
    set_text(&mut fm, "created", now);
    set_text(&mut fm, "updated", now);
    let body = cat3("# ", name, "\n\n");
    match serialize_frontmatter(&fm, body.as_str()) {
        Ok(text) => {
            let project = Project {
                id: slug.clone(),
                name: name.to_owned(),
                path: cat2("projects/", slug.as_str()),
                created: now.to_owned(),
            };
            Ok(NewProject { slug, text, frontmatter: fm, project })
        },
        Err(detail) => Err(ProjectError::Unwritable { detail }),
    }
}

/// Replaces the body of a file at the time with text `stamp`, keeping its
/// frontmatter but for the update time: returns the text to write and the
/// frontmatter as written. Fails exactly when the frontmatter has no YAML
/// text, and then hands that frontmatter back with the reason.
pub fn replace_body_at(content: &str, body: &str, stamp: &str) -> (r: Result<
    (String, serde_yaml::Mapping),
    Unwritable,
>)
    ensures
        match r {
            Ok((text, fm)) => writes(fm, restamped_fields(content@, stamp@), body@, text@),
            Err(e) => fails_with(e, restamped_fields(content@, stamp@), body@),
        },
{
    let (mut fm, _old, _has) = parse_frontmatter(content);
    set_text(&mut fm, "updated", stamp);
    match serialize_frontmatter(&fm, body) {
        Ok(text) => Ok((text, fm)),
        Err(detail) => Err(Unwritable { frontmatter: fm, detail }),
    }
}

/// The project whose index file was just rewritten with this frontmatter
/// and body.
pub fn project_with(id: &str, fm: &serde_yaml::Mapping, body: String) -> (p: ProjectWithContent)
    ensures
        p.id@ == id@,
        p.name@ == text_or_else(fields_of(*fm), "title"@, id@),
        p.path@ == "projects/"@ + id@,
        p.created@ == text_or_else(fields_of(*fm), "created"@, ""@),
        p.content@ == body@,
{
    ProjectWithContent {
        id: id.to_owned(),
        name: field_or(fm, "title", id),
        path: cat2("projects/", id),
        created: field_or(fm, "created", ""),
        content: body,
    }
}

/// The path of a project note's file relative to the document root.
pub open spec fn project_note_path(project_id: Seq<char>, stem: Seq<char>) -> Seq<char> {
    "projects/"@ + project_id + "/notes/"@ + stem + ".md"@
}

/// Reads a note of a project from the text of its file with the stem
/// `stem`: identifier and title fall back to `fallback_id` and
/// `fallback_title`.
pub fn project_note_from(
    project_id: &str,
    stem: &str,
    content: &str,
    fallback_id: &str,
    fallback_title: &str,
) -> (n: ProjectNoteWithContent)
    ensures
        n.id@ == text_or_else(frontmatter_fields(content@), "id"@, fallback_id@),
        n.title@ == text_or_else(frontmatter_fields(content@), "title"@, fallback_title@),
        n.path@ == project_note_path(project_id@, stem@),
        n.project_id@ == project_id@,
        n.created@ == text_or_else(frontmatter_fields(content@), "created"@, ""@),
        n.updated@ == text_or_else(frontmatter_fields(content@), "updated"@, ""@),
        n.content@ == frame_of(content@).body,
{
    let (fm, body, _has) = parse_frontmatter(content);
    ProjectNoteWithContent {
        id: field_or(&fm, "id", fallback_id),
        title: field_or(&fm, "title", fallback_title),
        path: cat5("projects/", project_id, "/notes/", stem, ".md"),
        project_id: project_id.to_owned(),
        created: field_or(&fm, "created", ""),
        updated: field_or(&fm, "updated", ""),
        content: body,
    }
}

/// The note without its body.
pub fn project_note_summary(n: ProjectNoteWithContent) -> (s: ProjectNote)
    ensures
        s.id@ == n.id@,
        s.title@ == n.title@,
        s.path@ == n.path@,
        s.project_id@ == n.project_id@,
        s.created@ == n.created@,
        s.updated@ == n.updated@,
{
    ProjectNote {
        id: n.id,
        title: n.title,
        path: n.path,
        project_id: n.project_id,
        created: n.created,
        updated: n.updated,
    }
}

/// Tells whether the file with this text holds the note `note_id`: its
/// frontmatter names that identifier.
pub fn holds_project_note(content: &str, note_id: &str) -> (r: bool)
    ensures
        r == (text_at(frontmatter_fields(content@), "id"@) == Some(note_id@)),
{
    let (fm, _body, _has) = parse_frontmatter(content);
    match get_text(&fm, "id") {
        Some(id) => str_eq(id.as_str(), note_id),
        None => false,
    }
}

/// The fields of a new project note.
pub open spec fn new_project_note_fields(
    project_id: Seq<char>,
    stamp: Seq<char>,
    title: Seq<char>,
    now: Seq<char>,
) -> Map<Seq<char>, Field> {
    no_fields().insert("id"@, Field::Text(project_id + "-"@ + stamp)).insert(
        "type"@,
        Field::Text("note"@),
    ).insert("title"@, Field::Text(title)).insert("project_id"@, Field::Text(project_id)).insert(
        "created"@,
        Field::Text(now),
    ).insert("updated"@, Field::Text(now))
}

/// What creating a project note yields: the text of its file, its
/// frontmatter and the note.
pub struct NewProjectNote {
    pub text: String,
    pub frontmatter: serde_yaml::Mapping,
    pub note: ProjectNoteWithContent,
}

/// The title of a new note: the one given, or `Untitled`.
pub open spec fn title_or_untitled(title: Option<&str>) -> Seq<char> {
    match title {
        Some(t) => t@,
        None => "Untitled"@,
    }
}

/// Creates a note in a project at the time with compact text `stamp` and
/// full text `now`, titled `Untitled` where no title is given. The note's
/// file has the stem `stamp`. Fails exactly when the note's frontmatter has
/// no YAML text, and then hands that frontmatter back with the reason.
pub fn create_project_note_at(project_id: &str, title: Option<&str>, stamp: &str, now: &str) -> (r:
    Result<NewProjectNote, Unwritable>)
    ensures
        r matches Err(e) ==> fails_with(
            e,
            new_project_note_fields(project_id@, stamp@, title_or_untitled(title), now@),
            task_body(title_or_untitled(title)),
        ),
        r matches Ok(made) ==> {
            &&& writes(
                made.frontmatter,
                new_project_note_fields(project_id@, stamp@, title_or_untitled(title), now@),
                task_body(title_or_untitled(title)),
                made.text@,
            )
            &&& made.note.id@ == project_id@ + "-"@ + stamp@
            &&& made.note.title@ == title_or_untitled(title)
            &&& made.note.path@ == project_note_path(project_id@, stamp@)
            &&& made.note.project_id@ == project_id@
            &&& made.note.created@ == now@
            &&& made.note.updated@ == now@
            &&& made.note.content@ == task_body(title_or_untitled(title))
        },
{
    let t = match title {
        Some(t) => t,
        None => "Untitled",
    };
    let id = cat3(project_id, "-", stamp);
    let mut fm = new_mapping();
    set_text(&mut fm, "id", id.as_str());
    set_text(&mut fm, "type", "note");
    set_text(&mut fm, "title", t);
    set_text(&mut fm, "project_id", project_id);
    set_text(&mut fm, "created", now);
    set_text(&mut fm, "updated", now);
    let body = cat3("# ", t, "\n\n");
    match serialize_frontmatter(&fm, body.as_str()) {
        Ok(text) => {
            let note = ProjectNoteWithContent {
                id,
                title: t.to_owned(),
                path: cat5("projects/", project_id, "/notes/", stamp, ".md"),
                project_id: project_id.to_owned(),
                created: now.to_owned(),
                updated: now.to_owned(),
                content: body,
            };
            Ok(NewProjectNote { text, frontmatter: fm, note })
        },
        Err(detail) => Err(Unwritable { frontmatter: fm, detail }),
    }
}

/// Where the file of a deleted project note goes: into the archive, under
/// the project's name, a dash and the note's name.
pub fn archived_note_path(archive_dir: &str, project_id: &str, note_id: &str) -> (r: String)
    ensures
        r@ == archive_dir@ + "/"@ + project_id@ + "-"@ + note_id@ + ".md"@,
{
    cat2(cat5(archive_dir, "/", project_id, "-", note_id).as_str(), ".md")
}

/// The creation time of each note.
pub open spec fn created_of(notes: Seq<ProjectNote>) -> Seq<Seq<char>> {
    Seq::new(notes.len(), |i: int| notes[i].created@)
}

/// The notes created at `key`, in their order.
pub open spec fn created_at(notes: Seq<ProjectNote>, key: Seq<char>) -> Seq<ProjectNote> {
    notes.filter(|n: ProjectNote| n.created@ == key)
}

/// `after` is `before` in listing order: the same notes, newest first by
/// creation time, notes of one creation time in the order they had.
pub open spec fn newest_first(before: Seq<ProjectNote>, after: Seq<ProjectNote>) -> bool {
    &&& after.to_multiset() == before.to_multiset()
    &&& descending(created_of(after))
    &&& forall|key: Seq<char>| created_at(after, key) == created_at(before, key)
}

/// Puts the notes in listing order.
///
/// Trusted: calls `slice::sort_by_key`, a stable sort that rearranges the
/// items by ascending key and drops or adds none. The key is the creation
/// time under `std::cmp::Reverse`, and `String` compares by bytes, which
/// for text is the order of its characters: so the newest comes first and
/// notes of one creation time keep their order.
#[verifier::external_body]
fn sort_by_created(notes: &mut Vec<ProjectNote>)
    ensures
        newest_first(old(notes)@, final(notes)@),
{
    notes.sort_by_key(|n| std::cmp::Reverse(n.created.clone()));
}

/// Puts a project's notes in listing order: newest first by creation
/// time, notes of one creation time in the order they had. No note is lost
/// or added.
pub fn sort_project_notes(notes: Vec<ProjectNote>) -> (sorted: Vec<ProjectNote>)
    ensures
        newest_first(notes@, sorted@),
{
    let mut sorted = notes;
    sort_by_created(&mut sorted);
    sorted
}

} // verus!
