use ironpad::config::{production_marker, resolve_data_dir};
use ironpad::frontmatter::get_str;
use ironpad::notes::{
    archive_target, create_note_at, holds_note, is_listed_note, parse_note_summary, read_note,
    update_note_at,
};

#[test]
fn summaries_fall_back_to_the_path() {
    let s = parse_note_summary("/r/data", "/r/data/notes/my-note.md", "no frontmatter");
    assert_eq!(
        (s.id.as_str(), s.title.as_str(), s.path.as_str(), s.note_type.as_str()),
        ("my-note", "my-note", "notes/my-note.md", "note")
    );
    assert_eq!(s.updated, None);
    let text = "---\nid: custom\ntitle: Shown\ntype: project\nupdated: u\n---\nbody";
    let s = parse_note_summary("/r/data", "/r/data/projects/p/index.md", text);
    assert_eq!(
        (s.id.as_str(), s.title.as_str(), s.path.as_str(), s.note_type.as_str()),
        ("custom", "Shown", "projects/p/index.md", "project")
    );
    assert_eq!(s.updated.as_deref(), Some("u"));
}

#[test]
fn notes_are_listed_by_place() {
    assert!(is_listed_note("/r/data/notes/a.md", "/r/data"));
    assert!(is_listed_note("/r/data/inbox.md", "/r/data"));
    assert!(is_listed_note("/r/data/projects/p/index.md", "/r/data"));
    assert!(!is_listed_note("/r/data/notes/a.txt", "/r/data"));
    assert!(!is_listed_note("/r/data/archive/a.md", "/r/data"));
    assert!(!is_listed_note("/r/data/notes/assets/a.md", "/r/data"));
    assert!(!is_listed_note("/r/data/daily/2024-01-01.md", "/r/data"));
}

#[test]
fn notes_are_read_by_identifier() {
    let text = "---\nid: abc\ntype: note\n---\n\n  Body\n";
    assert!(holds_note("/r/data", "/r/data/notes/x.md", text, "abc"));
    assert!(!holds_note("/r/data", "/r/data/notes/x.md", text, "x"));
    assert!(holds_note("/r/data", "/r/data/notes/x.md", "plain", "x"));
    assert!(read_note("/r/data", "/r/data/notes/x.md", text, "other").is_none());
    let n = read_note("/r/data", "/r/data/notes/x.md", text, "abc").unwrap();
    assert_eq!((n.id.as_str(), n.path.as_str(), n.note_type.as_str()), ("abc", "notes/x.md", "note"));
    assert_eq!(n.content, "Body\n");
    assert_eq!(get_str(&n.frontmatter, "id").as_deref(), Some("abc"));
}

#[test]
fn new_notes_are_empty_and_complete() {
    let (path, text, note) = create_note_at("/r/data", "/r/data/notes", "20240101-100000", "NOW").unwrap();
    assert_eq!(path, "/r/data/notes/20240101-100000.md");
    assert_eq!(note.id, "20240101-100000");
    assert_eq!(note.path, "notes/20240101-100000.md");
    assert_eq!(note.note_type, "note");
    assert_eq!(note.content, "");
    assert_eq!(
        text,
        "---\nid: 20240101-100000\ntype: note\ncreated: NOW\nupdated: NOW\n---\n\n"
    );
}

#[test]
fn updates_preserve_user_fields() {
    let old = "---\nid: k\ncreated: c\nupdated: u\ntitle: Mine\n---\nold body";
    assert!(update_note_at("/r/data", "/r/data/notes/x.md", old, "other", "new", "t").is_none());
    let (text, note) = update_note_at("/r/data", "/r/data/notes/x.md", old, "k", "\n new body", "t").unwrap().unwrap();
    assert_eq!(text, "---\nid: k\ncreated: c\nupdated: t\ntitle: Mine\n---\n\nnew body");
    assert_eq!(note.content, "\n new body");
    assert_eq!(note.id, "k");
    let (text, note) = update_note_at("/r/data", "/r/data/notes/x.md", "bare", "x", "b", "t").unwrap().unwrap();
    assert_eq!(text, "---\nid: x\ncreated: t\nupdated: t\n---\n\nb");
    assert_eq!(note.note_type, "note");
}

#[test]
fn archive_keeps_the_file_name() {
    assert_eq!(archive_target("/r/data/archive", "/r/data/notes/a.md").as_deref(), Some("/r/data/archive/a.md"));
    assert_eq!(archive_target("/r/data/archive", "/r/data/notes/"), None);
}

#[test]
fn data_dir_resolution_order() {
    assert_eq!(resolve_data_dir(Some("/custom"), true, "/opt/app"), "/custom");
    assert_eq!(resolve_data_dir(None, true, "/opt/app"), "/opt/app/data");
    assert_eq!(resolve_data_dir(None, false, "/opt/app"), "../data");
    assert_eq!(production_marker("/opt/app"), "/opt/app/static/index.html");
}
