use ironpad::frontmatter::{
    derive_id_from_path, ensure_frontmatter, ensure_frontmatter_at, frame_frontmatter,
    generate_frontmatter, generate_frontmatter_at, get_bool, get_bool_or, get_str, get_str_or,
    get_string_seq, get_u64, is_frontmatter_complete, parse_frontmatter, serialize_frontmatter,
    split_frontmatter, update_frontmatter, update_frontmatter_at,
};
use serde_yaml::Value;

#[test]
fn test_parse_frontmatter_with_frontmatter() {
    let content = "---\nid: test\ntitle: Test Note\n---\n\nBody content";
    let (fm, body, has_fm) = parse_frontmatter(content);

    assert!(has_fm);
    assert_eq!(fm.get(&Value::from("id")).unwrap().as_str().unwrap(), "test");
    assert_eq!(fm.get(&Value::from("title")).unwrap().as_str().unwrap(), "Test Note");
    assert!(body.contains("Body content"));
}

#[test]
fn test_parse_frontmatter_without_frontmatter() {
    let content = "Just some content without frontmatter";
    let (fm, body, has_fm) = parse_frontmatter(content);

    assert!(!has_fm);
    assert!(fm.is_empty());
    assert_eq!(body, content);
}

#[test]
fn broken_yaml_reads_as_empty_mapping() {
    let (fm, body, has_fm) = parse_frontmatter("---\n: [\n---\nbody");
    assert!(has_fm && fm.is_empty());
    assert_eq!(body, "\nbody");
    let (fm, _, has_fm) = parse_frontmatter("---\n- a\n- b\n---\n");
    assert!(has_fm && fm.is_empty());
}

#[test]
fn field_getters_read_by_kind() {
    let text = "---\ntitle: T\ndone: true\nn: 7\nneg: -1\ntags: [a, 3, b]\nnested: {k: v}\n---\n";
    let (fm, _, _) = parse_frontmatter(text);
    assert_eq!(get_str(&fm, "title"), Some("T".to_string()));
    assert_eq!(get_str(&fm, "done"), None);
    assert_eq!(get_str(&fm, "missing"), None);
    assert_eq!(get_str_or(&fm, "title", "d"), "T");
    assert_eq!(get_str_or(&fm, "n", "d"), "d");
    assert_eq!(get_bool(&fm, "done"), Some(true));
    assert_eq!(get_bool(&fm, "title"), None);
    assert!(get_bool_or(&fm, "missing", true));
    assert!(get_bool_or(&fm, "done", false));
    assert_eq!(get_u64(&fm, "n"), Some(7));
    assert_eq!(get_u64(&fm, "neg"), None);
    assert_eq!(get_u64(&fm, "title"), None);
    assert_eq!(get_string_seq(&fm, "tags"), vec!["a", "b"]);
    assert!(get_string_seq(&fm, "title").is_empty());
    assert!(get_string_seq(&fm, "missing").is_empty());
}

#[test]
fn generated_frontmatter_has_the_owned_fields() {
    let fm = generate_frontmatter_at("data", "data/notes/x.md", "note", "2024-01-01T00:00:00+00:00");
    assert_eq!(fm.len(), 4);
    assert_eq!(get_str(&fm, "id"), Some("x".to_string()));
    assert_eq!(get_str(&fm, "type"), Some("note".to_string()));
    assert_eq!(get_str(&fm, "created"), Some("2024-01-01T00:00:00+00:00".to_string()));
    assert_eq!(get_str(&fm, "updated"), get_str(&fm, "created"));
    assert!(is_frontmatter_complete(&fm));
    let now = generate_frontmatter("data", "data/notes/x.md", "note");
    assert!(is_frontmatter_complete(&now));
    assert!(get_str(&now, "created").unwrap().starts_with("20"));
}

#[test]
fn ensure_keeps_user_fields_and_fills_the_rest() {
    let (mut fm, _, _) = parse_frontmatter("---\ntitle: Mine\ncreated: old\nextra: {a: 1}\n---\n");
    assert!(!is_frontmatter_complete(&fm));
    ensure_frontmatter_at(&mut fm, "data", "data/notes/n.md", "now");
    assert!(is_frontmatter_complete(&fm));
    assert_eq!(get_str(&fm, "id"), Some("n".to_string()));
    assert_eq!(get_str(&fm, "created"), Some("old".to_string()));
    assert_eq!(get_str(&fm, "updated"), Some("now".to_string()));
    assert_eq!(get_str(&fm, "title"), Some("Mine".to_string()));
    assert!(fm.get("extra").unwrap().is_mapping());
    update_frontmatter_at(&mut fm, "later");
    assert_eq!(get_str(&fm, "updated"), Some("later".to_string()));
    assert_eq!(get_str(&fm, "created"), Some("old".to_string()));
    assert_eq!(fm.len(), 5);
    let mut empty = serde_yaml::Mapping::new();
    ensure_frontmatter(&mut empty, "data", "data/notes/e.md");
    assert!(is_frontmatter_complete(&empty));
    let before = get_str(&empty, "created");
    update_frontmatter(&mut empty);
    assert_eq!(get_str(&empty, "created"), before);
}

#[test]
fn serialize_frames_yaml_and_body() {
    let (fm, _, _) = parse_frontmatter("---\nid: a\nn: 2\n---\n");
    let text = serialize_frontmatter(&fm, "\n  Body").unwrap();
    assert_eq!(text, "---\nid: a\nn: 2\n---\n\nBody");
    let (again, body, has_fm) = parse_frontmatter(&text);
    assert!(has_fm);
    assert_eq!(again, fm);
    assert_eq!(body, "\n\nBody");
}

#[test]
fn test_derive_id_from_path() {
    assert_eq!(derive_id_from_path("data", "data/notes/my-note.md"), "my-note");
    assert_eq!(derive_id_from_path("data", "data/projects/myproject/index.md"), "myproject-index");
}

#[test]
fn derive_id_edge_cases() {
    assert_eq!(derive_id_from_path("/root/data", "/root/data/inbox.md"), "inbox");
    assert_eq!(derive_id_from_path("/srv/pad", "/srv/pad/notes/my-note.md"), "my-note");
    assert_eq!(derive_id_from_path("C:\\v\\data", "C:\\v\\data\\notes\\sub\\a.md"), "sub-a");
    assert_eq!(derive_id_from_path("", "notes/a.md.md"), "a");
    assert_eq!(derive_id_from_path("", "notes//x.mdy.md"), "xy");
    assert_eq!(derive_id_from_path("data", "data"), "");
    assert_eq!(derive_id_from_path("data", ""), "");
    assert_eq!(derive_id_from_path("data", "data/notes/.md"), "");
    assert_eq!(derive_id_from_path("/srv/data", "/srv/database/x.md"), "database-x");
}

#[test]
fn split_frames_exactly() {
    assert_eq!(
        split_frontmatter("---\na: 1\n---\nbody---tail"),
        ("\na: 1\n".to_string(), "\nbody---tail".to_string(), true)
    );
    assert_eq!(split_frontmatter("---\nopen"), ("\nopen".to_string(), String::new(), true));
    assert_eq!(split_frontmatter("---"), (String::new(), String::new(), true));
    assert_eq!(split_frontmatter("------"), (String::new(), String::new(), true));
    assert_eq!(split_frontmatter(""), (String::new(), String::new(), false));
    assert_eq!(split_frontmatter(" ---\nx"), (String::new(), " ---\nx".to_string(), false));
}

#[test]
fn frame_and_split_round_trip() {
    let text = frame_frontmatter("id: a\n", "\n\n  Body\n");
    assert_eq!(text, "---\nid: a\n---\n\nBody\n");
    let (yaml, body, has_fm) = split_frontmatter(&text);
    assert_eq!((yaml.as_str(), body.as_str(), has_fm), ("\nid: a\n", "\n\nBody\n", true));
}
