use ironpad::clock::Timestamp;
use ironpad::daily::{
    create_daily_note_at, daily_note_from, daily_summary, date_of, is_valid_date, today,
    update_daily_note_at, DailyError,
};
use ironpad::frontmatter::get_str;
use ironpad::projects::{
    archived_note_path, create_project_at, create_project_note_at, holds_project_note,
    project_from, project_note_from, project_note_summary, project_slug, project_summary,
    project_with, replace_body_at, ProjectError,
};

#[test]
fn slugs_are_lower_case_and_dashed() {
    assert_eq!(project_slug("My Project"), "my-project");
    assert_eq!(project_slug("  Hello, World!  "), "hello--world");
    assert_eq!(project_slug("Ünïcode 2"), "ünïcode-2");
    assert_eq!(project_slug("---"), "");
    assert_eq!(project_slug(""), "");
    assert_eq!(project_slug("a"), "a");
}

#[test]
fn projects_are_created_with_an_index() {
    let made = create_project_at("My Project", "NOW").unwrap();
    assert_eq!(made.slug, "my-project");
    assert_eq!(
        made.text,
        "---\nid: my-project-index\ntype: project\ntitle: My Project\ncreated: NOW\nupdated: NOW\n---\n\n# My Project\n\n"
    );
    let p = &made.project;
    assert_eq!(
        (p.id.as_str(), p.name.as_str(), p.path.as_str(), p.created.as_str()),
        ("my-project", "My Project", "projects/my-project", "NOW")
    );
    assert!(matches!(create_project_at("!!!", "NOW"), Err(ProjectError::InvalidName)));
}

#[test]
fn projects_are_read_from_their_index() {
    let p = project_from("p1", "---\ntitle: Shown\ncreated: c\n---\nbody");
    assert_eq!((p.id.as_str(), p.name.as_str(), p.path.as_str()), ("p1", "Shown", "projects/p1"));
    assert_eq!((p.created.as_str(), p.content.as_str()), ("c", "\nbody"));
    let s = project_summary(p);
    assert_eq!(s.name, "Shown");
    let bare = project_from("p1", "bare");
    assert_eq!((bare.name.as_str(), bare.created.as_str(), bare.content.as_str()), ("p1", "", "bare"));
}

#[test]
fn project_content_is_replaced() {
    let (text, fm) = replace_body_at("---\ntitle: T\ncreated: c\n---\nold", "new", "t").unwrap();
    assert_eq!(text, "---\ntitle: T\ncreated: c\nupdated: t\n---\n\nnew");
    let p = project_with("p1", &fm, "new".to_string());
    assert_eq!((p.name.as_str(), p.created.as_str(), p.content.as_str()), ("T", "c", "new"));
}

#[test]
fn project_notes() {
    let made = create_project_note_at("p", None, "20240101-100000", "NOW").unwrap();
    assert_eq!(
        made.text,
        "---\nid: p-20240101-100000\ntype: note\ntitle: Untitled\nproject_id: p\ncreated: NOW\nupdated: NOW\n---\n\n# Untitled\n\n"
    );
    assert_eq!(made.note.path, "projects/p/notes/20240101-100000.md");
    assert_eq!(made.note.content, "# Untitled\n\n");
    assert_eq!(get_str(&made.frontmatter, "project_id").as_deref(), Some("p"));
    let titled = create_project_note_at("p", Some("Plan"), "s", "n").unwrap();
    assert_eq!(titled.note.title, "Plan");
    let n = project_note_from("p", "file", &made.text, "file", "file");
    assert_eq!((n.id.as_str(), n.title.as_str()), ("p-20240101-100000", "Untitled"));
    assert_eq!(n.path, "projects/p/notes/file.md");
    assert_eq!((n.created.as_str(), n.updated.as_str()), ("NOW", "NOW"));
    let s = project_note_summary(n);
    assert_eq!(s.project_id, "p");
    let bare = project_note_from("p", "file", "bare", "file", "");
    assert_eq!((bare.id.as_str(), bare.title.as_str(), bare.content.as_str()), ("file", "", "bare"));
    assert!(holds_project_note(&made.text, "p-20240101-100000"));
    assert!(!holds_project_note("bare", "file"));
    assert_eq!(archived_note_path("/a", "p", "n1"), "/a/p-n1.md");
}

#[test]
fn daily_notes_need_a_date() {
    assert!(is_valid_date("2024-01-01"));
    assert!(is_valid_date("2024-02-29"));
    assert!(!is_valid_date("2023-02-29"));
    assert!(!is_valid_date("today"));
    assert!(!is_valid_date(""));
    assert!(daily_summary("notes", "x").is_none());
    let s = daily_summary("2024-01-01", "---\ntitle: Monday\n---\n").unwrap();
    assert_eq!(
        (s.id.as_str(), s.date.as_str(), s.path.as_str(), s.title.as_str()),
        ("daily-2024-01-01", "2024-01-01", "daily/2024-01-01.md", "Monday")
    );
    assert_eq!(daily_summary("2024-01-01", "bare").unwrap().title, "2024-01-01");
    assert_eq!(date_of(Timestamp { secs: 1_704_103_230, nanos: 0 }).as_deref(), Some("2024-01-01"));
    assert!(is_valid_date(&today().unwrap()));
}

#[test]
fn daily_notes_start_from_the_template() {
    let (text, note) = create_daily_note_at("2024-01-01", None, "NOW").unwrap();
    let body = "# Monday, January 01, 2024\n\n## Today's Focus\n\n- \n\n## Notes\n\n\n\n## Tasks\n\n- [ ] \n";
    assert_eq!(note.content, body);
    assert_eq!(
        text,
        format!(
            "---\nid: daily-2024-01-01\ntype: daily\ntitle: Monday, January 01, 2024\ndate: 2024-01-01\ncreated: NOW\nupdated: NOW\n---\n\n{}",
            body
        )
    );
    assert_eq!((note.id.as_str(), note.path.as_str()), ("daily-2024-01-01", "daily/2024-01-01.md"));
    let (_, given) = create_daily_note_at("2024-01-01", Some("mine"), "NOW").unwrap();
    assert_eq!(given.content, "mine");
    assert!(matches!(create_daily_note_at("nope", None, "NOW"), Err(DailyError::InvalidDate)));
    let read = daily_note_from("2024-01-01", &text);
    assert_eq!(get_str(&read.frontmatter, "type").as_deref(), Some("daily"));
    let (out, updated) = update_daily_note_at("2024-01-01", &text, "changed", "LATER").unwrap();
    assert!(out.ends_with("updated: LATER\n---\n\nchanged"));
    assert_eq!(updated.content, "changed");
    assert_eq!(get_str(&updated.frontmatter, "created").as_deref(), Some("NOW"));
}

#[test]
fn listings_are_sorted_newest_first() {
    let summary = |date: &str| daily_summary(date, "bare").unwrap();
    let sorted = ironpad::daily::sort_daily_notes(vec![
        summary("2024-01-02"),
        summary("2024-03-01"),
        summary("2023-12-31"),
    ]);
    let dates: Vec<&str> = sorted.iter().map(|n| n.date.as_str()).collect();
    assert_eq!(dates, vec!["2024-03-01", "2024-01-02", "2023-12-31"]);
    let note = |stem: &str, created: &str| {
        let text = format!("---\ncreated: {}\n---\n", created);
        project_note_summary(project_note_from("p", stem, &text, stem, stem))
    };
    let sorted = ironpad::projects::sort_project_notes(vec![note("a", "d1"), note("b", "d3"), note("c", "d2")]);
    let ids: Vec<&str> = sorted.iter().map(|n| n.id.as_str()).collect();
    assert_eq!(ids, vec!["b", "c", "a"]);
}

#[test]
fn equal_keys_keep_their_order_in_listings() {
    let note = |stem: &str, created: &str| {
        let text = format!("---\ncreated: {}\n---\n", created);
        project_note_summary(project_note_from("p", stem, &text, stem, stem))
    };
    let sorted = ironpad::projects::sort_project_notes(vec![
        note("a", "d1"),
        note("b", "d2"),
        note("c", "d1"),
        note("d", "d2"),
        note("e", "d10"),
    ]);
    let ids: Vec<&str> = sorted.iter().map(|n| n.id.as_str()).collect();
    assert_eq!(ids, vec!["b", "d", "e", "a", "c"]);
    let day = |date: &str, title: &str| {
        daily_summary(date, &format!("---\ntitle: {}\n---\n", title)).unwrap()
    };
    let sorted = ironpad::daily::sort_daily_notes(vec![
        day("2024-01-01", "first"),
        day("2024-01-02", "x"),
        day("2024-01-01", "second"),
    ]);
    let titles: Vec<&str> = sorted.iter().map(|n| n.title.as_str()).collect();
    assert_eq!(titles, vec!["x", "first", "second"]);
}
