use ironpad::search::{
    extract_title_from_path, group_tool_matches, is_blank, is_searchable, search_content,
    search_manual, search_notes, NoteFile, ToolMatch,
};

fn file(path: &str, content: &str) -> NoteFile {
    NoteFile { path: path.to_string(), content: content.to_string() }
}

#[test]
fn titles_come_from_file_stems() {
    assert_eq!(extract_title_from_path("notes/my-note.md"), "my-note");
    assert_eq!(extract_title_from_path("a.b.md"), "a.b");
    assert_eq!(extract_title_from_path("notes/.hidden"), ".hidden");
    assert_eq!(extract_title_from_path("notes/plain"), "plain");
    assert_eq!(extract_title_from_path("notes/"), "Untitled");
    assert_eq!(extract_title_from_path(""), "Untitled");
    assert_eq!(extract_title_from_path("a/.."), "Untitled");
}

#[test]
fn matching_ignores_case_and_numbers_lines_from_one() {
    let found = search_content("Alpha\r\n  beta HELLO \nhello\n\nno", "hello");
    assert_eq!(found.len(), 2);
    assert_eq!((found[0].line_number, found[0].line_content.as_str()), (2, "beta HELLO"));
    assert_eq!((found[1].line_number, found[1].line_content.as_str()), (3, "hello"));
    assert!(search_content("", "x").is_empty());
    assert_eq!(search_content("x", "x").len(), 1);
    assert_eq!(search_content("a\rx", "a\rx")[0].line_number, 1);
}

#[test]
fn matches_per_file_are_capped_at_five() {
    let content = "x\n".repeat(9);
    let found = search_content(&content, "x");
    assert_eq!(found.len(), 5);
    assert_eq!(found[4].line_number, 5);
}

#[test]
fn manual_search_skips_ignored_and_non_markdown() {
    let files = vec![
        file("/r/data/notes/a.md", "nothing\nFind ME here"),
        file("/r/data/archive/b.md", "find me"),
        file("/r/data/notes/c.txt", "find me"),
        file("/r/data/notes/d.md", "other"),
        file("/r/data/projects/p/index.md", "find me too"),
    ];
    let results = search_manual("/r/data", "FIND me", &files);
    assert_eq!(results.len(), 2);
    assert_eq!((results[0].path.as_str(), results[0].title.as_str()), ("notes/a.md", "a"));
    assert_eq!(results[0].matches[0].line_number, 2);
    assert_eq!(results[0].matches[0].line_content, "Find ME here");
    assert_eq!(results[1].path, "projects/p/index.md");
    assert!(is_searchable("/r/data/notes/a.md"));
    assert!(!is_searchable("/r/data/assets/a.md"));
    assert!(!is_searchable("/r/data/.git/a.md"));
    assert!(is_searchable("/r/data/archived/a.md"));
}

#[test]
fn tool_matches_are_grouped_by_file() {
    let found = vec![
        ToolMatch { path: "/r/data/notes/a.md".to_string(), line_number: 3, line: "  x \n".to_string() },
        ToolMatch { path: "/r/data/notes/b.md".to_string(), line_number: 1, line: "y".to_string() },
        ToolMatch { path: "/r/data/notes/a.md".to_string(), line_number: u64::MAX, line: "z".to_string() },
    ];
    let results = group_tool_matches("/r/data", &found);
    assert_eq!(results.len(), 2);
    assert_eq!((results[0].path.as_str(), results[0].title.as_str()), ("notes/a.md", "a"));
    assert_eq!(results[0].matches.len(), 2);
    assert_eq!((results[0].matches[0].line_number, results[0].matches[0].line_content.as_str()), (3, "x"));
    assert_eq!(results[0].matches[1].line_number, u32::MAX);
    assert_eq!(results[1].path, "notes/b.md");
}

#[test]
fn search_notes_prefers_the_tool_and_ignores_blank_queries() {
    let files = vec![file("/r/data/notes/a.md", "needle")];
    let tool = vec![ToolMatch { path: "/r/data/notes/t.md".to_string(), line_number: 1, line: "needle".to_string() }];
    assert!(is_blank("  \t"));
    assert!(!is_blank(" a "));
    assert!(search_notes("/r/data", "   ", Some(tool.clone()), &files).is_empty());
    assert!(search_notes("/r/data", "", None, &files).is_empty());
    let by_tool = search_notes("/r/data", "needle", Some(tool), &files);
    assert_eq!(by_tool[0].path, "notes/t.md");
    let by_hand = search_notes("/r/data", "NEEDLE", None, &files);
    assert_eq!(by_hand[0].path, "notes/a.md");
    assert!(search_notes("/r/data", "needle", Some(vec![]), &files).is_empty());
}
