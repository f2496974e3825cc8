use ironpad::clock::{stamps_at, stamps_now, Timestamp};
use ironpad::frontmatter::{get_str, get_string_seq, get_u64, parse_frontmatter};
use ironpad::tasks::{
    archived_task_path, calculate_next_due_date, create_recurring_task_at, create_task_at,
    extract_task_fields, get_tasks_dir, holds_task, parse_task_file, read_task_with_content,
    sort_tasks, toggle_task_at, update_task_content_at, update_task_meta_at, Task,
    UpdateTaskMetaRequest,
};

#[test]
fn task_fields_have_defaults() {
    let t = parse_task_file("no frontmatter", "/r/data/projects/p/tasks/task-1.md", "p").unwrap();
    assert_eq!((t.id.as_str(), t.title.as_str(), t.section.as_str()), ("task-1", "Untitled", "Active"));
    assert!(!t.completed && t.is_active);
    assert!(t.priority.is_none() && t.due_date.is_none() && t.parent_id.is_none());
    assert!(t.tags.is_empty() && t.recurrence.is_none() && t.recurrence_interval.is_none());
    assert_eq!(t.project_id, "p");
    assert_eq!(t.path, "projects/p/tasks/task-1.md");
    assert_eq!((t.created.as_str(), t.updated.as_str()), ("", ""));
}

#[test]
fn task_fields_are_read_from_frontmatter() {
    let text = "---\nid: p-task-1\ntitle: Do it\ncompleted: true\nsection: Completed\npriority: high\n\
due_date: 2024-02-01\nis_active: false\ntags: [a, b]\nparent_id: up\nrecurrence: weekly\n\
recurrence_interval: 2\ncreated: c\nupdated: u\n---\n\nBody";
    let (fm, body, _) = parse_frontmatter(text);
    let t = extract_task_fields(&fm, "x/task-1.md", "p");
    assert_eq!((t.id.as_str(), t.title.as_str(), t.section.as_str()), ("p-task-1", "Do it", "Completed"));
    assert!(t.completed && !t.is_active);
    assert_eq!(t.priority.as_deref(), Some("high"));
    assert_eq!(t.due_date.as_deref(), Some("2024-02-01"));
    assert_eq!(t.tags, vec!["a", "b"]);
    assert_eq!(t.parent_id.as_deref(), Some("up"));
    assert_eq!((t.recurrence.as_deref(), t.recurrence_interval), (Some("weekly"), Some(2)));
    assert_eq!((t.created.as_str(), t.updated.as_str()), ("c", "u"));
    let full = read_task_with_content(text, "x/task-1.md", "p").unwrap();
    assert_eq!(full.content, body);
    assert_eq!(full.id, "p-task-1");
    assert!(holds_task(text, "p-task-1"));
    assert!(!holds_task(text, "task-1"));
    assert!(!holds_task("bare", "anything"));
    assert_eq!(get_tasks_dir("/r/data", "p"), "/r/data/projects/p/tasks");
}

#[test]
fn created_tasks_start_active() {
    let made = create_task_at("p", "Write", None, Some("up"), "20240101-100000", "NOW").unwrap();
    assert_eq!(made.stem, "task-20240101-100000");
    assert_eq!(
        made.text,
        "---\nid: p-task-20240101-100000\ntype: task\ntitle: Write\ncompleted: false\nsection: Active\n\
priority: normal\nis_active: true\nproject_id: p\nparent_id: up\ncreated: NOW\nupdated: NOW\n---\n\n# Write\n\n"
    );
    let t = &made.task;
    assert_eq!((t.id.as_str(), t.title.as_str(), t.section.as_str()), ("p-task-20240101-100000", "Write", "Active"));
    assert_eq!(t.path, "projects/p/tasks/task-20240101-100000.md");
    assert_eq!(t.priority.as_deref(), Some("normal"));
    assert_eq!(t.parent_id.as_deref(), Some("up"));
    assert_eq!(t.content, "# Write\n\n");
    assert_eq!((t.created.as_str(), t.updated.as_str()), ("NOW", "NOW"));
    let other = create_task_at("p", "W", Some("Backlog"), None, "s", "n").unwrap();
    assert_eq!(other.task.section, "Backlog");
    assert!(get_str(&other.frontmatter, "parent_id").is_none());
}

#[test]
fn toggling_moves_between_sections() {
    let text = "---\ntitle: T\ncompleted: false\nsection: Active\n---\nbody";
    let (out, fm, next) = toggle_task_at(text, "t1").unwrap();
    assert_eq!(out, "---\ntitle: T\ncompleted: true\nsection: Completed\nupdated: t1\n---\n\nbody");
    assert_eq!(get_str(&fm, "section").as_deref(), Some("Completed"));
    assert!(next.is_none());
    let (back, _, next) = toggle_task_at(&out, "t2").unwrap();
    assert_eq!(back, "---\ntitle: T\ncompleted: false\nsection: Active\nupdated: t2\n---\n\nbody");
    assert!(next.is_none());
}

#[test]
fn completing_a_recurring_task_asks_for_its_continuation() {
    let text = "---\ntitle: Water\nrecurrence: daily\ndue_date: 2024-01-31\ntags: [home]\n---\n";
    let (_, _, next) = toggle_task_at(text, "t").unwrap();
    let rec = next.unwrap();
    assert_eq!((rec.rule.as_str(), rec.interval, rec.title.as_str()), ("daily", 1, "Water"));
    assert_eq!(rec.due_date.as_deref(), Some("2024-01-31"));
    assert_eq!(rec.tags, vec!["home"]);
    let done = "---\ncompleted: true\nrecurrence: daily\nrecurrence_interval: 3\n---\n";
    let (_, _, next) = toggle_task_at(done, "t").unwrap();
    assert!(next.is_none());
}

#[test]
fn next_due_dates() {
    let due = |d: Option<&str>, rule: &str, n: u64| calculate_next_due_date(d, rule, n, "2024-03-10");
    assert_eq!(due(Some("2024-01-31"), "daily", 1).as_deref(), Some("2024-02-01"));
    assert_eq!(due(Some("2024-01-31"), "weekly", 2).as_deref(), Some("2024-02-14"));
    assert_eq!(due(Some("2024-01-31"), "monthly", 1).as_deref(), Some("2024-02-29"));
    assert_eq!(due(Some("2024-02-29"), "yearly", 1).as_deref(), Some("2025-02-28"));
    assert_eq!(due(None, "daily", 5).as_deref(), Some("2024-03-15"));
    assert_eq!(due(Some("soon"), "daily", 1).as_deref(), Some("2024-03-11"));
    assert_eq!(due(Some("2024-01-31"), "hourly", 1), None);
    assert_eq!(due(Some("2024-01-31"), "daily", u64::MAX), None);
    assert_eq!(due(Some("2024-01-31"), "weekly", u64::MAX / 2), None);
    assert_eq!(due(Some("2024-01-31"), "monthly", u64::MAX), None);
    assert_eq!(due(Some("2024-01-31"), "yearly", 400_000_000), None);
    assert_eq!(due(Some("2024-01-31"), "daily", 0).as_deref(), Some("2024-01-31"));
}

#[test]
fn recurring_tasks_carry_rule_and_tags() {
    let tags = vec!["home".to_string(), "plants".to_string()];
    let made =
        create_recurring_task_at("p", "Water", Some("2024-02-01"), "daily", 1, &tags, "S", "NOW").unwrap();
    assert_eq!(made.stem, "task-S-r");
    assert_eq!(made.task.id, "p-task-S-r");
    assert_eq!(made.task.path, "projects/p/tasks/task-S-r.md");
    assert_eq!(made.task.tags, tags);
    assert_eq!(made.task.due_date.as_deref(), Some("2024-02-01"));
    assert_eq!((made.task.recurrence.as_deref(), made.task.recurrence_interval), (Some("daily"), Some(1)));
    assert_eq!(get_u64(&made.frontmatter, "recurrence_interval"), Some(1));
    assert_eq!(get_string_seq(&made.frontmatter, "tags"), tags);
    let bare = create_recurring_task_at("p", "W", None, "weekly", 2, &vec![], "S", "NOW").unwrap();
    assert!(get_str(&bare.frontmatter, "due_date").is_none());
    assert!(!bare.frontmatter.contains_key("tags"));
}

fn no_change() -> UpdateTaskMetaRequest {
    UpdateTaskMetaRequest {
        title: None,
        section: None,
        priority: None,
        due_date: None,
        is_active: None,
        tags: None,
        recurrence: None,
        recurrence_interval: None,
    }
}

#[test]
fn metadata_changes_only_what_is_given() {
    let text = "---\ntitle: T\nrecurrence: daily\nrecurrence_interval: 2\nkeep: me\n---\nbody";
    let (out, fm) = update_task_meta_at(text, &no_change(), "t").unwrap();
    assert_eq!(out, "---\ntitle: T\nrecurrence: daily\nrecurrence_interval: 2\nkeep: me\nupdated: t\n---\n\nbody");
    assert_eq!(get_str(&fm, "keep").as_deref(), Some("me"));
    let meta = UpdateTaskMetaRequest {
        title: Some("New".to_string()),
        is_active: Some(false),
        tags: Some(vec!["x".to_string()]),
        recurrence: Some(String::new()),
        ..no_change()
    };
    let (_, fm) = update_task_meta_at(text, &meta, "t").unwrap();
    assert_eq!(get_str(&fm, "title").as_deref(), Some("New"));
    assert_eq!(get_string_seq(&fm, "tags"), vec!["x"]);
    assert!(!fm.contains_key("recurrence") && !fm.contains_key("recurrence_interval"));
    let meta = UpdateTaskMetaRequest {
        recurrence: Some(String::new()),
        recurrence_interval: Some(4),
        ..no_change()
    };
    let (_, fm) = update_task_meta_at(text, &meta, "t").unwrap();
    assert!(!fm.contains_key("recurrence"));
    assert_eq!(get_u64(&fm, "recurrence_interval"), Some(4));
}

#[test]
fn content_updates_keep_frontmatter() {
    let text = "---\nid: k\ntitle: T\n---\nold";
    let (out, _, task) = update_task_content_at(text, "new body", "x/task-1.md", "p", "t").unwrap();
    assert_eq!(out, "---\nid: k\ntitle: T\nupdated: t\n---\n\nnew body");
    assert_eq!((task.id.as_str(), task.updated.as_str(), task.content.as_str()), ("k", "t", "new body"));
    assert_eq!(archived_task_path("/r/data/archive", "p", "task-1.md"), "/r/data/archive/p-task-1.md");
}

fn task(created: &str, id: &str) -> Task {
    let text = format!("---\nid: {}\ncreated: {}\n---\n", id, created);
    parse_task_file(&text, "t.md", "p").unwrap()
}

#[test]
fn tasks_are_listed_newest_first() {
    let sorted = sort_tasks(vec![task("2024-01-02", "b"), task("2024-01-03", "c"), task("2024-01-01", "a"), task("2024-01-02", "b2")]);
    let ids: Vec<&str> = sorted.iter().map(|t| t.id.as_str()).collect();
    assert_eq!(ids, vec!["c", "b", "b2", "a"]);
}

#[test]
fn stamps_name_files_and_fields() {
    let (compact, full) = stamps_at(Timestamp { secs: 1_704_103_230, nanos: 0 }).unwrap();
    assert_eq!(compact, "20240101-100030");
    assert_eq!(full, "2024-01-01T10:00:30+00:00");
    assert!(stamps_at(Timestamp { secs: i64::MAX, nanos: 0 }).is_none());
    let (compact, full) = stamps_now().unwrap();
    assert_eq!(compact.len(), 15);
    assert!(full.contains('T'));
}
