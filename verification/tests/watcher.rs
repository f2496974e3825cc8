use ironpad::filesystem::{prepare_atomic_write_at, WriteError};
use ironpad::hub::{WsMessage, WsState};
use ironpad::watcher::{
    check_watch_root, mark_file_saved, mark_file_saved_at, normalize_path, process_event,
    process_event_at, watched_path_of, FsEvent, FsEventKind, SaveMarkers, WatcherInitFailed,
};

fn event(kind: FsEventKind, paths: &[&str]) -> FsEvent {
    FsEvent { kind, paths: paths.iter().map(|p| p.to_string()).collect() }
}

#[test]
fn normalize_names_paths_relative_to_the_root() {
    assert_eq!(normalize_path("/home/u/data", "/home/u/data/notes/x.md"), "notes/x.md");
    assert_eq!(normalize_path("/srv/pad", "/srv/pad/notes/a.md"), "notes/a.md");
    assert_eq!(normalize_path("/srv/pad/", "/srv/pad/notes/a.md"), "notes/a.md");
    assert_eq!(normalize_path("C:\\vault\\data", "C:\\vault\\data\\notes\\x.md"), "notes/x.md");
    assert_eq!(normalize_path("C:/vault/data", "C:\\vault\\data\\notes\\x.md"), "notes/x.md");
    assert_eq!(normalize_path("../data", "../data//daily/a.md"), "daily/a.md");
    assert_eq!(normalize_path("/srv/data", "/srv/data"), "");
    assert_eq!(normalize_path("/srv/data", "/srv/data/"), "");
    assert_eq!(normalize_path("", "notes/a.md"), "notes/a.md");
}

#[test]
fn paths_outside_the_root_keep_their_components() {
    assert_eq!(normalize_path("/srv/data", "/tmp/x.md"), "/tmp/x.md");
    assert_eq!(normalize_path("/srv/data", "/srv/database/x.md"), "/srv/database/x.md");
    assert_eq!(normalize_path("/srv/data", "/srv/dat"), "/srv/dat");
    assert_eq!(normalize_path("/srv/data", "a\\b.md"), "a/b.md");
    assert_eq!(normalize_path("/srv/data", "/other/data/notes/x.md"), "/other/data/notes/x.md");
}

#[test]
fn noise_is_dropped() {
    let none: Option<String> = None;
    let seen = |paths: &[&str]| {
        watched_path_of("/r/data", &paths.iter().map(|p| p.to_string()).collect())
    };
    assert_eq!(seen(&[]), none);
    assert_eq!(seen(&["/r/data/notes/a.txt"]), none);
    assert_eq!(seen(&["/r/data/notes/.md"]), none);
    assert_eq!(seen(&["/r/data/notes/.a.md.tmp"]), none);
    assert_eq!(seen(&["/r/data/archive/a.md"]), none);
    assert_eq!(seen(&["/r/data/notes/archive/2023/a.md"]), none);
    assert_eq!(seen(&["/r/data/.git/a.md"]), none);
    assert_eq!(seen(&["/r/data/notes/a.md", "/r/data/archive/b.md"]), none);
}

#[test]
fn names_that_only_mention_excluded_directories_are_watched() {
    let seen = |path: &str| watched_path_of("/srv/data", &vec![path.to_string()]);
    assert_eq!(seen("/srv/data/notes/archive-plan.md").as_deref(), Some("notes/archive-plan.md"));
    assert_eq!(seen("/srv/data/notes/my.github.md").as_deref(), Some("notes/my.github.md"));
    assert_eq!(seen("/srv/data/archived/a.md").as_deref(), Some("archived/a.md"));
    assert_eq!(seen("/srv/data/notes/.gitignore.md").as_deref(), Some("notes/.gitignore.md"));
    let mut markers = SaveMarkers::new("/srv/data");
    let e = event(FsEventKind::Modify, &["/srv/data/notes/archive-plan.md"]);
    match process_event_at(&e, &mut markers, 0) {
        Some(WsMessage::FileModified { path }) => assert_eq!(path, "notes/archive-plan.md"),
        other => panic!("unexpected: {:?}", other),
    }
}

#[test]
fn first_markdown_path_is_watched() {
    let paths = vec![
        "/r/data/notes/a.txt".to_string(),
        "/r/data/notes/b.md".to_string(),
        "/r/data/notes/c.md".to_string(),
    ];
    assert_eq!(watched_path_of("/r/data", &paths), Some("notes/b.md".to_string()));
}

#[test]
fn a_root_of_any_name_is_suppressed_and_published_alike() {
    let mut markers = SaveMarkers::new("/srv/pad");
    assert_eq!(markers.root_str(), "/srv/pad");
    let plan = prepare_atomic_write_at(&mut markers, "/srv/pad/notes/a.md", 1000).unwrap();
    assert_eq!(plan.temp_path, "/srv/pad/notes/.a.md.tmp");
    assert_eq!(markers.saved_at("notes/a.md"), Some(1000));
    assert_eq!(markers.saved_at("srv/pad/notes/a.md"), None);
    let echo = event(FsEventKind::Modify, &["/srv/pad/notes/a.md"]);
    assert!(process_event_at(&echo, &mut markers, 1500).is_none());
    match process_event_at(&echo, &mut markers, 3000) {
        Some(WsMessage::FileModified { path }) => assert_eq!(path, "notes/a.md"),
        other => panic!("unexpected: {:?}", other),
    }
}

#[test]
fn kinds_map_to_events() {
    let mut markers = SaveMarkers::new("/r/data");
    let p = ["/r/data/notes/a.md"];
    match process_event_at(&event(FsEventKind::Create, &p), &mut markers, 0) {
        Some(WsMessage::FileCreated { path }) => assert_eq!(path, "notes/a.md"),
        other => panic!("unexpected: {:?}", other),
    }
    match process_event_at(&event(FsEventKind::Modify, &p), &mut markers, 0) {
        Some(WsMessage::FileModified { path }) => assert_eq!(path, "notes/a.md"),
        other => panic!("unexpected: {:?}", other),
    }
    match process_event_at(&event(FsEventKind::Remove, &p), &mut markers, 0) {
        Some(WsMessage::FileDeleted { path }) => assert_eq!(path, "notes/a.md"),
        other => panic!("unexpected: {:?}", other),
    }
    assert!(process_event_at(&event(FsEventKind::Other, &p), &mut markers, 0).is_none());
}

#[test]
fn echo_is_suppressed_inside_the_window_only() {
    let mut markers = SaveMarkers::new("/r/data");
    let e = event(FsEventKind::Modify, &["/r/data/daily/2024-01-01.md"]);
    mark_file_saved_at(&mut markers, "daily/2024-01-01.md", 1000);
    assert!(process_event_at(&e, &mut markers, 1000).is_none());
    assert!(process_event_at(&e, &mut markers, 1500).is_none());
    assert!(process_event_at(&e, &mut markers, 2999).is_none());
    assert!(process_event_at(&e, &mut markers, 900).is_none());
    assert!(matches!(
        process_event_at(&e, &mut markers, 3000),
        Some(WsMessage::FileModified { .. })
    ));
    let other = event(FsEventKind::Modify, &["/r/data/daily/2024-01-02.md"]);
    assert!(process_event_at(&other, &mut markers, 1500).is_some());
}

#[test]
fn markers_are_pruned_at_the_horizon() {
    let mut markers = SaveMarkers::new("/r/data");
    mark_file_saved_at(&mut markers, "a.md", 0);
    mark_file_saved_at(&mut markers, "b.md", 3000);
    mark_file_saved_at(&mut markers, "a.md", 100);
    assert_eq!(markers.saved_at("a.md"), Some(100));
    let noise = event(FsEventKind::Modify, &["/r/data/x.txt"]);
    process_event_at(&noise, &mut markers, 9000);
    assert_eq!(markers.saved_at("a.md"), Some(100));
    let e = event(FsEventKind::Modify, &["/r/data/c.md"]);
    process_event_at(&e, &mut markers, 5099);
    assert_eq!(markers.saved_at("a.md"), Some(100));
    process_event_at(&e, &mut markers, 5100);
    assert_eq!(markers.saved_at("a.md"), None);
    assert_eq!(markers.saved_at("b.md"), Some(3000));
    markers.prune(8000);
    assert_eq!(markers.saved_at("b.md"), None);
}

#[test]
fn atomic_write_echo_is_swallowed_and_outside_edit_is_published() {
    let state = WsState::new();
    let mut rx = state.tx.subscribe();
    let mut markers = SaveMarkers::new("/r/data");
    let target = "/r/data/daily/2024-01-01.md";
    let plan = prepare_atomic_write_at(&mut markers, target, 10_000).unwrap();
    assert_eq!(plan.target, target);
    assert_eq!(plan.temp_path, "/r/data/daily/.2024-01-01.md.tmp");
    assert_eq!(markers.saved_at("daily/2024-01-01.md"), Some(10_000));
    let temp = event(FsEventKind::Create, &[plan.temp_path.as_str()]);
    assert!(process_event_at(&temp, &mut markers, 10_400).is_none());
    let echo = event(FsEventKind::Modify, &[target]);
    assert!(process_event_at(&echo, &mut markers, 10_600).is_none());
    assert!(rx.try_recv().is_err());
    let mut fresh = SaveMarkers::new("/r/data");
    match process_event(&echo, &mut fresh, &state) {
        Some(WsMessage::FileModified { path }) => assert_eq!(path, "daily/2024-01-01.md"),
        other => panic!("unexpected: {:?}", other),
    }
    assert!(matches!(rx.try_recv(), Ok(WsMessage::FileModified { .. })));
    assert!(rx.try_recv().is_err());
}

#[test]
fn mark_file_saved_suppresses_the_next_notification() {
    let state = WsState::new();
    let mut rx = state.tx.subscribe();
    let mut markers = SaveMarkers::new("/r/data");
    mark_file_saved(&mut markers, "notes/x.md");
    assert!(markers.saved_at("notes/x.md").is_some());
    let e = event(FsEventKind::Modify, &["/r/data/notes/x.md"]);
    assert!(process_event(&e, &mut markers, &state).is_none());
    assert!(rx.try_recv().is_err());
    assert!(markers.now_ms() < 60_000);
}

#[test]
fn write_without_file_name_is_refused() {
    let mut markers = SaveMarkers::new("/r/data");
    assert_eq!(
        prepare_atomic_write_at(&mut markers, "/r/data/notes/", 1).unwrap_err(),
        WriteError::InvalidPath
    );
    assert_eq!(prepare_atomic_write_at(&mut markers, "", 1).unwrap_err(), WriteError::InvalidPath);
    assert_eq!(markers.saved_at(""), None);
    let plan = prepare_atomic_write_at(&mut markers, "x.md", 1).unwrap();
    assert_eq!(plan.temp_path, ".x.md.tmp");
}

#[test]
fn watcher_needs_its_root() {
    assert!(check_watch_root("/r/data", true).is_ok());
    let err = check_watch_root("/r/data", false).unwrap_err();
    assert_eq!(err.message(), "Data directory does not exist: /r/data");
    let refused = WatcherInitFailed::WatchFailed { detail: "no inotify".to_string() };
    assert_eq!(refused.message(), "Failed to watch directory: no inotify");
    let broken = WatcherInitFailed::CreateFailed { detail: "x".to_string() };
    assert_eq!(broken.message(), "Failed to create file watcher: x");
}

#[test]
fn clock_readings_saturate() {
    assert_eq!(ironpad::watcher::clip_millis(0), 0);
    assert_eq!(ironpad::watcher::clip_millis(1_500), 1_500);
    assert_eq!(ironpad::watcher::clip_millis(u64::MAX as u128), u64::MAX);
    assert_eq!(ironpad::watcher::clip_millis(u64::MAX as u128 + 1), u64::MAX);
    assert_eq!(ironpad::watcher::clip_millis(u128::MAX), u64::MAX);
}
