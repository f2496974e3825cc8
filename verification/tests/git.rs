use ironpad::clock::{time_text_of, Timestamp};
use ironpad::git::{
    auto_commit_note, check_conflicts, commit_all, commit_all_at, commit_detail, commit_info_at,
    credential_user, default_ignore, fetch_from_remote, get_log, get_remote_info, get_status,
    has_remote, init_repo, initial_message, log_limit, parse_diff, prefix_of, push_to_remote,
    repo_state, status_label_of, trimmed, AutoCommitNote, CommitInfo, DeltaKind,
    DiffStats, GitError, HeadCommit, IndexConflict, InitPlan, RawCommit, RawDelta, RawDiff,
    RawHunk, RawLine, RemoteRead, RepoSnapshot, RepoState, StatusEntry, StatusFlags,
};

fn flags() -> StatusFlags {
    StatusFlags {
        index_new: false,
        index_modified: false,
        index_deleted: false,
        index_renamed: false,
        wt_new: false,
        wt_modified: false,
        wt_deleted: false,
        wt_renamed: false,
        conflicted: false,
    }
}

fn entry(path: &str, f: StatusFlags) -> StatusEntry {
    StatusEntry { path: Some(path.to_string()), flags: f }
}

#[test]
fn status_labels_follow_priority() {
    assert_eq!(status_label_of(flags()), None);
    assert_eq!(status_label_of(StatusFlags { wt_new: true, ..flags() }), Some("new"));
    assert_eq!(status_label_of(StatusFlags { index_new: true, wt_modified: true, ..flags() }), Some("new"));
    assert_eq!(status_label_of(StatusFlags { index_modified: true, wt_deleted: true, ..flags() }), Some("modified"));
    assert_eq!(status_label_of(StatusFlags { wt_deleted: true, index_renamed: true, ..flags() }), Some("deleted"));
    assert_eq!(status_label_of(StatusFlags { wt_renamed: true, ..flags() }), Some("renamed"));
    assert_eq!(status_label_of(StatusFlags { conflicted: true, ..flags() }), None);
}

#[test]
fn missing_repository_is_a_normal_status() {
    let s = get_status(None);
    assert!(!s.is_repo);
    assert!(s.branch.is_none());
    assert!(s.files.is_empty());
    assert!(!s.has_changes);
    assert!(s.last_commit.is_none());
    assert_eq!(repo_state(&None), RepoState::NoRepo);
}

#[test]
fn status_lists_changed_files_and_last_commit() {
    let snapshot = RepoSnapshot {
        branch: Some("main".to_string()),
        entries: vec![
            entry("a.md", StatusFlags { wt_new: true, ..flags() }),
            entry("same.md", flags()),
            StatusEntry { path: None, flags: StatusFlags { wt_modified: true, ..flags() } },
            entry("b.md", StatusFlags { index_deleted: true, ..flags() }),
        ],
        head: Some(HeadCommit {
            id: "0123456789abcdef0123456789abcdef01234567".to_string(),
            message: Some("  Auto-save (2024-01-01 10:00)\n".to_string()),
            seconds: 1_704_103_200,
        }),
    };
    assert_eq!(repo_state(&Some(snapshot.clone())), RepoState::Dirty);
    let s = get_status(Some(snapshot));
    assert!(s.is_repo);
    assert_eq!(s.branch.as_deref(), Some("main"));
    assert!(s.has_changes);
    assert_eq!(s.files.len(), 2);
    assert_eq!((s.files[0].path.as_str(), s.files[0].status.as_str()), ("a.md", "new"));
    assert_eq!((s.files[1].path.as_str(), s.files[1].status.as_str()), ("b.md", "deleted"));
    let last = s.last_commit.unwrap();
    assert_eq!(last.id, "01234567");
    assert_eq!(last.message, "Auto-save (2024-01-01 10:00)");
    assert_eq!(last.timestamp, "2024-01-01T10:00:00+00:00");
}

#[test]
fn clean_and_conflicted_states() {
    let clean = RepoSnapshot { branch: None, entries: vec![entry("a.md", flags())], head: None };
    assert_eq!(repo_state(&Some(clean.clone())), RepoState::Clean);
    let s = get_status(Some(clean));
    assert!(s.is_repo && !s.has_changes && s.last_commit.is_none());
    let conflicted = RepoSnapshot {
        branch: None,
        entries: vec![
            entry("a.md", StatusFlags { wt_modified: true, ..flags() }),
            entry("b.md", StatusFlags { conflicted: true, ..flags() }),
        ],
        head: None,
    };
    assert_eq!(repo_state(&Some(conflicted)), RepoState::Conflicted);
}

#[test]
fn last_commit_needs_text_and_a_representable_time() {
    let head = |message: Option<&str>, seconds: i64| RepoSnapshot {
        branch: None,
        entries: vec![],
        head: Some(HeadCommit { id: "abc".to_string(), message: message.map(String::from), seconds }),
    };
    assert!(get_status(Some(head(None, 0))).last_commit.is_none());
    assert!(get_status(Some(head(Some("m"), i64::MAX))).last_commit.is_none());
    let short = get_status(Some(head(Some("m"), 0))).last_commit.unwrap();
    assert_eq!(short.id, "abc");
    assert_eq!(short.timestamp, "1970-01-01T00:00:00+00:00");
}

#[test]
fn text_helpers() {
    assert_eq!(prefix_of("0123456789", 8), "01234567");
    assert_eq!(prefix_of("abc", 8), "abc");
    assert_eq!(prefix_of("äöüäöüäöüä", 8), "äöüäöüäö");
    assert_eq!(trimmed(" \t a b \r\n"), "a b");
    assert_eq!(trimmed("\u{a0}\u{3000}x\u{2028}"), "x");
    assert_eq!(trimmed("   "), "");
    assert_eq!(time_text_of(Timestamp { secs: 1, nanos: 500_000_000 }), "1970-01-01T00:00:01.500+00:00");
    assert_eq!(time_text_of(Timestamp { secs: i64::MIN, nanos: 0 }), "Unknown");
}

#[test]
fn commit_all_commits_only_changes() {
    let at = Timestamp { secs: 1_704_103_230, nanos: 7 };
    assert_eq!(
        commit_all_at(None, "t1", None, at).unwrap(),
        "Auto-save (2024-01-01 10:00)"
    );
    assert_eq!(
        commit_all_at(Some("t0"), "t1", Some("Initial commit"), at).unwrap(),
        "Initial commit (2024-01-01 10:00)"
    );
    assert!(matches!(commit_all_at(Some("t1"), "t1", Some("x"), at), Err(GitError::NoChanges)));
    let far = Timestamp { secs: i64::MAX, nanos: 0 };
    assert_eq!(commit_all_at(None, "t1", Some("m"), far).unwrap(), "m");
}

#[test]
fn second_commit_all_finds_no_changes() {
    let mut head: Option<String> = None;
    let staged = "tree-1";
    let first = commit_all(head.as_deref(), staged, None);
    assert!(first.unwrap().starts_with("Auto-save ("));
    head = Some(staged.to_string());
    let second = commit_all(head.as_deref(), staged, None);
    assert!(matches!(second, Err(GitError::NoChanges)));
    assert_eq!(GitError::NoChanges.message(), "No changes to commit");
    assert_eq!(GitError::RepoMissing.message(), "Not a git repository");
    assert_eq!(GitError::OperationFailed { detail: "boom".to_string() }.message(), "boom");
}

#[test]
fn commit_info_shortens_the_id() {
    let info = commit_info_at(
        "fedcba9876543210fedcba9876543210fedcba98",
        "msg (2024-01-01 10:00)".to_string(),
        Timestamp { secs: 1_704_103_230, nanos: 0 },
    );
    assert_eq!(info.id, "fedcba98");
    assert_eq!(info.message, "msg (2024-01-01 10:00)");
    assert_eq!(info.timestamp, "2024-01-01T10:00:30+00:00");
}

#[test]
fn init_is_planned_once() {
    assert_eq!(init_repo(false, false), InitPlan::Create { write_ignore: true });
    assert_eq!(init_repo(false, true), InitPlan::Create { write_ignore: false });
    let mut is_repo = false;
    let mut commits = 0;
    for _ in 0..4 {
        if let InitPlan::Create { .. } = init_repo(is_repo, is_repo) {
            commits += 1;
            is_repo = true;
        }
    }
    assert_eq!(commits, 1);
    assert_eq!(init_repo(true, false), InitPlan::Nothing);
    assert_eq!(default_ignore(), "*.tmp\n.DS_Store\n");
    assert_eq!(initial_message(), "Initial commit");
}

#[test]
fn conflicts_are_listed_once() {
    let entries = vec![
        entry("a.md", StatusFlags { conflicted: true, ..flags() }),
        entry("b.md", StatusFlags { wt_modified: true, ..flags() }),
        StatusEntry { path: None, flags: StatusFlags { conflicted: true, ..flags() } },
        entry("c.md", StatusFlags { conflicted: true, ..flags() }),
        entry("a.md", StatusFlags { conflicted: true, ..flags() }),
    ];
    let index = vec![
        IndexConflict { ancestor: Some("c.md".to_string()) },
        IndexConflict { ancestor: None },
        IndexConflict { ancestor: Some("d.md".to_string()) },
        IndexConflict { ancestor: Some("d.md".to_string()) },
    ];
    assert_eq!(check_conflicts(&entries, &index), vec!["a.md", "c.md", "d.md"]);
    assert!(check_conflicts(&vec![], &vec![]).is_empty());
}

fn raw(id: &str, parents: usize) -> RawCommit {
    RawCommit {
        id: id.to_string(),
        message: Some(" hello \n".to_string()),
        author: Some("Ironpad".to_string()),
        seconds: 0,
        parent_count: parents,
        diff_files: Some(3),
        tree_blobs: Some(7),
    }
}

#[test]
fn log_entries_are_built_from_raw_commits() {
    let d = commit_detail(&raw("0123456789abcdef", 1));
    assert_eq!(d.id, "0123456789abcdef");
    assert_eq!(d.short_id, "01234567");
    assert_eq!(d.message, "hello");
    assert_eq!(d.author, "Ironpad");
    assert_eq!(d.timestamp, "1970-01-01T00:00:00+00:00");
    assert_eq!(d.files_changed, 3);
    assert_eq!(commit_detail(&raw("r", 0)).files_changed, 7);
    let bare = RawCommit {
        message: None,
        author: None,
        seconds: i64::MAX,
        diff_files: None,
        ..raw("x", 2)
    };
    let d = commit_detail(&bare);
    assert_eq!((d.message.as_str(), d.author.as_str(), d.timestamp.as_str()), ("", "Unknown", "Unknown"));
    assert_eq!(d.files_changed, 0);
}

#[test]
fn log_is_capped() {
    assert_eq!(log_limit(None), 50);
    assert_eq!(log_limit(Some(3)), 3);
    let commits: Vec<RawCommit> = (0..60).map(|i| raw(&format!("c{}", i), 1)).collect();
    let log = get_log(&commits, None);
    assert_eq!(log.len(), 50);
    assert_eq!(log[0].id, "c0");
    assert_eq!(log[49].id, "c49");
    assert_eq!(get_log(&commits, Some(2)).len(), 2);
    assert_eq!(get_log(&commits, Some(100)).len(), 60);
    assert!(get_log(&commits, Some(0)).is_empty());
}

fn line(origin: char, content: &str) -> RawLine {
    RawLine { origin, content: Some(content.to_string()) }
}

#[test]
fn diff_counts_added_and_removed_lines() {
    let diff = RawDiff {
        deltas: vec![
            RawDelta {
                new_path: Some("a.md".to_string()),
                old_path: Some("old.md".to_string()),
                kind: DeltaKind::Modified,
                hunks: vec![
                    RawHunk {
                        header: Some("@@ -1,2 +1,3 @@ title \n".to_string()),
                        lines: vec![line(' ', "x\n"), line('+', "y\n"), line('-', "z\n"), line('+', "w\n")],
                    },
                    RawHunk { header: None, lines: vec![line('+', "q\n"), RawLine { origin: '-', content: None }] },
                ],
            },
            RawDelta { new_path: None, old_path: Some("gone.md".to_string()), kind: DeltaKind::Deleted, hunks: vec![] },
            RawDelta { new_path: None, old_path: None, kind: DeltaKind::Other, hunks: vec![] },
        ],
        stats: DiffStats { files_changed: 3, insertions: 3, deletions: 2 },
    };
    let info = parse_diff(&diff);
    assert_eq!(info.stats, DiffStats { files_changed: 3, insertions: 3, deletions: 2 });
    assert_eq!(info.files.len(), 3);
    let f = &info.files[0];
    assert_eq!((f.path.as_str(), f.status.as_str(), f.additions, f.deletions), ("a.md", "modified", 3, 2));
    assert_eq!(f.hunks.len(), 2);
    assert_eq!(f.hunks[0].header, "@@ -1,2 +1,3 @@ title");
    assert_eq!(f.hunks[0].lines.len(), 4);
    assert_eq!((f.hunks[0].lines[1].origin, f.hunks[0].lines[1].content.as_str()), ('+', "y\n"));
    assert_eq!(f.hunks[1].header, "");
    assert_eq!(f.hunks[1].lines[1].content, "");
    assert_eq!((info.files[1].path.as_str(), info.files[1].status.as_str()), ("gone.md", "deleted"));
    assert_eq!((info.files[2].path.as_str(), info.files[2].status.as_str()), ("Unknown", "unknown"));
    let kinds = [
        (DeltaKind::Added, "added"),
        (DeltaKind::Renamed, "renamed"),
        (DeltaKind::Copied, "copied"),
    ];
    for (kind, label) in kinds {
        let d = RawDiff {
            deltas: vec![RawDelta { new_path: None, old_path: None, kind, hunks: vec![] }],
            stats: DiffStats { files_changed: 1, insertions: 0, deletions: 0 },
        };
        assert_eq!(parse_diff(&d).files[0].status, label);
    }
}

fn remote(url: Option<&str>) -> RemoteRead {
    RemoteRead { url: url.map(String::from), head_found: true, has_upstream: true, ahead_behind: Some((2, 1)) }
}

#[test]
fn remote_info_cases() {
    assert!(get_remote_info(None).is_none());
    assert!(get_remote_info(Some(remote(None))).is_none());
    assert!(get_remote_info(Some(remote(Some("")))).is_none());
    let info = get_remote_info(Some(remote(Some("git@host:repo.git")))).unwrap();
    assert_eq!((info.name.as_str(), info.url.as_str()), ("origin", "git@host:repo.git"));
    assert_eq!((info.has_upstream, info.ahead, info.behind), (true, 2, 1));
    let no_head = RemoteRead { head_found: false, ..remote(Some("u")) };
    let info = get_remote_info(Some(no_head)).unwrap();
    assert_eq!((info.has_upstream, info.ahead, info.behind), (false, 0, 0));
    let no_upstream = RemoteRead { has_upstream: false, ..remote(Some("u")) };
    let info = get_remote_info(Some(no_upstream)).unwrap();
    assert_eq!((info.has_upstream, info.ahead, info.behind), (false, 0, 0));
    let unknown = RemoteRead { ahead_behind: None, ..remote(Some("u")) };
    let info = get_remote_info(Some(unknown)).unwrap();
    assert_eq!((info.has_upstream, info.ahead, info.behind), (true, 0, 0));
    assert!(has_remote(&Some(remote(Some("")))));
    assert!(!has_remote(&Some(remote(None))));
    assert!(!has_remote(&None));
}

#[test]
fn push_and_fetch_fail_fast() {
    let ok = Some(remote(Some("git@host:repo.git")));
    assert_eq!(push_to_remote(Some("main"), &ok).unwrap(), "refs/heads/main:refs/heads/main");
    let detail = |r: Result<String, GitError>| match r {
        Err(GitError::OperationFailed { detail }) => detail,
        other => panic!("unexpected: {:?}", other),
    };
    assert_eq!(detail(push_to_remote(None, &ok)), "Could not get branch name");
    assert_eq!(detail(push_to_remote(Some("main"), &None)), "Remote 'origin' not found");
    assert_eq!(detail(push_to_remote(Some("main"), &Some(remote(None)))), "No remote URL configured");
    assert_eq!(detail(push_to_remote(Some("main"), &Some(remote(Some(""))))), "No remote URL configured");
    assert!(fetch_from_remote(&ok).is_ok());
    assert!(matches!(fetch_from_remote(&None), Err(GitError::OperationFailed { .. })));
    assert_eq!(credential_user(None), "git");
    assert_eq!(credential_user(Some("alice")), "alice");
}

#[test]
fn auto_commit_stays_quiet_without_changes() {
    let info = CommitInfo { id: "abc".to_string(), message: "m".to_string(), timestamp: "t".to_string() };
    assert!(matches!(
        auto_commit_note(&Ok(info)),
        AutoCommitNote::Committed { id, message } if id == "abc" && message == "m"
    ));
    assert!(matches!(auto_commit_note(&Err(GitError::NoChanges)), AutoCommitNote::Quiet));
    assert!(matches!(
        auto_commit_note(&Err(GitError::RepoMissing)),
        AutoCommitNote::Failed { detail } if detail == "Not a git repository"
    ));
}
