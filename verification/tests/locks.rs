use ironpad::clock::Timestamp;
use ironpad::locks::{FileLockManager, LockError, LockType};

fn at(secs: i64) -> Timestamp {
    Timestamp { secs, nanos: 0 }
}

#[test]
fn acquire_on_free_path_grants_lock() {
    let mut m = FileLockManager::new();
    let lock = m.acquire_at("notes/x.md", "A", LockType::Editor, at(7)).unwrap();
    assert_eq!(lock.path, "notes/x.md");
    assert_eq!(lock.client_id, "A");
    assert_eq!(lock.lock_type, LockType::Editor);
    assert_eq!(lock.acquired_at, at(7));
    assert_eq!(m.get_all_locks().len(), 1);
}

#[test]
fn second_client_is_refused_with_holder() {
    let mut m = FileLockManager::new();
    m.acquire_at("p", "A", LockType::Editor, at(1)).unwrap();
    match m.acquire_at("p", "B", LockType::TaskView, at(2)) {
        Err(LockError::AlreadyLocked { holder, lock_type }) => {
            assert_eq!(holder, "A");
            assert_eq!(lock_type, LockType::Editor);
        }
        other => panic!("unexpected: {:?}", other),
    }
    assert!(matches!(m.release("p", "B"), Err(LockError::NotOwner)));
    let held = m.is_locked("p").unwrap();
    assert_eq!(held.client_id, "A");
    assert_eq!(held.acquired_at, at(1));
}

#[test]
fn owner_reentry_updates_kind() {
    let mut m = FileLockManager::new();
    m.acquire_at("p", "A", LockType::Editor, at(1)).unwrap();
    let again = m.acquire_at("p", "A", LockType::TaskView, at(5)).unwrap();
    assert_eq!(again.lock_type, LockType::TaskView);
    assert_eq!(m.get_all_locks().len(), 1);
    let held = m.is_locked("p").unwrap();
    assert_eq!(held.lock_type, LockType::TaskView);
    assert_eq!(held.acquired_at, at(5));
}

#[test]
fn release_errors_and_success() {
    let mut m = FileLockManager::new();
    assert!(matches!(m.release("p", "A"), Err(LockError::NotLocked)));
    m.acquire("p", "A", LockType::Editor).unwrap();
    assert!(m.release("p", "A").is_ok());
    assert!(m.is_locked("p").is_none());
    assert!(matches!(m.release("p", "A"), Err(LockError::NotLocked)));
}

#[test]
fn is_locked_by_other_probe() {
    let mut m = FileLockManager::new();
    m.acquire("p", "A", LockType::Editor).unwrap();
    assert!(m.is_locked_by_other("p", "A").is_none());
    assert_eq!(m.is_locked_by_other("p", "B").unwrap().client_id, "A");
    assert!(m.is_locked_by_other("q", "B").is_none());
    assert_eq!(m.get_all_locks().len(), 1);
}

#[test]
fn release_all_returns_exactly_owned_paths() {
    let mut m = FileLockManager::new();
    m.acquire("p1", "A", LockType::Editor).unwrap();
    m.acquire("other", "B", LockType::Editor).unwrap();
    m.acquire("p2", "A", LockType::TaskView).unwrap();
    let mut freed = m.release_all_for_client("A");
    freed.sort();
    assert_eq!(freed, vec!["p1".to_string(), "p2".to_string()]);
    assert!(m.is_locked("p1").is_none());
    assert!(m.is_locked("p2").is_none());
    assert_eq!(m.is_locked("other").unwrap().client_id, "B");
    assert!(m.release_all_for_client("A").is_empty());
}

#[test]
fn at_most_one_lock_per_path() {
    let mut m = FileLockManager::new();
    for (i, client) in ["A", "B", "C", "A", "B"].iter().enumerate() {
        let _ = m.acquire_at("p", client, LockType::Editor, at(i as i64));
        let _ = m.acquire_at("q", client, LockType::TaskView, at(i as i64));
    }
    let all = m.get_all_locks();
    assert_eq!(all.len(), 2);
    assert_ne!(all[0].path, all[1].path);
    assert!(all.iter().all(|l| l.client_id == "A"));
}

#[test]
fn refusals_have_messages() {
    let held = LockError::AlreadyLocked { holder: "A".to_string(), lock_type: LockType::TaskView };
    assert_eq!(held.message(), "File already locked by A (TaskView)");
    assert_eq!(LockError::NotLocked.message(), "File is not locked");
    assert_eq!(LockError::NotOwner.message(), "You do not own this lock");
}

#[test]
fn one_winner_among_many_clients() {
    let clients = ["c0", "c1", "c2", "c3", "c4", "c5"];
    let kinds = [LockType::TaskView, LockType::Editor];
    let mut m = FileLockManager::new();
    let mut winners = 0;
    for (i, client) in clients.iter().enumerate() {
        match m.acquire_at("p", client, kinds[i % 2], at(i as i64)) {
            Ok(lock) => {
                winners += 1;
                assert_eq!(lock.client_id, "c0");
            }
            Err(LockError::AlreadyLocked { holder, lock_type }) => {
                assert_eq!(holder, "c0");
                assert_eq!(lock_type, LockType::TaskView);
            }
            Err(other) => panic!("unexpected: {:?}", other),
        }
    }
    assert_eq!(winners, 1);
    let held = m.is_locked("p").unwrap();
    assert_eq!((held.client_id.as_str(), held.lock_type, held.acquired_at), ("c0", LockType::TaskView, at(0)));
    assert_eq!(m.get_all_locks().len(), 1);
}
