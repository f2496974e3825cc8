use ironpad::clock::Timestamp;
use ironpad::hub::{
    close_session, handle_client_message, handle_client_message_at, handle_inbound,
    lock_type_str, open_session, open_session_as, parse_lock_type, unlock_events, ClientMessage,
    ClientSet, InboundFrame, WsMessage, WsState,
};
use ironpad::locks::{LockError, LockType};

fn lock_request(path: &str, kind: &str) -> ClientMessage {
    ClientMessage::LockFile { path: path.to_string(), lock_type: kind.to_string() }
}

#[test]
fn lock_type_names_round_trip() {
    assert_eq!(parse_lock_type("editor"), Some(LockType::Editor));
    assert_eq!(parse_lock_type("task_view"), Some(LockType::TaskView));
    assert_eq!(parse_lock_type("Editor"), None);
    assert_eq!(parse_lock_type(""), None);
    assert_eq!(lock_type_str(LockType::Editor), "editor");
    assert_eq!(lock_type_str(LockType::TaskView), "task_view");
    for kind in [LockType::Editor, LockType::TaskView] {
        assert_eq!(parse_lock_type(lock_type_str(kind)), Some(kind));
    }
}

#[test]
fn client_set_behaves_as_a_set() {
    let mut s = ClientSet::new();
    assert!(!s.contains("a"));
    assert!(s.insert("a"));
    assert!(!s.insert("a"));
    assert!(s.insert("b"));
    assert!(s.contains("a"));
    assert!(s.remove("a"));
    assert!(!s.remove("a"));
    assert!(!s.contains("a"));
    assert!(s.contains("b"));
}

#[test]
fn open_session_registers_client_and_acknowledges() {
    let mut state = WsState::new();
    let mut rx = state.tx.subscribe();
    let (id, ack) = open_session(&mut state).unwrap();
    assert_eq!(id.len(), 36);
    assert!(state.clients.contains(&id));
    match ack {
        WsMessage::Connected { client_id } => assert_eq!(client_id, id),
        other => panic!("unexpected: {:?}", other),
    }
    assert!(rx.try_recv().is_err());
    let (other_id, _) = open_session(&mut state).unwrap();
    assert_ne!(id, other_id);
    assert!(state.clients.contains(&other_id));
}

#[test]
fn lock_request_publishes_file_locked() {
    let mut state = WsState::new();
    let mut rx = state.tx.subscribe();
    let at = Timestamp { secs: 10, nanos: 5 };
    let event = handle_client_message_at(&mut state, "A", lock_request("notes/x.md", "editor"), at);
    match event {
        Some(WsMessage::FileLocked { path, client_id, lock_type }) => {
            assert_eq!(path, "notes/x.md");
            assert_eq!(client_id, "A");
            assert_eq!(lock_type, "editor");
        }
        other => panic!("unexpected: {:?}", other),
    }
    assert!(matches!(rx.try_recv(), Ok(WsMessage::FileLocked { .. })));
    assert!(rx.try_recv().is_err());
    assert_eq!(state.lock_manager.is_locked("notes/x.md").unwrap().acquired_at, at);
}

#[test]
fn refused_and_unknown_requests_publish_nothing() {
    let mut state = WsState::new();
    handle_client_message(&mut state, "A", lock_request("p", "editor"));
    let mut rx = state.tx.subscribe();
    assert!(handle_client_message(&mut state, "B", lock_request("p", "task_view")).is_none());
    assert!(handle_client_message(&mut state, "B", lock_request("q", "reader")).is_none());
    assert!(state.lock_manager.is_locked("q").is_none());
    let unlock = ClientMessage::UnlockFile { path: "p".to_string() };
    assert!(handle_client_message(&mut state, "B", unlock).is_none());
    assert!(handle_client_message(&mut state, "B", ClientMessage::Pong).is_none());
    assert!(rx.try_recv().is_err());
    assert_eq!(state.lock_manager.is_locked("p").unwrap().client_id, "A");
}

#[test]
fn unlock_request_publishes_file_unlocked() {
    let mut state = WsState::new();
    handle_client_message(&mut state, "A", lock_request("p", "task_view"));
    let mut rx = state.tx.subscribe();
    let unlock = ClientMessage::UnlockFile { path: "p".to_string() };
    match handle_client_message(&mut state, "A", unlock) {
        Some(WsMessage::FileUnlocked { path }) => assert_eq!(path, "p"),
        other => panic!("unexpected: {:?}", other),
    }
    match rx.try_recv() {
        Ok(WsMessage::FileUnlocked { path }) => assert_eq!(path, "p"),
        other => panic!("unexpected: {:?}", other),
    }
    assert!(state.lock_manager.is_locked("p").is_none());
}

#[test]
fn inbound_frames_steer_the_session() {
    let mut state = WsState::new();
    let (go_on, event) =
        handle_inbound(&mut state, "A", InboundFrame::Request(lock_request("p", "editor")));
    assert!(go_on);
    assert!(matches!(event, Some(WsMessage::FileLocked { .. })));
    let (go_on, event) = handle_inbound(&mut state, "A", InboundFrame::Unreadable);
    assert!(go_on && event.is_none());
    let (go_on, event) = handle_inbound(&mut state, "A", InboundFrame::Other);
    assert!(go_on && event.is_none());
    let (go_on, event) = handle_inbound(&mut state, "A", InboundFrame::Close);
    assert!(!go_on && event.is_none());
    assert_eq!(state.lock_manager.is_locked("p").unwrap().client_id, "A");
}

#[test]
fn unlock_events_keep_order() {
    let events = unlock_events(vec!["b".to_string(), "a".to_string()]);
    assert_eq!(events.len(), 2);
    assert!(matches!(&events[0], WsMessage::FileUnlocked { path } if path == "b"));
    assert!(matches!(&events[1], WsMessage::FileUnlocked { path } if path == "a"));
}

#[test]
fn disconnect_frees_locks_for_the_next_client() {
    let mut state = WsState::new();
    assert!(open_session_as(&mut state, "A").is_some());
    assert!(open_session_as(&mut state, "B").is_some());
    let granted = handle_client_message(&mut state, "A", lock_request("notes/x.md", "editor"));
    assert!(granted.is_some());
    match state.lock_manager.acquire("notes/x.md", "B", LockType::TaskView) {
        Err(LockError::AlreadyLocked { holder, lock_type }) => {
            assert_eq!(holder, "A");
            assert_eq!(lock_type, LockType::Editor);
        }
        other => panic!("unexpected: {:?}", other),
    }
    let mut rx = state.tx.subscribe();
    let events = close_session(&mut state, "A");
    assert_eq!(events.len(), 1);
    assert!(matches!(&events[0], WsMessage::FileUnlocked { path } if path == "notes/x.md"));
    match rx.try_recv() {
        Ok(WsMessage::FileUnlocked { path }) => assert_eq!(path, "notes/x.md"),
        other => panic!("unexpected: {:?}", other),
    }
    assert!(rx.try_recv().is_err());
    assert!(!state.clients.contains("A"));
    assert!(state.clients.contains("B"));
    let lock = state.lock_manager.acquire("notes/x.md", "B", LockType::TaskView).unwrap();
    assert_eq!(lock.client_id, "B");
    assert!(close_session(&mut state, "A").is_empty());
}

#[test]
fn broadcast_reaches_every_subscriber_in_order() {
    let state = WsState::new();
    let mut rx1 = state.tx.subscribe();
    let mut rx2 = state.tx.subscribe();
    state.broadcast(WsMessage::Ping);
    state.broadcast_all(&vec![
        WsMessage::FileCreated { path: "a".to_string() },
        WsMessage::FileDeleted { path: "b".to_string() },
    ]);
    for rx in [&mut rx1, &mut rx2] {
        assert!(matches!(rx.try_recv(), Ok(WsMessage::Ping)));
        assert!(matches!(rx.try_recv(), Ok(WsMessage::FileCreated { .. })));
        assert!(matches!(rx.try_recv(), Ok(WsMessage::FileDeleted { .. })));
        assert!(rx.try_recv().is_err());
    }
}

#[test]
fn an_identifier_in_use_opens_no_second_session() {
    let mut state = WsState::new();
    match open_session_as(&mut state, "A") {
        Some(WsMessage::Connected { client_id }) => assert_eq!(client_id, "A"),
        other => panic!("unexpected: {:?}", other),
    }
    assert!(open_session_as(&mut state, "A").is_none());
    assert!(state.clients.contains("A"));
    close_session(&mut state, "A");
    assert!(open_session_as(&mut state, "A").is_some());
}
