//! The change-notification hub and the decisions of a client session.
//!
//! Events are published to every subscriber through a broadcast channel. A
//! session registers a client, turns the client's lock requests into lock
//! table updates and published events, and on teardown frees every lock the
//! client still owns.

use vstd::prelude::*;
use crate::clock::{now, Timestamp};
use crate::locks::{
    held_by_other, owned_by, release_answer, table_after_acquire, table_after_release,
    table_after_release_all, views_of, FileLockManager, LockTable, LockType, LockView,
};
use crate::assoc::{lemma_push_to_set, lemma_remove_to_set};
use crate::text::str_eq;

verus! {

/// Number of events the hub buffers for a subscriber that falls behind.
pub const HUB_CAPACITY: usize = 100;

/// An event sent to clients.
#[derive(Debug, Clone)]
pub enum WsMessage {
    /// A file was created.
    FileCreated { path: String },
    /// A file was modified.
    FileModified { path: String },
    /// A file was deleted.
    FileDeleted { path: String },
    /// A file was renamed.
    FileRenamed { from: String, to: String },
    /// A file was locked.
    FileLocked { path: String, client_id: String, lock_type: String },
    /// A file was unlocked.
    FileUnlocked { path: String },
    /// Version-control conflicts were detected.
    GitConflict { files: Vec<String> },
    /// Heartbeat from the server.
    Ping,
    /// The connection is confirmed.
    Connected { client_id: String },
    /// Something went wrong.
    Error { message: String },
}

/// Mathematical value of a [`WsMessage`].
pub enum WsMessageView {
    FileCreated { path: Seq<char> },
    FileModified { path: Seq<char> },
    FileDeleted { path: Seq<char> },
    FileRenamed { from: Seq<char>, to: Seq<char> },
    FileLocked { path: Seq<char>, client_id: Seq<char>, lock_type: Seq<char> },
    FileUnlocked { path: Seq<char> },
    GitConflict { files: Seq<Seq<char>> },
    Ping,
    Connected { client_id: Seq<char> },
    Error { message: Seq<char> },
}

impl View for WsMessage {
    type V = WsMessageView;

    open spec fn view(&self) -> WsMessageView {
        match self {
            WsMessage::FileCreated { path } => WsMessageView::FileCreated { path: path@ },
            WsMessage::FileModified { path } => WsMessageView::FileModified { path: path@ },
            WsMessage::FileDeleted { path } => WsMessageView::FileDeleted { path: path@ },
            WsMessage::FileRenamed { from, to } => WsMessageView::FileRenamed {
                from: from@,
                to: to@,
            },
            WsMessage::FileLocked { path, client_id, lock_type } => WsMessageView::FileLocked {
                path: path@,
                client_id: client_id@,
                lock_type: lock_type@,
            },
            WsMessage::FileUnlocked { path } => WsMessageView::FileUnlocked { path: path@ },
            WsMessage::GitConflict { files } => WsMessageView::GitConflict {
                files: views_of(files@),
            },
            WsMessage::Ping => WsMessageView::Ping,
            WsMessage::Connected { client_id } => WsMessageView::Connected {
                client_id: client_id@,
            },
            WsMessage::Error { message } => WsMessageView::Error { message: message@ },
        }
    }
}

/// A request received from a client.
#[derive(Debug, Clone)]
pub enum ClientMessage {
    /// Ask for the lock on a file.
    LockFile { path: String, lock_type: String },
    /// Give up the lock on a file.
    UnlockFile { path: String },
    /// Heartbeat answer.
    Pong,
}

/// Mathematical value of a [`ClientMessage`].
pub enum ClientMessageView {
    LockFile { path: Seq<char>, lock_type: Seq<char> },
    UnlockFile { path: Seq<char> },
    Pong,
}

impl View for ClientMessage {
    type V = ClientMessageView;

    open spec fn view(&self) -> ClientMessageView {
        match self {
            ClientMessage::LockFile { path, lock_type } => ClientMessageView::LockFile {
                path: path@,
                lock_type: lock_type@,
            },
            ClientMessage::UnlockFile { path } => ClientMessageView::UnlockFile { path: path@ },
            ClientMessage::Pong => ClientMessageView::Pong,
        }
    }
}

/// The wire name of a lock kind.
pub open spec fn lock_type_name(kind: LockType) -> Seq<char> {
    match kind {
        LockType::Editor => "editor"@,
        LockType::TaskView => "task_view"@,
    }
}

/// The lock kind that a wire name stands for.
pub open spec fn lock_type_named(name: Seq<char>) -> Option<LockType> {
    if name == "editor"@ {
        Some(LockType::Editor)
    } else if name == "task_view"@ {
        Some(LockType::TaskView)
    } else {
        None
    }
}

/// Returns the wire name of a lock kind.
pub fn lock_type_str(kind: LockType) -> (s: &'static str)
    ensures
        s@ == lock_type_name(kind),
{
    match kind {
        LockType::Editor => "editor",
        LockType::TaskView => "task_view",
    }
}

/// Reads a lock kind from its wire name: `"editor"` or `"task_view"`.
pub fn parse_lock_type(name: &str) -> (r: Option<LockType>)
    ensures
        r == lock_type_named(name@),
{
    if str_eq(name, "editor") {
        Some(LockType::Editor)
    } else if str_eq(name, "task_view") {
        Some(LockType::TaskView)
    } else {
        None
    }
}

/// Reading the wire name of a lock kind gives the kind back.
pub proof fn lemma_lock_type_name_round_trip(kind: LockType)
    ensures
        lock_type_named(lock_type_name(kind)) == Some(kind),
{
    reveal_strlit("editor");
    reveal_strlit("task_view");
    assert("editor"@.len() != "task_view"@.len());
}

/// The sending half of the broadcast channel behind the hub.
#[verifier::external_type_specification]
#[verifier::external_body]
#[verifier::reject_recursive_types(T)]
pub struct ExSender<T>(tokio::sync::broadcast::Sender<T>);

/// Opens a broadcast channel that buffers `capacity` events for a
/// subscriber that falls behind.
///
/// Trusted: calls `tokio::sync::broadcast::channel`, which panics for a
/// capacity of zero or above `usize::MAX / 2`, and keeps the sending half.
#[verifier::external_body]
fn open_channel(capacity: usize) -> tokio::sync::broadcast::Sender<WsMessage>
    requires
        0 < capacity <= usize::MAX / 2,
{
    let (tx, _) = tokio::sync::broadcast::channel(capacity);
    tx
}

/// Hands one event to the channel.
///
/// Trusted: calls `tokio::sync::broadcast::Sender::send`, which queues the
/// value for every current subscriber without blocking and reports an error
/// when there is none; the report is dropped. Nothing is claimed of what any
/// subscriber receives.
#[verifier::external_body]
fn send_to_channel(tx: &tokio::sync::broadcast::Sender<WsMessage>, msg: WsMessage) {
    let _ = tx.send(msg);
}

/// A random client identifier.
///
/// Trusted: calls `uuid::Uuid::new_v4` and formats it with its `Display`
/// impl, the hyphenated form, which is 36 characters long. `uuid` panics if
/// the system's source of random numbers fails.
#[verifier::external_body]
fn fresh_client_id() -> (id: String)
    ensures
        id@.len() == 36,
{
    uuid::Uuid::new_v4().to_string()
}

/// The set of connected clients.
#[derive(Debug)]
pub struct ClientSet {
    ids: Vec<String>,
}

impl View for ClientSet {
    type V = Set<Seq<char>>;

    closed spec fn view(&self) -> Set<Seq<char>> {
        views_of(self.ids@).to_set()
    }
}

impl ClientSet {
    #[verifier::type_invariant]
    spec fn no_duplicates(self) -> bool {
        views_of(self.ids@).no_duplicates()
    }

    /// The empty set.
    pub fn new() -> (s: Self)
        ensures
            s@ == Set::<Seq<char>>::empty(),
    {
        let s = ClientSet { ids: Vec::new() };
        assert(s@ =~= Set::<Seq<char>>::empty());
        s
    }

    /// Tells whether `id` is in the set.
    pub fn contains(&self, id: &str) -> (r: bool)
        ensures
            r == self@.contains(id@),
    {
        self.position(id).is_some()
    }

    fn position(&self, id: &str) -> (r: Option<usize>)
        ensures
            match r {
                Some(i) => i < self.ids.len() && self.ids[i as int]@ == id@ && self@.contains(id@),
                None => !self@.contains(id@),
            },
    {
        let mut i: usize = 0;
        while i < self.ids.len()
            invariant
                i <= self.ids.len(),
                forall|j: int| 0 <= j < i ==> self.ids[j]@ != id@,
            decreases self.ids.len() - i,
        {
            if str_eq(self.ids[i].as_str(), id) {
                assert(views_of(self.ids@)[i as int] == id@);
                return Some(i);
            }
            i += 1;
        }
        proof {
            if views_of(self.ids@).contains(id@) {
                let k = choose|k: int|
                    0 <= k < views_of(self.ids@).len() && views_of(self.ids@)[k] == id@;
                assert(self.ids[k]@ == id@);
            }
        }
        None
    }

    /// Adds `id`; returns whether it was new.
    pub fn insert(&mut self, id: &str) -> (added: bool)
        ensures
            final(self)@ == old(self)@.insert(id@),
            added == !old(self)@.contains(id@),
    {
        proof {
            use_type_invariant(&*self);
        }
        match self.position(id) {
            Some(i) => {
                assert(views_of(self.ids@)[i as int] == id@);
                assert(self@ =~= self@.insert(id@));
                false
            },
            None => {
                let ghost before = views_of(self.ids@);
                let mut ids: Vec<String> = Vec::new();
                core::mem::swap(&mut ids, &mut self.ids);
                ids.push(id.to_owned());
                proof {
                    assert(views_of(ids@) =~= before.push(id@));
                    lemma_push_to_set(before, id@);
                }
                self.ids = ids;
                true
            },
        }
    }

    /// Removes `id`; returns whether it was present.
    pub fn remove(&mut self, id: &str) -> (removed: bool)
        ensures
            final(self)@ == old(self)@.remove(id@),
            removed == old(self)@.contains(id@),
    {
        proof {
            use_type_invariant(&*self);
        }
        match self.position(id) {
            Some(i) => {
                let ghost before = views_of(self.ids@);
                assert(before[i as int] == id@);
                let mut ids: Vec<String> = Vec::new();
                core::mem::swap(&mut ids, &mut self.ids);
                ids.remove(i);
                proof {
                    assert(views_of(ids@) =~= before.remove(i as int));
                    lemma_remove_to_set(before, i as int);
                }
                self.ids = ids;
                true
            },
            None => {
                assert(self@ =~= self@.remove(id@));
                false
            },
        }
    }
}

/// The view of each event.
pub open spec fn message_views(v: Seq<WsMessage>) -> Seq<WsMessageView> {
    Seq::new(v.len(), |i: int| v[i]@)
}

/// One `FileUnlocked` event per path, in order.
pub open spec fn unlocked_events(paths: Seq<Seq<char>>) -> Seq<WsMessageView> {
    Seq::new(paths.len(), |i: int| WsMessageView::FileUnlocked { path: paths[i] })
}

/// The event published in answer to a client's request, if any.
///
/// A lock request with a known kind is answered with `FileLocked` unless
/// another client holds the path; an unlock request with `FileUnlocked` when
/// the client holds the lock. Refused requests, unknown lock kinds and
/// heartbeats publish nothing.
pub open spec fn client_message_event(
    table: LockTable,
    client: Seq<char>,
    msg: ClientMessageView,
) -> Option<WsMessageView> {
    match msg {
        ClientMessageView::LockFile { path, lock_type } => match lock_type_named(lock_type) {
            Some(kind) => if held_by_other(table, path, client) {
                None
            } else {
                Some(
                    WsMessageView::FileLocked {
                        path,
                        client_id: client,
                        lock_type: lock_type_name(kind),
                    },
                )
            },
            None => None,
        },
        ClientMessageView::UnlockFile { path } => if release_answer(table, path, client) is Ok {
            Some(WsMessageView::FileUnlocked { path })
        } else {
            None
        },
        ClientMessageView::Pong => None,
    }
}

/// The lock table after a client's request, received at time `at`.
pub open spec fn table_after_client_message(
    table: LockTable,
    client: Seq<char>,
    msg: ClientMessageView,
    at: Timestamp,
) -> LockTable {
    match msg {
        ClientMessageView::LockFile { path, lock_type } => match lock_type_named(lock_type) {
            Some(kind) => table_after_acquire(table, path, client, kind, at),
            None => table,
        },
        ClientMessageView::UnlockFile { path } => table_after_release(table, path, client),
        ClientMessageView::Pong => table,
    }
}

/// The view of an optional event.
pub open spec fn event_view(e: Option<WsMessage>) -> Option<WsMessageView> {
    match e {
        Some(m) => Some(m@),
        None => None,
    }
}

/// State shared by all client sessions: the hub's channel, the connected
/// clients and the lock table.
#[derive(Debug)]
pub struct WsState {
    /// Sending half of the hub's broadcast channel.
    pub tx: tokio::sync::broadcast::Sender<WsMessage>,
    /// Identifiers of the connected clients.
    pub clients: ClientSet,
    /// The lock table.
    pub lock_manager: FileLockManager,
}

impl WsState {
    /// A hub with no client and no lock.
    pub fn new() -> (state: Self)
        ensures
            state.clients@ == Set::<Seq<char>>::empty(),
            state.lock_manager@ == Map::<Seq<char>, LockView>::empty(),
    {
        WsState {
            tx: open_channel(HUB_CAPACITY),
            clients: ClientSet::new(),
            lock_manager: FileLockManager::new(),
        }
    }

    /// Publishes one event to every subscriber. Never blocks; an event
    /// published while nobody listens is dropped.
    pub fn broadcast(&self, msg: WsMessage) {
        send_to_channel(&self.tx, msg);
    }

    /// Publishes the events in order.
    pub fn broadcast_all(&self, events: &Vec<WsMessage>) {
        let mut i: usize = 0;
        while i < events.len()
            invariant
                i <= events.len(),
            decreases events.len() - i,
        {
            self.broadcast(events[i].clone());
            i += 1;
        }
    }
}

impl Default for WsState {
    fn default() -> (state: Self)
        ensures
            state.clients@ == Set::<Seq<char>>::empty(),
            state.lock_manager@ == Map::<Seq<char>, LockView>::empty(),
    {
        WsState::new()
    }
}

/// Opens a session under the identifier `client_id` unless a connected
/// client has it already: registers the client and returns the `Connected`
/// acknowledgment, which goes to the new peer only and is not published.
pub fn open_session_as(state: &mut WsState, client_id: &str) -> (ack: Option<WsMessage>)
    ensures
        match ack {
            Some(m) => {
                &&& !old(state).clients@.contains(client_id@)
                &&& m@ == (WsMessageView::Connected { client_id: client_id@ })
                &&& final(state).clients@ == old(state).clients@.insert(client_id@)
            },
            None => old(state).clients@.contains(client_id@) && final(state).clients@ == old(
                state,
            ).clients@,
        },
        final(state).lock_manager@ == old(state).lock_manager@,
{
    if state.clients.contains(client_id) {
        return None;
    }
    state.clients.insert(client_id);
    Some(WsMessage::Connected { client_id: client_id.to_owned() })
}

/// Some connected client has an identifier of the length that fresh
/// identifiers have.
pub open spec fn has_drawn_identifier(clients: Set<Seq<char>>) -> bool {
    exists|id: Seq<char>| id.len() == 36 && #[trigger] clients.contains(id)
}

/// Opens a session under a fresh random identifier of 36 characters that no
/// connected client has, and returns the identifier with the `Connected`
/// acknowledgment for that peer. Gives `None`, changing nothing, only if
/// the identifier drawn belongs to a connected client.
pub fn open_session(state: &mut WsState) -> (r: Option<(String, WsMessage)>)
    ensures
        match r {
            Some((id, ack)) => {
                &&& id@.len() == 36
                &&& !old(state).clients@.contains(id@)
                &&& ack@ == (WsMessageView::Connected { client_id: id@ })
                &&& final(state).clients@ == old(state).clients@.insert(id@)
            },
            None => has_drawn_identifier(old(state).clients@) && final(state).clients@ == old(
                state,
            ).clients@,
        },
        final(state).lock_manager@ == old(state).lock_manager@,
{
    let id = fresh_client_id();
    match open_session_as(state, id.as_str()) {
        Some(ack) => Some((id, ack)),
        None => None,
    }
}

/// Applies a client's request, received at time `at`, to the lock table,
/// publishes the resulting event and returns it.
pub fn handle_client_message_at(
    state: &mut WsState,
    client_id: &str,
    msg: ClientMessage,
    at: Timestamp,
) -> (event: Option<WsMessage>)
    ensures
        event_view(event) == client_message_event(old(state).lock_manager@, client_id@, msg@),
        final(state).lock_manager@ == table_after_client_message(
            old(state).lock_manager@,
            client_id@,
            msg@,
            at,
        ),
        final(state).clients@ == old(state).clients@,
{
    let event = match msg {
        ClientMessage::LockFile { path, lock_type } => {
            match parse_lock_type(lock_type.as_str()) {
                Some(kind) => {
                    match state.lock_manager.acquire_at(path.as_str(), client_id, kind, at) {
                        Ok(lock) => Some(
                            WsMessage::FileLocked {
                                path: lock.path,
                                client_id: lock.client_id,
                                lock_type: lock_type_str(lock.lock_type).to_owned(),
                            },
                        ),
                        Err(_) => None,
                    }
                },
                None => None,
            }
        },
        ClientMessage::UnlockFile { path } => {
            match state.lock_manager.release(path.as_str(), client_id) {
                Ok(()) => Some(WsMessage::FileUnlocked { path }),
                Err(_) => None,
            }
        },
        ClientMessage::Pong => None,
    };
    match &event {
        Some(m) => state.broadcast(m.clone()),
        None => {},
    }
    event
}

/// Applies a client's request to the lock table, publishes the resulting
/// event and returns it. A granted lock is stamped with the current time.
pub fn handle_client_message(state: &mut WsState, client_id: &str, msg: ClientMessage) -> (event:
    Option<WsMessage>)
    ensures
        event_view(event) == client_message_event(old(state).lock_manager@, client_id@, msg@),
        exists|at: Timestamp|
            final(state).lock_manager@ == #[trigger] table_after_client_message(
                old(state).lock_manager@,
                client_id@,
                msg@,
                at,
            ),
        final(state).clients@ == old(state).clients@,
{
    let at = now();
    handle_client_message_at(state, client_id, msg, at)
}

/// Builds one `FileUnlocked` event per path, in order.
pub fn unlock_events(paths: Vec<String>) -> (events: Vec<WsMessage>)
    ensures
        message_views(events@) == unlocked_events(views_of(paths@)),
{
    let mut events: Vec<WsMessage> = Vec::new();
    let mut i: usize = 0;
    while i < paths.len()
        invariant
            i <= paths.len(),
            events.len() == i,
            forall|j: int|
                0 <= j < i ==> events[j]@ == (WsMessageView::FileUnlocked { path: paths[j]@ }),
        decreases paths.len() - i,
    {
        events.push(WsMessage::FileUnlocked { path: paths[i].clone() });
        i += 1;
    }
    assert(message_views(events@) =~= unlocked_events(views_of(paths@)));
    events
}

/// Tears a session down: frees every lock the client owns, publishes a
/// `FileUnlocked` event for each freed path, removes the client from the
/// connected set and returns the published events.
pub fn close_session(state: &mut WsState, client_id: &str) -> (events: Vec<WsMessage>)
    ensures
        exists|freed: Seq<Seq<char>>|
            {
                &&& freed.no_duplicates()
                &&& freed.to_set() == owned_by(old(state).lock_manager@, client_id@)
                &&& message_views(events@) == #[trigger] unlocked_events(freed)
            },
        final(state).lock_manager@ == table_after_release_all(
            old(state).lock_manager@,
            client_id@,
        ),
        final(state).clients@ == old(state).clients@.remove(client_id@),
{
    let paths = state.lock_manager.release_all_for_client(client_id);
    let ghost freed = views_of(paths@);
    let events = unlock_events(paths);
    state.broadcast_all(&events);
    state.clients.remove(client_id);
    assert(message_views(events@) == unlocked_events(freed));
    events
}

/// What arrived on a client's connection.
#[derive(Debug, Clone)]
pub enum InboundFrame {
    /// A request that could be read.
    Request(ClientMessage),
    /// Text that is no request.
    Unreadable,
    /// The peer closes the connection.
    Close,
    /// Anything else: binary data, transport-level heartbeats.
    Other,
}

/// The session goes on after this frame.
pub open spec fn keeps_open(frame: InboundFrame) -> bool {
    !(frame is Close)
}

/// The request carried by a frame, if any.
pub open spec fn request_of(frame: InboundFrame) -> Option<ClientMessageView> {
    match frame {
        InboundFrame::Request(msg) => Some(msg@),
        _ => None,
    }
}

/// Handles one inbound frame of a session: applies a request as
/// [`handle_client_message`] does, ignores what is no request, and tells
/// whether the session goes on. Only a close frame ends it; a frame that
/// cannot be read changes nothing and publishes nothing.
pub fn handle_inbound(state: &mut WsState, client_id: &str, frame: InboundFrame) -> (r: (
    bool,
    Option<WsMessage>,
))
    ensures
        r.0 == keeps_open(frame),
        match request_of(frame) {
            Some(msg) => {
                &&& event_view(r.1) == client_message_event(
                    old(state).lock_manager@,
                    client_id@,
                    msg,
                )
                &&& exists|at: Timestamp|
                    final(state).lock_manager@ == #[trigger] table_after_client_message(
                        old(state).lock_manager@,
                        client_id@,
                        msg,
                        at,
                    )
            },
            None => r.1 is None && final(state).lock_manager@ == old(state).lock_manager@,
        },
        final(state).clients@ == old(state).clients@,
{
    match frame {
        InboundFrame::Request(msg) => {
            let event = handle_client_message(state, client_id, msg);
            (true, event)
        },
        InboundFrame::Unreadable => (true, None),
        InboundFrame::Close => (false, None),
        InboundFrame::Other => (true, None),
    }
}

/// Closing a session a second time frees nothing and publishes nothing:
/// after the first teardown the client owns no lock.
pub proof fn lemma_second_teardown_is_empty(table: LockTable, client: Seq<char>)
    ensures
        owned_by(table_after_release_all(table, client), client) == Set::<Seq<char>>::empty(),
        table_after_release_all(table_after_release_all(table, client), client)
            == table_after_release_all(table, client),
{
    let once = table_after_release_all(table, client);
    assert(owned_by(once, client) =~= Set::<Seq<char>>::empty());
    assert(table_after_release_all(once, client) =~= once);
}

/// A path that a client held can be locked by anyone once that client's
/// session is torn down.
pub proof fn lemma_freed_path_can_be_locked(
    table: LockTable,
    owner: Seq<char>,
    path: Seq<char>,
    next: Seq<char>,
)
    requires
        owned_by(table, owner).contains(path),
    ensures
        !held_by_other(table_after_release_all(table, owner), path, next),
{
}

} // verus!
