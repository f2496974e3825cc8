//! The filesystem watcher's decisions: which raw notifications become change
//! events, and which are swallowed as noise or as the echo of a write made
//! through the atomic-write primitive.
//!
//! Times are milliseconds on a monotonic clock that starts with the marker
//! table.

use vstd::prelude::*;
use crate::assoc::{assoc, lemma_assoc_entry, lemma_assoc_push, lemma_assoc_remove, lemma_assoc_update};
use crate::clock::text_view;
use crate::hub::{event_view, WsMessage, WsMessageView, WsState};
use crate::locks::views_of;
use crate::paths::{
    file_name, file_name_exec, in_excluded_tree, in_excluded_tree_exec, is_markdown,
    is_markdown_exec, is_temp_name, is_temp_name_exec, relative_name, relative_name_exec,
};
use crate::text::{chars_of, has_suffix, str_eq, string_of};

verus! {

/// Quiescence window over which raw notifications are coalesced.
pub const DEBOUNCE_MS: u64 = 500;

/// A notification for a path saved less than this long ago is swallowed.
pub const SUPPRESSION_WINDOW_MS: u64 = 2000;

/// Markers this old or older are discarded.
pub const MARKER_HORIZON_MS: u64 = 5000;

/// What happened to the files of a notification.
#[derive(Debug, Clone, Copy, PartialEq, Eq, Structural)]
pub enum FsEventKind {
    Create,
    Modify,
    Remove,
    /// Anything else: access, metadata only, unknown.
    Other,
}

/// One coalesced filesystem notification.
#[derive(Debug, Clone)]
pub struct FsEvent {
    pub kind: FsEventKind,
    pub paths: Vec<String>,
}

/// Index of the first markdown path.
pub open spec fn first_markdown(paths: Seq<Seq<char>>) -> Option<int>
    decreases paths.len(),
{
    if paths.len() == 0 {
        None
    } else {
        match first_markdown(paths.drop_last()) {
            Some(i) => Some(i),
            None => if is_markdown(paths.last()) {
                Some(paths.len() - 1)
            } else {
                None
            },
        }
    }
}

/// Some markdown path is a temporary file of an atomic write.
pub open spec fn has_temp_file(paths: Seq<Seq<char>>) -> bool {
    exists|i: int|
        0 <= i < paths.len() && is_markdown(#[trigger] paths[i]) && is_temp_name(
            file_name(paths[i]),
        )
}

/// Some markdown path lies in an excluded subtree.
pub open spec fn has_excluded_file(paths: Seq<Seq<char>>) -> bool {
    exists|i: int|
        0 <= i < paths.len() && is_markdown(#[trigger] paths[i]) && in_excluded_tree(paths[i])
}

/// The path a notification is about, by its name relative to the document
/// root `root`; `None` if the notification is noise: no markdown path, a
/// temporary file, or an excluded subtree.
pub open spec fn watched_path(root: Seq<char>, paths: Seq<Seq<char>>) -> Option<Seq<char>> {
    match first_markdown(paths) {
        None => None,
        Some(i) => if has_temp_file(paths) || has_excluded_file(paths) {
            None
        } else {
            Some(relative_name(root, paths[i]))
        },
    }
}

/// Time passed at `now` since `then`; zero if `then` is not in the past.
pub open spec fn age(now: u64, then: u64) -> int {
    if now >= then {
        now - then
    } else {
        0
    }
}

/// The marker table: path to the time of its last save.
pub type MarkerTable = Map<Seq<char>, u64>;

/// The paths whose marker has reached the horizon at `now`.
pub open spec fn stale_markers(table: MarkerTable, now: u64) -> Set<Seq<char>> {
    Set::new(|p: Seq<char>| table.dom().contains(p) && age(now, table[p]) >= MARKER_HORIZON_MS)
}

/// The table without the markers that have reached the horizon at `now`.
pub open spec fn fresh_markers(table: MarkerTable, now: u64) -> MarkerTable {
    table.remove_keys(stale_markers(table, now))
}

/// A notification for `path` at `now` is the echo of a recent save.
pub open spec fn is_echo(table: MarkerTable, path: Seq<char>, now: u64) -> bool {
    table.dom().contains(path) && age(now, table[path]) < SUPPRESSION_WINDOW_MS
}

/// The event that tells clients of a change of `kind` to `path`.
pub open spec fn change_event(kind: FsEventKind, path: Seq<char>) -> Option<WsMessageView> {
    match kind {
        FsEventKind::Create => Some(WsMessageView::FileCreated { path }),
        FsEventKind::Modify => Some(WsMessageView::FileModified { path }),
        FsEventKind::Remove => Some(WsMessageView::FileDeleted { path }),
        FsEventKind::Other => None,
    }
}

/// The event published for a notification processed at `now` by the
/// watcher of the document root `root`.
pub open spec fn process_outcome(
    kind: FsEventKind,
    root: Seq<char>,
    paths: Seq<Seq<char>>,
    table: MarkerTable,
    now: u64,
) -> Option<WsMessageView> {
    match watched_path(root, paths) {
        None => None,
        Some(path) => if is_echo(table, path, now) {
            None
        } else {
            change_event(kind, path)
        },
    }
}

/// The marker table after a notification is processed at `now`: pruned,
/// unless the notification was dropped as noise.
pub open spec fn markers_after(
    root: Seq<char>,
    paths: Seq<Seq<char>>,
    table: MarkerTable,
    now: u64,
) -> MarkerTable {
    if watched_path(root, paths) is Some {
        fresh_markers(table, now)
    } else {
        table
    }
}

/// A notification for a path saved at `saved_at` is swallowed as long as
/// less than the suppression window has passed, whatever else the table
/// holds and whatever kind of change is reported.
pub proof fn lemma_own_write_is_suppressed(
    kind: FsEventKind,
    root: Seq<char>,
    paths: Seq<Seq<char>>,
    table: MarkerTable,
    path: Seq<char>,
    saved_at: u64,
    now: u64,
)
    requires
        watched_path(root, paths) == Some(path),
        age(now, saved_at) < SUPPRESSION_WINDOW_MS,
    ensures
        process_outcome(kind, root, paths, table.insert(path, saved_at), now) is None,
{
}

/// A creation, modification or removal of a watched path that has no marker
/// produces exactly the one event for that kind and path.
pub proof fn lemma_external_edit_is_published(
    kind: FsEventKind,
    root: Seq<char>,
    paths: Seq<Seq<char>>,
    table: MarkerTable,
    path: Seq<char>,
    now: u64,
)
    requires
        watched_path(root, paths) == Some(path),
        !table.dom().contains(path),
        kind != FsEventKind::Other,
    ensures
        process_outcome(kind, root, paths, table, now) == change_event(kind, path),
        process_outcome(kind, root, paths, table, now) is Some,
{
}

/// Pruning never turns an echo into an event: a marker inside the
/// suppression window is younger than the horizon and survives.
pub proof fn lemma_pruning_keeps_echoes(table: MarkerTable, path: Seq<char>, now: u64)
    ensures
        is_echo(fresh_markers(table, now), path, now) == is_echo(table, path, now),
{
}

/// A temporary file of an atomic write never names a markdown file, so a
/// notification about it alone is dropped.
pub proof fn lemma_temp_file_is_not_watched(root: Seq<char>, path: Seq<char>)
    requires
        has_suffix(file_name(path), ".tmp"@),
    ensures
        !is_markdown(path),
        watched_path(root, seq![path]) is None,
{
    reveal_strlit(".md");
    reveal_strlit(".tmp");
    let name = file_name(path);
    if is_markdown(path) {
        let a = name.subrange(name.len() - 3, name.len() as int);
        let b = name.subrange(name.len() - 4, name.len() as int);
        assert(a == ".md"@);
        assert(b == ".tmp"@);
        assert(a[2] == name[name.len() - 1]);
        assert(b[3] == name[name.len() - 1]);
    }
    let one = seq![path];
    assert(one.drop_last() =~= Seq::<Seq<char>>::empty());
    assert(first_markdown(one.drop_last()) is None);
    assert(one.last() == path);
    assert(first_markdown(one) is None);
}

/// A single markdown path that is no temporary file and lies under no
/// excluded directory is watched under its name relative to the root.
pub proof fn lemma_single_path_is_watched(root: Seq<char>, path: Seq<char>)
    requires
        is_markdown(path),
        !is_temp_name(file_name(path)),
        !in_excluded_tree(path),
    ensures
        watched_path(root, seq![path]) == Some(relative_name(root, path)),
{
    let one = seq![path];
    assert(one.drop_last() =~= Seq::<Seq<char>>::empty());
    assert(first_markdown(one.drop_last()) is None);
    assert(one.last() == path);
    assert(first_markdown(one) == Some(0int));
    assert(one[0] == path);
}

/// An outside edit of the file `name` under the document root, a markdown
/// file that is no temporary file and lies under no excluded directory,
/// produces exactly one event when the table holds no marker for it: the
/// event for that kind of change, under the root-relative name.
pub proof fn lemma_outside_edit_under_root_is_published(
    kind: FsEventKind,
    root: Seq<char>,
    name: Seq<char>,
    table: MarkerTable,
    now: u64,
)
    requires
        crate::paths::slashed(name) == name,
        name.len() == 0 || name[0] != '/',
        is_markdown(root + "/"@ + name),
        !is_temp_name(file_name(root + "/"@ + name)),
        !in_excluded_tree(root + "/"@ + name),
        !table.dom().contains(name),
        kind != FsEventKind::Other,
    ensures
        process_outcome(kind, root, seq![root + "/"@ + name], table, now) == change_event(
            kind,
            name,
        ),
        process_outcome(kind, root, seq![root + "/"@ + name], table, now) is Some,
{
    let path = root + "/"@ + name;
    crate::paths::lemma_relative_name_of_join(root, name);
    lemma_single_path_is_watched(root, path);
    lemma_external_edit_is_published(kind, root, seq![path], table, name, now);
}

/// Returns the name of `path` relative to the document root `root`, as
/// clients see it.
pub fn normalize_path(root: &str, path: &str) -> (r: String)
    ensures
        r@ == relative_name(root@, path@),
{
    string_of(&relative_name_exec(&chars_of(root), &chars_of(path)))
}

/// A reading of the monotonic clock.
#[verifier::external_type_specification]
#[verifier::external_body]
pub struct ExInstant(std::time::Instant);

/// Reads the monotonic clock.
///
/// Trusted: calls `std::time::Instant::now`. Nothing is claimed about the
/// reading.
#[verifier::external_body]
fn clock_start() -> std::time::Instant {
    std::time::Instant::now()
}

/// The time passed since `origin` was read.
///
/// Trusted: calls `std::time::Instant::elapsed`. Nothing is claimed about
/// the duration, which depends on when the call is made.
#[verifier::external_body]
fn clock_elapsed(origin: &std::time::Instant) -> core::time::Duration {
    origin.elapsed()
}

/// The whole milliseconds of a duration.
///
/// Trusted: calls `std::time::Duration::as_millis`. Nothing is claimed
/// about the number: a duration is opaque here.
#[verifier::external_body]
fn whole_millis(d: core::time::Duration) -> u128 {
    d.as_millis()
}

/// A count of milliseconds as a time of the table's clock: itself, or the
/// largest time if it is larger.
pub open spec fn clipped_millis(ms: u128) -> u64 {
    if ms > u64::MAX {
        u64::MAX
    } else {
        ms as u64
    }
}

/// Turns a count of milliseconds into a time of the table's clock.
pub fn clip_millis(ms: u128) -> (r: u64)
    ensures
        r == clipped_millis(ms),
{
    if ms > 0xffff_ffff_ffff_ffff {
        u64::MAX
    } else {
        ms as u64
    }
}

/// The time at which a path was last saved through the atomic-write
/// primitive.
#[derive(Debug, Clone)]
pub struct SaveMarker {
    pub path: String,
    pub saved_at: u64,
}

/// The self-write marker table of one document root, with the clock its
/// times are read from. Paths are filed under their names relative to the
/// root.
#[derive(Debug)]
pub struct SaveMarkers {
    root: String,
    origin: std::time::Instant,
    entries: Vec<SaveMarker>,
}

spec fn marker_paths(entries: Seq<SaveMarker>) -> Seq<Seq<char>> {
    Seq::new(entries.len(), |i: int| entries[i].path@)
}

spec fn marker_times(entries: Seq<SaveMarker>) -> Seq<u64> {
    Seq::new(entries.len(), |i: int| entries[i].saved_at)
}

spec fn markers_of(entries: Seq<SaveMarker>) -> MarkerTable {
    assoc(marker_paths(entries), marker_times(entries))
}

proof fn lemma_marker_entry(entries: Seq<SaveMarker>, i: int)
    requires
        marker_paths(entries).no_duplicates(),
        0 <= i < entries.len(),
    ensures
        markers_of(entries).dom().contains(entries[i].path@),
        markers_of(entries)[entries[i].path@] == entries[i].saved_at,
{
    lemma_assoc_entry(marker_paths(entries), marker_times(entries), i);
}

fn marker_position(entries: &Vec<SaveMarker>, path: &str) -> (r: Option<usize>)
    ensures
        match r {
            Some(i) => i < entries.len() && entries[i as int].path@ == path@,
            None => !marker_paths(entries@).contains(path@),
        },
{
    let mut i: usize = 0;
    while i < entries.len()
        invariant
            i <= entries.len(),
            forall|j: int| 0 <= j < i ==> entries[j].path@ != path@,
        decreases entries.len() - i,
    {
        if str_eq(entries[i].path.as_str(), path) {
            return Some(i);
        }
        i += 1;
    }
    None
}

impl View for SaveMarkers {
    type V = MarkerTable;

    closed spec fn view(&self) -> MarkerTable {
        markers_of(self.entries@)
    }
}

impl SaveMarkers {
    #[verifier::type_invariant]
    spec fn one_marker_per_path(self) -> bool {
        marker_paths(self.entries@).no_duplicates()
    }

    /// The document root whose paths this table holds.
    pub closed spec fn root(&self) -> Seq<char> {
        self.root@
    }

    /// Returns the document root whose paths this table holds.
    pub fn root_str(&self) -> (r: &str)
        ensures
            r@ == self.root(),
    {
        self.root.as_str()
    }

    /// An empty table for the document root `root`, whose clock starts now.
    pub fn new(root: &str) -> (m: Self)
        ensures
            m@ == Map::<Seq<char>, u64>::empty(),
            m.root() == root@,
    {
        let m = SaveMarkers { root: root.to_owned(), origin: clock_start(), entries: Vec::new() };
        assert(m@ =~= Map::<Seq<char>, u64>::empty());
        m
    }

    /// The current time on this table's clock, in milliseconds; `u64::MAX`
    /// if the clock has run past it.
    pub fn now_ms(&self) -> u64 {
        let ms: u128 = whole_millis(clock_elapsed(&self.origin));
        clip_millis(ms)
    }

    /// The time at which `path` was last saved, if a marker is left.
    pub fn saved_at(&self, path: &str) -> (r: Option<u64>)
        ensures
            match r {
                Some(t) => self@.dom().contains(path@) && self@[path@] == t,
                None => !self@.dom().contains(path@),
            },
    {
        proof {
            use_type_invariant(self);
        }
        match marker_position(&self.entries, path) {
            Some(i) => {
                proof {
                    lemma_marker_entry(self.entries@, i as int);
                }
                Some(self.entries[i].saved_at)
            },
            None => None,
        }
    }

    /// Records that `path` is saved at time `now`, replacing an earlier
    /// marker for the same path.
    pub fn mark_at(&mut self, path: &str, now: u64)
        ensures
            final(self)@ == old(self)@.insert(path@, now),
            final(self).root() == old(self).root(),
    {
        proof {
            use_type_invariant(&*self);
        }
        let found = marker_position(&self.entries, path);
        let ghost before = self.entries@;
        let mut entries: Vec<SaveMarker> = Vec::new();
        core::mem::swap(&mut entries, &mut self.entries);
        match found {
            Some(i) => {
                let marker = SaveMarker { path: path.to_owned(), saved_at: now };
                entries.set(i, marker);
                proof {
                    lemma_assoc_update(marker_paths(before), marker_times(before), i as int, now);
                    assert(marker_paths(entries@) =~= marker_paths(before));
                    assert(marker_times(entries@) =~= marker_times(before).update(i as int, now));
                    assert(marker_paths(before)[i as int] == path@);
                }
            },
            None => {
                entries.push(SaveMarker { path: path.to_owned(), saved_at: now });
                proof {
                    lemma_assoc_push(marker_paths(before), marker_times(before), path@, now);
                    assert(marker_paths(entries@) =~= marker_paths(before).push(path@));
                    assert(marker_times(entries@) =~= marker_times(before).push(now));
                }
            },
        }
        self.entries = entries;
    }

    /// Discards every marker that has reached the horizon at `now`.
    pub fn prune(&mut self, now: u64)
        ensures
            final(self)@ == fresh_markers(old(self)@, now),
            final(self).root() == old(self).root(),
    {
        proof {
            use_type_invariant(&*self);
        }
        let ghost before = self@;
        let mut entries: Vec<SaveMarker> = Vec::new();
        core::mem::swap(&mut entries, &mut self.entries);
        let ghost mut removed: Set<Seq<char>> = Set::empty();
        let mut i: usize = 0;
        assert(markers_of(entries@) =~= before.remove_keys(removed));
        while i < entries.len()
            invariant
                i <= entries.len(),
                marker_paths(entries@).no_duplicates(),
                forall|j: int|
                    0 <= j < i ==> age(now, (#[trigger] entries[j]).saved_at) < MARKER_HORIZON_MS,
                markers_of(entries@) == before.remove_keys(removed),
                removed.subset_of(stale_markers(before, now)),
            decreases entries.len() - i,
        {
            let t = entries[i].saved_at;
            let fresh = now < t || now - t < MARKER_HORIZON_MS;
            if fresh {
                i += 1;
            } else {
                proof {
                    lemma_marker_entry(entries@, i as int);
                    lemma_assoc_remove(marker_paths(entries@), marker_times(entries@), i as int);
                }
                let ghost prev = entries@;
                let gone = entries.remove(i);
                proof {
                    assert(marker_paths(entries@) =~= marker_paths(prev).remove(i as int));
                    assert(marker_times(entries@) =~= marker_times(prev).remove(i as int));
                    removed = removed.insert(gone.path@);
                    assert(markers_of(entries@) =~= before.remove_keys(removed));
                }
            }
        }
        proof {
            assert forall|p: Seq<char>| stale_markers(before, now).contains(p) implies removed.contains(
                p,
            ) by {
                if !removed.contains(p) {
                    assert(markers_of(entries@).dom().contains(p));
                    let k = marker_paths(entries@).index_of(p);
                    lemma_marker_entry(entries@, k);
                }
            }
            assert(removed =~= stale_markers(before, now));
        }
        self.entries = entries;
    }
}

/// Records that the file with the root-relative name `path` is being saved
/// by this process at time `now`, so the watcher can tell the echo of the
/// write from an outside edit.
pub fn mark_file_saved_at(markers: &mut SaveMarkers, path: &str, now: u64)
    ensures
        final(markers)@ == old(markers)@.insert(path@, now),
        final(markers).root() == old(markers).root(),
{
    markers.mark_at(path, now);
}

/// Records that the file with the root-relative name `path` is being saved
/// by this process now. Call this before the write begins.
pub fn mark_file_saved(markers: &mut SaveMarkers, path: &str)
    ensures
        exists|now: u64| final(markers)@ == #[trigger] old(markers)@.insert(path@, now),
        final(markers).root() == old(markers).root(),
{
    let now = markers.now_ms();
    markers.mark_at(path, now);
}

/// Picks the path a notification is about and names it relative to the
/// document root `root`; `None` if the notification is noise.
pub fn watched_path_of(root: &str, paths: &Vec<String>) -> (r: Option<String>)
    ensures
        text_view(r) == watched_path(root@, views_of(paths@)),
{
    let root_chars = chars_of(root);
    let ghost all = views_of(paths@);
    let mut first: Option<String> = None;
    let mut noise: bool = false;
    let mut i: usize = 0;
    assert(all.take(0) =~= Seq::<Seq<char>>::empty());
    while i < paths.len()
        invariant
            i <= paths.len(),
            all == views_of(paths@),
            root_chars@ == root@,
            match first_markdown(all.take(i as int)) {
                Some(k) => 0 <= k < i && first is Some && first->0@ == relative_name(
                    root@,
                    all[k],
                ),
                None => first is None,
            },
            noise == (has_temp_file(all.take(i as int)) || has_excluded_file(all.take(i as int))),
        decreases paths.len() - i,
    {
        let p = chars_of(paths[i].as_str());
        let ghost head = all.take(i as int);
        let ghost next = all.take(i + 1);
        assert(next.drop_last() =~= head);
        assert(next.last() == all[i as int]);
        assert(p@ == all[i as int]);
        let md = is_markdown_exec(&p);
        let mut bad: bool = false;
        if md {
            if first.is_none() {
                first = Some(string_of(&relative_name_exec(&root_chars, &p)));
            }
            let name = file_name_exec(&p);
            bad = is_temp_name_exec(&name) || in_excluded_tree_exec(&p);
        }
        proof {
            let here = md && (is_temp_name(file_name(p@)) || in_excluded_tree(p@));
            assert(bad == here);
            let was = has_temp_file(head) || has_excluded_file(head);
            let is = has_temp_file(next) || has_excluded_file(next);
            if was {
                if has_temp_file(head) {
                    let k = choose|k: int|
                        0 <= k < head.len() && is_markdown(#[trigger] head[k]) && is_temp_name(
                            file_name(head[k]),
                        );
                    assert(next[k] == head[k]);
                } else {
                    let k = choose|k: int|
                        0 <= k < head.len() && is_markdown(#[trigger] head[k])
                            && in_excluded_tree(head[k]);
                    assert(next[k] == head[k]);
                }
                assert(is);
            }
            if here {
                assert(next[i as int] == p@);
                assert(is);
            }
            if is && !was {
                if has_temp_file(next) {
                    let k = choose|k: int|
                        0 <= k < next.len() && is_markdown(#[trigger] next[k]) && is_temp_name(
                            file_name(next[k]),
                        );
                    if k < i {
                        assert(head[k] == next[k]);
                    }
                } else {
                    let k = choose|k: int|
                        0 <= k < next.len() && is_markdown(#[trigger] next[k])
                            && in_excluded_tree(next[k]);
                    if k < i {
                        assert(head[k] == next[k]);
                    }
                }
                assert(here);
            }
        }
        noise = noise || bad;
        i += 1;
    }
    assert(all.take(i as int) =~= all);
    if noise {
        None
    } else {
        first
    }
}

/// Decides what a notification processed at time `now` tells the clients.
///
/// Noise is dropped without touching the marker table. Otherwise the table
/// is pruned, and the notification is swallowed if its path was saved within
/// the suppression window; if not, a creation, modification or removal
/// becomes the matching event.
pub fn process_event_at(event: &FsEvent, markers: &mut SaveMarkers, now: u64) -> (msg: Option<
    WsMessage,
>)
    ensures
        event_view(msg) == process_outcome(
            event.kind,
            old(markers).root(),
            views_of(event.paths@),
            old(markers)@,
            now,
        ),
        final(markers)@ == markers_after(
            old(markers).root(),
            views_of(event.paths@),
            old(markers)@,
            now,
        ),
        final(markers).root() == old(markers).root(),
{
    let path = match watched_path_of(markers.root_str(), &event.paths) {
        Some(p) => p,
        None => {
            return None;
        },
    };
    markers.prune(now);
    proof {
        lemma_pruning_keeps_echoes(old(markers)@, path@, now);
    }
    match markers.saved_at(path.as_str()) {
        Some(t) => {
            if now < t || now - t < SUPPRESSION_WINDOW_MS {
                return None;
            }
        },
        None => {},
    }
    match event.kind {
        FsEventKind::Create => Some(WsMessage::FileCreated { path }),
        FsEventKind::Modify => Some(WsMessage::FileModified { path }),
        FsEventKind::Remove => Some(WsMessage::FileDeleted { path }),
        FsEventKind::Other => None,
    }
}

/// Processes one notification now: decides as [`process_event_at`] does for
/// the current time, publishes the event if there is one, and returns it.
pub fn process_event(event: &FsEvent, markers: &mut SaveMarkers, ws_state: &WsState) -> (msg:
    Option<WsMessage>)
    ensures
        exists|now: u64|
            {
                &&& event_view(msg) == #[trigger] process_outcome(
                    event.kind,
                    old(markers).root(),
                    views_of(event.paths@),
                    old(markers)@,
                    now,
                )
                &&& final(markers)@ == markers_after(
                    old(markers).root(),
                    views_of(event.paths@),
                    old(markers)@,
                    now,
                )
            },
        final(markers).root() == old(markers).root(),
{
    let now = markers.now_ms();
    let msg = process_event_at(event, markers, now);
    match &msg {
        Some(m) => ws_state.broadcast(m.clone()),
        None => {},
    }
    msg
}

/// Why the watcher could not start. The rest of the system goes on without
/// live change notification.
#[derive(Debug, Clone)]
pub enum WatcherInitFailed {
    /// The platform refused to set the watcher up.
    CreateFailed { detail: String },
    /// The document root does not exist.
    RootMissing { root: String },
    /// The platform refused to watch the document root.
    WatchFailed { detail: String },
}

/// The text shown for a failed start.
pub open spec fn init_failure_text(e: WatcherInitFailed) -> Seq<char> {
    match e {
        WatcherInitFailed::CreateFailed { detail } => "Failed to create file watcher: "@ + detail@,
        WatcherInitFailed::RootMissing { root } => "Data directory does not exist: "@ + root@,
        WatcherInitFailed::WatchFailed { detail } => "Failed to watch directory: "@ + detail@,
    }
}

impl WatcherInitFailed {
    /// Returns the text shown for this failure.
    pub fn message(&self) -> (s: String)
        ensures
            s@ == init_failure_text(*self),
    {
        match self {
            WatcherInitFailed::CreateFailed { detail } => crate::text::cat2(
                "Failed to create file watcher: ",
                detail.as_str(),
            ),
            WatcherInitFailed::RootMissing { root } => crate::text::cat2(
                "Data directory does not exist: ",
                root.as_str(),
            ),
            WatcherInitFailed::WatchFailed { detail } => crate::text::cat2(
                "Failed to watch directory: ",
                detail.as_str(),
            ),
        }
    }
}

/// Decides whether the watcher can be registered on the document root:
/// only if the root exists.
pub fn check_watch_root(root: &str, exists: bool) -> (r: Result<(), WatcherInitFailed>)
    ensures
        r is Ok <==> exists,
        r matches Err(e) ==> e matches WatcherInitFailed::RootMissing { root: named } && named@
            == root@,
{
    if exists {
        Ok(())
    } else {
        Err(WatcherInitFailed::RootMissing { root: root.to_owned() })
    }
}

} // verus!
