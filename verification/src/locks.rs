//! Advisory per-path file locks with owner tracking.
//!
//! The lock table is modelled as a map from path to lock, so a path has at
//! most one lock by construction. Every operation is specified as a function
//! on that map.

use vstd::prelude::*;
use crate::clock::{now, Timestamp};
use crate::assoc::{
    assoc, lemma_assoc_entry, lemma_assoc_push, lemma_assoc_remove, lemma_assoc_update,
    lemma_push_to_set,
};
use crate::text::{cat5, str_eq};

verus! {

/// Kind of lock held on a file.
#[derive(Debug, Clone, Copy, PartialEq, Eq, Structural)]
pub enum LockType {
    Editor,
    TaskView,
}

/// A lock held on one path by one client.
#[derive(Debug, Clone)]
pub struct LockInfo {
    pub path: String,
    pub client_id: String,
    pub lock_type: LockType,
    pub acquired_at: Timestamp,
}

/// Mathematical value of a [`LockInfo`].
pub struct LockView {
    pub path: Seq<char>,
    pub client_id: Seq<char>,
    pub lock_type: LockType,
    pub acquired_at: Timestamp,
}

impl View for LockInfo {
    type V = LockView;

    open spec fn view(&self) -> LockView {
        LockView {
            path: self.path@,
            client_id: self.client_id@,
            lock_type: self.lock_type,
            acquired_at: self.acquired_at,
        }
    }
}

/// Why a lock operation was refused.
#[derive(Debug, Clone)]
pub enum LockError {
    /// Another client holds the lock.
    AlreadyLocked { holder: String, lock_type: LockType },
    /// The path has no lock.
    NotLocked,
    /// The lock belongs to another client.
    NotOwner,
}

/// Mathematical value of a [`LockError`].
pub enum LockErrorView {
    AlreadyLocked { holder: Seq<char>, lock_type: LockType },
    NotLocked,
    NotOwner,
}

impl View for LockError {
    type V = LockErrorView;

    open spec fn view(&self) -> LockErrorView {
        match self {
            LockError::AlreadyLocked { holder, lock_type } => LockErrorView::AlreadyLocked {
                holder: holder@,
                lock_type: *lock_type,
            },
            LockError::NotLocked => LockErrorView::NotLocked,
            LockError::NotOwner => LockErrorView::NotOwner,
        }
    }
}

/// The name of a lock kind as shown in messages.
pub open spec fn kind_name(kind: LockType) -> Seq<char> {
    match kind {
        LockType::Editor => "Editor"@,
        LockType::TaskView => "TaskView"@,
    }
}

/// The text shown for a refusal.
pub open spec fn lock_error_text(e: LockErrorView) -> Seq<char> {
    match e {
        LockErrorView::AlreadyLocked { holder, lock_type } => "File already locked by "@ + holder
            + " ("@ + kind_name(lock_type) + ")"@,
        LockErrorView::NotLocked => "File is not locked"@,
        LockErrorView::NotOwner => "You do not own this lock"@,
    }
}

impl LockError {
    /// Returns the text shown for this refusal.
    pub fn message(&self) -> (s: String)
        ensures
            s@ == lock_error_text(self@),
    {
        match self {
            LockError::AlreadyLocked { holder, lock_type } => {
                let kind = match lock_type {
                    LockType::Editor => "Editor",
                    LockType::TaskView => "TaskView",
                };
                cat5("File already locked by ", holder.as_str(), " (", kind, ")")
            },
            LockError::NotLocked => "File is not locked".to_owned(),
            LockError::NotOwner => "You do not own this lock".to_owned(),
        }
    }
}

/// The lock table as a map from path to the lock on that path.
pub type LockTable = Map<Seq<char>, LockView>;

/// `path` is locked by a client other than `client`.
pub open spec fn held_by_other(table: LockTable, path: Seq<char>, client: Seq<char>) -> bool {
    table.dom().contains(path) && table[path].client_id != client
}

/// The paths locked by `client`.
pub open spec fn owned_by(table: LockTable, client: Seq<char>) -> Set<Seq<char>> {
    Set::new(|p: Seq<char>| table.dom().contains(p) && table[p].client_id == client)
}

/// The table after `client` asks for `path` at time `at`.
pub open spec fn table_after_acquire(
    table: LockTable,
    path: Seq<char>,
    client: Seq<char>,
    kind: LockType,
    at: Timestamp,
) -> LockTable {
    if held_by_other(table, path, client) {
        table
    } else {
        table.insert(path, LockView { path, client_id: client, lock_type: kind, acquired_at: at })
    }
}

/// The answer to `client` asking for `path` at time `at`.
pub open spec fn acquire_answer(
    table: LockTable,
    path: Seq<char>,
    client: Seq<char>,
    kind: LockType,
    at: Timestamp,
) -> Result<LockView, LockErrorView> {
    if held_by_other(table, path, client) {
        Err(
            LockErrorView::AlreadyLocked {
                holder: table[path].client_id,
                lock_type: table[path].lock_type,
            },
        )
    } else {
        Ok(LockView { path, client_id: client, lock_type: kind, acquired_at: at })
    }
}

/// The answer to `client` giving up `path`.
pub open spec fn release_answer(table: LockTable, path: Seq<char>, client: Seq<char>) -> Result<
    (),
    LockErrorView,
> {
    if !table.dom().contains(path) {
        Err(LockErrorView::NotLocked)
    } else if table[path].client_id != client {
        Err(LockErrorView::NotOwner)
    } else {
        Ok(())
    }
}

/// The table after `client` gives up `path`.
pub open spec fn table_after_release(
    table: LockTable,
    path: Seq<char>,
    client: Seq<char>,
) -> LockTable {
    if release_answer(table, path, client) is Ok {
        table.remove(path)
    } else {
        table
    }
}

/// The views of a result, `Ok` and `Err` taken separately.
pub open spec fn lock_result_view(r: Result<LockInfo, LockError>) -> Result<
    LockView,
    LockErrorView,
> {
    match r {
        Ok(l) => Ok(l@),
        Err(e) => Err(e@),
    }
}

/// The view of a release result.
pub open spec fn release_result_view(r: Result<(), LockError>) -> Result<(), LockErrorView> {
    match r {
        Ok(()) => Ok(()),
        Err(e) => Err(e@),
    }
}

/// The characters of each string.
pub open spec fn views_of(v: Seq<String>) -> Seq<Seq<char>> {
    Seq::new(v.len(), |i: int| v[i]@)
}

/// The view of each lock.
pub open spec fn lock_views(v: Seq<LockInfo>) -> Seq<LockView> {
    Seq::new(v.len(), |i: int| v[i]@)
}

/// The table after every lock of `client` is released.
pub open spec fn table_after_release_all(table: LockTable, client: Seq<char>) -> LockTable {
    table.remove_keys(owned_by(table, client))
}

/// Every lock is filed under its own path.
pub open spec fn keyed_by_path(table: LockTable) -> bool {
    forall|p: Seq<char>| table.dom().contains(p) ==> (#[trigger] table[p]).path == p
}

/// Acquiring, releasing and releasing all keep every lock filed under its
/// own path, so no path ever carries more than the one lock found there.
pub proof fn lemma_operations_keep_one_lock_per_path(
    table: LockTable,
    path: Seq<char>,
    client: Seq<char>,
    kind: LockType,
    at: Timestamp,
)
    requires
        keyed_by_path(table),
    ensures
        keyed_by_path(table_after_acquire(table, path, client, kind, at)),
        keyed_by_path(table_after_release(table, path, client)),
        keyed_by_path(table_after_release_all(table, client)),
{
}

/// Once client `a` has been granted the lock on `path`, a different client
/// `b` asking for it is refused with `a` and `a`'s kind named as the holder,
/// and `b` trying to release it is refused as not the owner; neither attempt
/// changes the table.
pub proof fn lemma_second_client_is_refused(
    table: LockTable,
    path: Seq<char>,
    a: Seq<char>,
    b: Seq<char>,
    kind_a: LockType,
    kind_b: LockType,
    at_a: Timestamp,
    at_b: Timestamp,
)
    requires
        a != b,
        acquire_answer(table, path, a, kind_a, at_a) is Ok,
    ensures
        ({
            let held = table_after_acquire(table, path, a, kind_a, at_a);
            &&& acquire_answer(held, path, b, kind_b, at_b) == Err::<LockView, LockErrorView>(
                LockErrorView::AlreadyLocked { holder: a, lock_type: kind_a },
            )
            &&& table_after_acquire(held, path, b, kind_b, at_b) == held
            &&& release_answer(held, path, b) == Err::<(), LockErrorView>(LockErrorView::NotOwner)
            &&& table_after_release(held, path, b) == held
        }),
{
}

/// One request for a lock: who asks, for which kind, and when.
pub struct Attempt {
    pub client: Seq<char>,
    pub kind: LockType,
    pub at: Timestamp,
}

/// The table after the attempts on `path` are served one after the other.
pub open spec fn table_after_attempts(
    table: LockTable,
    path: Seq<char>,
    attempts: Seq<Attempt>,
) -> LockTable
    decreases attempts.len(),
{
    if attempts.len() == 0 {
        table
    } else {
        let last = attempts.last();
        table_after_acquire(
            table_after_attempts(table, path, attempts.drop_last()),
            path,
            last.client,
            last.kind,
            last.at,
        )
    }
}

/// The answer to attempt `i`, served after the attempts before it.
pub open spec fn answer_to_attempt(
    table: LockTable,
    path: Seq<char>,
    attempts: Seq<Attempt>,
    i: int,
) -> Result<LockView, LockErrorView> {
    acquire_answer(
        table_after_attempts(table, path, attempts.take(i)),
        path,
        attempts[i].client,
        attempts[i].kind,
        attempts[i].at,
    )
}

/// The lock that the first of the attempts is granted.
pub open spec fn winning_lock(path: Seq<char>, attempts: Seq<Attempt>) -> LockView {
    LockView {
        path,
        client_id: attempts[0].client,
        lock_type: attempts[0].kind,
        acquired_at: attempts[0].at,
    }
}

/// However many distinct clients ask for an unlocked path, in whatever order
/// the table serves them, exactly one is granted the lock: the one served
/// first. Every other is refused with the winner's identity and kind, and
/// afterwards the path carries the winner's lock and no other path has
/// changed.
pub proof fn lemma_one_winner(table: LockTable, path: Seq<char>, attempts: Seq<Attempt>)
    requires
        !table.dom().contains(path),
        attempts.len() >= 1,
        forall|i: int, j: int|
            0 <= i < j < attempts.len() ==> attempts[i].client != attempts[j].client,
    ensures
        answer_to_attempt(table, path, attempts, 0) == Ok::<LockView, LockErrorView>(
            winning_lock(path, attempts),
        ),
        forall|i: int|
            1 <= i < attempts.len() ==> #[trigger] answer_to_attempt(table, path, attempts, i)
                == Err::<LockView, LockErrorView>(
                LockErrorView::AlreadyLocked {
                    holder: attempts[0].client,
                    lock_type: attempts[0].kind,
                },
            ),
        table_after_attempts(table, path, attempts) == table.insert(
            path,
            winning_lock(path, attempts),
        ),
{
    assert(attempts.take(0) =~= Seq::<Attempt>::empty());
    assert forall|n: int| 1 <= n <= attempts.len() implies #[trigger] table_after_attempts(
        table,
        path,
        attempts.take(n),
    ) == table.insert(path, winning_lock(path, attempts)) by {
        lemma_attempts_prefix(table, path, attempts, n);
    }
    assert(attempts.take(attempts.len() as int) =~= attempts);
    assert forall|i: int| 1 <= i < attempts.len() implies #[trigger] answer_to_attempt(
        table,
        path,
        attempts,
        i,
    ) == Err::<LockView, LockErrorView>(
        LockErrorView::AlreadyLocked { holder: attempts[0].client, lock_type: attempts[0].kind },
    ) by {
        lemma_attempts_prefix(table, path, attempts, i);
    }
}

/// After the first `n` attempts, at least one, the path carries the lock of
/// the first.
proof fn lemma_attempts_prefix(table: LockTable, path: Seq<char>, attempts: Seq<Attempt>, n: int)
    requires
        !table.dom().contains(path),
        1 <= n <= attempts.len(),
        forall|i: int, j: int|
            0 <= i < j < attempts.len() ==> attempts[i].client != attempts[j].client,
    ensures
        table_after_attempts(table, path, attempts.take(n)) == table.insert(
            path,
            winning_lock(path, attempts),
        ),
    decreases n,
{
    let head = attempts.take(n);
    assert(head.drop_last() =~= attempts.take(n - 1));
    assert(head.last() == attempts[n - 1]);
    if n == 1 {
        assert(attempts.take(0) =~= Seq::<Attempt>::empty());
        assert(table_after_attempts(table, path, attempts.take(0)) == table);
    } else {
        lemma_attempts_prefix(table, path, attempts, n - 1);
        assert(attempts[0].client != attempts[n - 1].client);
    }
}

/// Releasing every lock of a client leaves that client owning nothing and
/// leaves every other client's locks as they were.
pub proof fn lemma_release_all_frees_owner(table: LockTable, client: Seq<char>)
    ensures
        owned_by(table_after_release_all(table, client), client) == Set::<Seq<char>>::empty(),
        forall|p: Seq<char>|
            owned_by(table, client).contains(p) ==> !table_after_release_all(
                table,
                client,
            ).dom().contains(p),
        forall|p: Seq<char>|
            table.dom().contains(p) && table[p].client_id != client
                ==> table_after_release_all(table, client).dom().contains(p)
                && table_after_release_all(table, client)[p] == table[p],
{
    assert(owned_by(table_after_release_all(table, client), client) =~= Set::<Seq<char>>::empty());
}

/// A client that held nothing and is then granted locks on `p1` and `p2`
/// owns exactly those two paths, so releasing all its locks frees exactly
/// `p1` and `p2` and leaves both unlocked.
pub proof fn lemma_release_all_after_two_acquires(
    table: LockTable,
    client: Seq<char>,
    p1: Seq<char>,
    p2: Seq<char>,
    kind1: LockType,
    kind2: LockType,
    at1: Timestamp,
    at2: Timestamp,
)
    requires
        owned_by(table, client) == Set::<Seq<char>>::empty(),
        !table.dom().contains(p1),
        !table.dom().contains(p2),
    ensures
        ({
            let one = table_after_acquire(table, p1, client, kind1, at1);
            let two = table_after_acquire(one, p2, client, kind2, at2);
            &&& acquire_answer(table, p1, client, kind1, at1) is Ok
            &&& acquire_answer(one, p2, client, kind2, at2) is Ok
            &&& owned_by(two, client) == set![p1, p2]
            &&& !table_after_release_all(two, client).dom().contains(p1)
            &&& !table_after_release_all(two, client).dom().contains(p2)
            &&& table_after_release_all(two, client) == table
        }),
{
    let one = table_after_acquire(table, p1, client, kind1, at1);
    let two = table_after_acquire(one, p2, client, kind2, at2);
    assert forall|p: Seq<char>| owned_by(two, client).contains(p) <==> (p == p1 || p == p2) by {
        if p != p1 && p != p2 {
            if two.dom().contains(p) && two[p].client_id == client {
                assert(owned_by(table, client).contains(p));
            }
        }
    }
    assert(owned_by(two, client) =~= set![p1, p2]);
    assert(table_after_release_all(two, client) =~= table);
}

spec fn paths_of(locks: Seq<LockInfo>) -> Seq<Seq<char>> {
    Seq::new(locks.len(), |i: int| locks[i].path@)
}

spec fn distinct_paths(locks: Seq<LockInfo>) -> bool {
    paths_of(locks).no_duplicates()
}

spec fn table_of(locks: Seq<LockInfo>) -> LockTable {
    assoc(paths_of(locks), lock_views(locks))
}

proof fn lemma_table_entry(locks: Seq<LockInfo>, i: int)
    requires
        distinct_paths(locks),
        0 <= i < locks.len(),
    ensures
        table_of(locks).dom().contains(locks[i].path@),
        table_of(locks)[locks[i].path@] == locks[i]@,
{
    lemma_assoc_entry(paths_of(locks), lock_views(locks), i);
}

proof fn lemma_table_keyed(locks: Seq<LockInfo>)
    requires
        distinct_paths(locks),
    ensures
        keyed_by_path(table_of(locks)),
{
    assert forall|p: Seq<char>| table_of(locks).dom().contains(p) implies (
    #[trigger] table_of(locks)[p]).path == p by {
        let i = paths_of(locks).index_of(p);
        lemma_table_entry(locks, i);
    }
}

proof fn lemma_table_push(locks: Seq<LockInfo>, lock: LockInfo)
    requires
        distinct_paths(locks),
        !paths_of(locks).contains(lock.path@),
    ensures
        distinct_paths(locks.push(lock)),
        table_of(locks.push(lock)) == table_of(locks).insert(lock.path@, lock@),
{
    lemma_assoc_push(paths_of(locks), lock_views(locks), lock.path@, lock@);
    assert(paths_of(locks.push(lock)) =~= paths_of(locks).push(lock.path@));
    assert(lock_views(locks.push(lock)) =~= lock_views(locks).push(lock@));
}

proof fn lemma_table_update(locks: Seq<LockInfo>, i: int, lock: LockInfo)
    requires
        distinct_paths(locks),
        0 <= i < locks.len(),
        lock.path@ == locks[i].path@,
    ensures
        distinct_paths(locks.update(i, lock)),
        table_of(locks.update(i, lock)) == table_of(locks).insert(lock.path@, lock@),
{
    lemma_assoc_update(paths_of(locks), lock_views(locks), i, lock@);
    assert(paths_of(locks.update(i, lock)) =~= paths_of(locks));
    assert(lock_views(locks.update(i, lock)) =~= lock_views(locks).update(i, lock@));
}

proof fn lemma_table_remove(locks: Seq<LockInfo>, i: int)
    requires
        distinct_paths(locks),
        0 <= i < locks.len(),
    ensures
        distinct_paths(locks.remove(i)),
        table_of(locks.remove(i)) == table_of(locks).remove(locks[i].path@),
{
    lemma_assoc_remove(paths_of(locks), lock_views(locks), i);
    assert(paths_of(locks.remove(i)) =~= paths_of(locks).remove(i));
    assert(lock_views(locks.remove(i)) =~= lock_views(locks).remove(i));
}

/// Finds the entry for `path`.
fn position_of(locks: &Vec<LockInfo>, path: &str) -> (r: Option<usize>)
    ensures
        match r {
            Some(i) => i < locks.len() && locks[i as int].path@ == path@,
            None => !paths_of(locks@).contains(path@),
        },
{
    let mut i: usize = 0;
    while i < locks.len()
        invariant
            i <= locks.len(),
            forall|j: int| 0 <= j < i ==> locks[j].path@ != path@,
        decreases locks.len() - i,
    {
        if str_eq(locks[i].path.as_str(), path) {
            return Some(i);
        }
        i += 1;
    }
    None
}

impl LockInfo {
    /// A copy of this lock.
    pub fn duplicate(&self) -> (r: LockInfo)
        ensures
            r@ == self@,
    {
        LockInfo {
            path: self.path.clone(),
            client_id: self.client_id.clone(),
            lock_type: self.lock_type,
            acquired_at: self.acquired_at,
        }
    }
}

/// The table of advisory locks, at most one per path.
#[derive(Debug)]
pub struct FileLockManager {
    locks: Vec<LockInfo>,
}

impl View for FileLockManager {
    type V = LockTable;

    closed spec fn view(&self) -> LockTable {
        table_of(self.locks@)
    }
}

impl FileLockManager {
    #[verifier::type_invariant]
    spec fn one_lock_per_path(self) -> bool {
        distinct_paths(self.locks@)
    }

    /// An empty table: every path is unlocked.
    pub fn new() -> (m: Self)
        ensures
            m@ == Map::<Seq<char>, LockView>::empty(),
            keyed_by_path(m@),
    {
        let m = FileLockManager { locks: Vec::new() };
        assert(m@ =~= Map::<Seq<char>, LockView>::empty());
        m
    }

    /// Asks for the lock on `path` for `client_id`, stamped with time `at`.
    ///
    /// Succeeds when the path is unlocked or already locked by `client_id`,
    /// whose lock then takes the new kind and time. Fails with the holder's
    /// identity and kind when another client holds it; the table is then
    /// unchanged.
    pub fn acquire_at(
        &mut self,
        path: &str,
        client_id: &str,
        lock_type: LockType,
        at: Timestamp,
    ) -> (r: Result<LockInfo, LockError>)
        ensures
            lock_result_view(r) == acquire_answer(
                old(self)@,
                path@,
                client_id@,
                lock_type,
                at,
            ),
            final(self)@ == table_after_acquire(old(self)@, path@, client_id@, lock_type, at),
            keyed_by_path(final(self)@),
    {
        proof {
            use_type_invariant(&*self);
            lemma_table_keyed(self.locks@);
            lemma_operations_keep_one_lock_per_path(self@, path@, client_id@, lock_type, at);
        }
        let found = position_of(&self.locks, path);
        match found {
            Some(i) => {
                proof {
                    lemma_table_entry(self.locks@, i as int);
                }
                if !str_eq(self.locks[i].client_id.as_str(), client_id) {
                    return Err(
                        LockError::AlreadyLocked {
                            holder: self.locks[i].client_id.clone(),
                            lock_type: self.locks[i].lock_type,
                        },
                    );
                }
                let lock = LockInfo {
                    path: path.to_owned(),
                    client_id: client_id.to_owned(),
                    lock_type,
                    acquired_at: at,
                };
                let out = lock.duplicate();
                proof {
                    lemma_table_update(self.locks@, i as int, lock);
                }
                let mut locks: Vec<LockInfo> = Vec::new();
                core::mem::swap(&mut locks, &mut self.locks);
                locks.set(i, lock);
                self.locks = locks;
                Ok(out)
            },
            None => {
                let lock = LockInfo {
                    path: path.to_owned(),
                    client_id: client_id.to_owned(),
                    lock_type,
                    acquired_at: at,
                };
                let out = lock.duplicate();
                proof {
                    lemma_table_push(self.locks@, lock);
                }
                let mut locks: Vec<LockInfo> = Vec::new();
                core::mem::swap(&mut locks, &mut self.locks);
                locks.push(lock);
                self.locks = locks;
                Ok(out)
            },
        }
    }

    /// Asks for the lock on `path` for `client_id`, stamped with the current
    /// time.
    ///
    /// The outcome is that of [`Self::acquire_at`] for whatever time the
    /// clock gave: path, owner and kind of a granted lock are as asked.
    pub fn acquire(&mut self, path: &str, client_id: &str, lock_type: LockType) -> (r: Result<
        LockInfo,
        LockError,
    >)
        ensures
            exists|at: Timestamp|
                {
                    &&& lock_result_view(r) == #[trigger] acquire_answer(
                        old(self)@,
                        path@,
                        client_id@,
                        lock_type,
                        at,
                    )
                    &&& final(self)@ == table_after_acquire(
                        old(self)@,
                        path@,
                        client_id@,
                        lock_type,
                        at,
                    )
                },
            keyed_by_path(final(self)@),
    {
        let at = now();
        self.acquire_at(path, client_id, lock_type, at)
    }

    /// Gives up the lock on `path`.
    ///
    /// Fails with `NotLocked` when the path has no lock and with `NotOwner`
    /// when another client holds it; otherwise the lock is removed.
    pub fn release(&mut self, path: &str, client_id: &str) -> (r: Result<(), LockError>)
        ensures
            release_result_view(r) == release_answer(old(self)@, path@, client_id@),
            final(self)@ == table_after_release(old(self)@, path@, client_id@),
            keyed_by_path(final(self)@),
    {
        proof {
            use_type_invariant(&*self);
            lemma_table_keyed(self.locks@);
        }
        let found = position_of(&self.locks, path);
        match found {
            Some(i) => {
                proof {
                    lemma_table_entry(self.locks@, i as int);
                }
                if !str_eq(self.locks[i].client_id.as_str(), client_id) {
                    return Err(LockError::NotOwner);
                }
                proof {
                    lemma_table_remove(self.locks@, i as int);
                }
                let mut locks: Vec<LockInfo> = Vec::new();
                core::mem::swap(&mut locks, &mut self.locks);
                locks.remove(i);
                self.locks = locks;
                Ok(())
            },
            None => Err(LockError::NotLocked),
        }
    }

    /// The lock on `path`, if there is one.
    pub fn is_locked(&self, path: &str) -> (r: Option<LockInfo>)
        ensures
            match r {
                Some(lock) => self@.dom().contains(path@) && lock@ == self@[path@] && lock@.path
                    == path@,
                None => !self@.dom().contains(path@),
            },
    {
        proof {
            use_type_invariant(self);
        }
        match position_of(&self.locks, path) {
            Some(i) => {
                proof {
                    lemma_table_entry(self.locks@, i as int);
                }
                Some(self.locks[i].duplicate())
            },
            None => None,
        }
    }

    /// The lock on `path` if a client other than `client_id` holds it.
    pub fn is_locked_by_other(&self, path: &str, client_id: &str) -> (r: Option<LockInfo>)
        ensures
            match r {
                Some(lock) => held_by_other(self@, path@, client_id@) && lock@ == self@[path@],
                None => !held_by_other(self@, path@, client_id@),
            },
    {
        match self.is_locked(path) {
            Some(lock) => {
                if !str_eq(lock.client_id.as_str(), client_id) {
                    Some(lock)
                } else {
                    None
                }
            },
            None => None,
        }
    }

    /// Removes every lock that `client_id` holds and returns the freed paths.
    ///
    /// Each freed path is returned once; locks of other clients stay as they
    /// were.
    pub fn release_all_for_client(&mut self, client_id: &str) -> (paths: Vec<String>)
        ensures
            views_of(paths@).to_set() == owned_by(old(self)@, client_id@),
            views_of(paths@).no_duplicates(),
            final(self)@ == table_after_release_all(old(self)@, client_id@),
            keyed_by_path(final(self)@),
    {
        proof {
            use_type_invariant(&*self);
            lemma_table_keyed(self.locks@);
        }
        let ghost before = self@;
        let mut locks: Vec<LockInfo> = Vec::new();
        core::mem::swap(&mut locks, &mut self.locks);
        let mut paths: Vec<String> = Vec::new();
        let mut i: usize = 0;
        assert(table_of(locks@) =~= before.remove_keys(views_of(paths@).to_set()));
        while i < locks.len()
            invariant
                i <= locks.len(),
                distinct_paths(locks@),
                forall|j: int| 0 <= j < i ==> locks[j].client_id@ != client_id@,
                table_of(locks@) == before.remove_keys(views_of(paths@).to_set()),
                views_of(paths@).to_set().subset_of(owned_by(before, client_id@)),
                views_of(paths@).no_duplicates(),
            decreases locks.len() - i,
        {
            if str_eq(locks[i].client_id.as_str(), client_id) {
                proof {
                    lemma_table_entry(locks@, i as int);
                    lemma_table_remove(locks@, i as int);
                }
                let ghost prev_paths = views_of(paths@);
                let lock = locks.remove(i);
                paths.push(lock.path);
                proof {
                    let p = lock.path@;
                    assert(views_of(paths@) =~= prev_paths.push(p));
                    assert(!prev_paths.contains(p));
                    lemma_push_to_set(prev_paths, p);
                    assert(table_of(locks@) =~= before.remove_keys(views_of(paths@).to_set()));
                    assert(before.dom().contains(p) && before[p].client_id == client_id@);
                }
            } else {
                i += 1;
            }
        }
        proof {
            let freed = views_of(paths@).to_set();
            assert forall|p: Seq<char>| owned_by(before, client_id@).contains(p) implies freed.contains(
                p,
            ) by {
                if !freed.contains(p) {
                    assert(table_of(locks@).dom().contains(p));
                    let k = paths_of(locks@).index_of(p);
                    lemma_table_entry(locks@, k);
                }
            }
            assert(freed =~= owned_by(before, client_id@));
        }
        self.locks = locks;
        paths
    }

    /// Every lock in the table, each path once.
    pub fn get_all_locks(&self) -> (all: Vec<LockInfo>)
        ensures
            keyed_by_path(self@),
            forall|i: int, j: int|
                0 <= i < all.len() && 0 <= j < all.len() && i != j ==> all[i].path@
                    != all[j].path@,
            forall|i: int|
                0 <= i < all.len() ==> self@.dom().contains(#[trigger] all[i].path@)
                    && self@[all[i].path@] == all[i]@,
            forall|p: Seq<char>|
                self@.dom().contains(p) ==> exists|i: int|
                    0 <= i < all.len() && #[trigger] all[i].path@ == p,
    {
        proof {
            use_type_invariant(self);
            lemma_table_keyed(self.locks@);
        }
        let mut all: Vec<LockInfo> = Vec::new();
        let mut i: usize = 0;
        while i < self.locks.len()
            invariant
                i <= self.locks.len(),
                all.len() == i,
                forall|j: int| 0 <= j < i ==> all[j]@ == self.locks[j]@,
            decreases self.locks.len() - i,
        {
            all.push(self.locks[i].duplicate());
            i += 1;
        }
        proof {
            assert forall|x: int, y: int|
                0 <= x < all.len() && 0 <= y < all.len() && x != y implies all[x].path@
                != all[y].path@ by {
                assert(paths_of(self.locks@)[x] == all[x].path@);
                assert(paths_of(self.locks@)[y] == all[y].path@);
            }
            assert forall|k: int| 0 <= k < all.len() implies self@.dom().contains(
                #[trigger] all[k].path@,
            ) && self@[all[k].path@] == all[k]@ by {
                lemma_table_entry(self.locks@, k);
            }
            assert forall|p: Seq<char>| self@.dom().contains(p) implies exists|k: int|
                0 <= k < all.len() && #[trigger] all[k].path@ == p by {
                let k = paths_of(self.locks@).index_of(p);
                assert(all[k].path@ == p);
            }
        }
        all
    }
}

impl Default for FileLockManager {
    fn default() -> (m: Self)
        ensures
            m@ == Map::<Seq<char>, LockView>::empty(),
    {
        FileLockManager::new()
    }
}

} // verus!
