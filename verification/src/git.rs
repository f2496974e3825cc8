//! The decisions of the version-control layer.
//!
//! The repository itself is read and written by the caller. What it read
//! arrives here as plain values; what is reported, committed or refused is
//! decided here.

use vstd::prelude::*;
use crate::clock::{
    minute_stamp, minute_text, now, rfc3339, rfc3339_text, text_view, time_text, time_text_of,
    Timestamp,
};
use crate::locks::views_of;
use crate::text::{chars_of, push_all, str_eq, string_of, take_front_exec, trim, trim_exec};

verus! {

/// How many commits a history listing holds when the caller names no limit.
pub const DEFAULT_LOG_LIMIT: usize = 50;

/// Seconds between two automatic commits.
pub const AUTO_COMMIT_INTERVAL_SECS: u64 = 60;

/// The message of a commit made without one.
pub open spec fn default_message() -> Seq<char> {
    "Auto-save"@
}

/// The state of one changed file.
#[derive(Debug, Clone)]
pub struct FileStatus {
    pub path: String,
    /// `new`, `modified`, `deleted` or `renamed`.
    pub status: String,
}

/// Mathematical value of a [`FileStatus`].
pub struct FileStatusView {
    pub path: Seq<char>,
    pub status: Seq<char>,
}

impl View for FileStatus {
    type V = FileStatusView;

    open spec fn view(&self) -> FileStatusView {
        FileStatusView { path: self.path@, status: self.status@ }
    }
}

/// Summary of a commit.
#[derive(Debug, Clone)]
pub struct CommitInfo {
    pub id: String,
    pub message: String,
    pub timestamp: String,
}

/// Mathematical value of a [`CommitInfo`].
pub struct CommitInfoView {
    pub id: Seq<char>,
    pub message: Seq<char>,
    pub timestamp: Seq<char>,
}

impl View for CommitInfo {
    type V = CommitInfoView;

    open spec fn view(&self) -> CommitInfoView {
        CommitInfoView { id: self.id@, message: self.message@, timestamp: self.timestamp@ }
    }
}

/// The status of the repository.
#[derive(Debug)]
pub struct RepoStatus {
    pub is_repo: bool,
    pub branch: Option<String>,
    pub files: Vec<FileStatus>,
    pub has_changes: bool,
    pub last_commit: Option<CommitInfo>,
}

/// Mathematical value of a [`RepoStatus`].
pub struct RepoStatusView {
    pub is_repo: bool,
    pub branch: Option<Seq<char>>,
    pub files: Seq<FileStatusView>,
    pub has_changes: bool,
    pub last_commit: Option<CommitInfoView>,
}

/// The view of each file status.
pub open spec fn file_status_views(v: Seq<FileStatus>) -> Seq<FileStatusView> {
    Seq::new(v.len(), |i: int| v[i]@)
}

/// The view of an optional commit summary.
pub open spec fn commit_view(c: Option<CommitInfo>) -> Option<CommitInfoView> {
    match c {
        Some(info) => Some(info@),
        None => None,
    }
}

impl View for RepoStatus {
    type V = RepoStatusView;

    open spec fn view(&self) -> RepoStatusView {
        RepoStatusView {
            is_repo: self.is_repo,
            branch: text_view(self.branch),
            files: file_status_views(self.files@),
            has_changes: self.has_changes,
            last_commit: commit_view(self.last_commit),
        }
    }
}

/// The flags that the repository reports for one path.
#[derive(Debug, Clone, Copy, PartialEq, Eq, Structural)]
pub struct StatusFlags {
    pub index_new: bool,
    pub index_modified: bool,
    pub index_deleted: bool,
    pub index_renamed: bool,
    pub wt_new: bool,
    pub wt_modified: bool,
    pub wt_deleted: bool,
    pub wt_renamed: bool,
    pub conflicted: bool,
}

/// One entry of the repository's status listing. The path is `None` where
/// it is not valid text.
#[derive(Debug, Clone)]
pub struct StatusEntry {
    pub path: Option<String>,
    pub flags: StatusFlags,
}

/// The commit that `HEAD` points to, as read from the repository. The
/// message is `None` where it is not valid text.
#[derive(Debug, Clone)]
pub struct HeadCommit {
    pub id: String,
    pub message: Option<String>,
    pub seconds: i64,
}

/// What was read from an open repository.
#[derive(Debug, Clone)]
pub struct RepoSnapshot {
    /// Short name of the current branch.
    pub branch: Option<String>,
    /// The status listing, untracked files included.
    pub entries: Vec<StatusEntry>,
    /// The commit at `HEAD`, if there is one.
    pub head: Option<HeadCommit>,
}

/// The state of the document root as a repository.
#[derive(Debug, Clone, Copy, PartialEq, Eq, Structural)]
pub enum RepoState {
    NoRepo,
    Clean,
    Dirty,
    Conflicted,
}

/// How a path with these flags is classified; `None` if it is unchanged.
pub open spec fn status_label(f: StatusFlags) -> Option<Seq<char>> {
    if f.index_new || f.wt_new {
        Some("new"@)
    } else if f.index_modified || f.wt_modified {
        Some("modified"@)
    } else if f.index_deleted || f.wt_deleted {
        Some("deleted"@)
    } else if f.index_renamed || f.wt_renamed {
        Some("renamed"@)
    } else {
        None
    }
}

/// The reported status of one entry; `None` if it has no path or no change.
pub open spec fn file_status_of(e: StatusEntry) -> Option<FileStatusView> {
    match (e.path, status_label(e.flags)) {
        (Some(p), Some(label)) => Some(FileStatusView { path: p@, status: label }),
        _ => None,
    }
}

/// The reported statuses of a listing, in its order.
pub open spec fn file_statuses(entries: Seq<StatusEntry>) -> Seq<FileStatusView>
    decreases entries.len(),
{
    if entries.len() == 0 {
        Seq::empty()
    } else {
        match file_status_of(entries.last()) {
            Some(s) => file_statuses(entries.drop_last()).push(s),
            None => file_statuses(entries.drop_last()),
        }
    }
}

/// The first `n` characters of `s`, or all of it if it is shorter.
pub open spec fn prefix(s: Seq<char>, n: int) -> Seq<char> {
    s.take(if n <= s.len() { n } else { s.len() as int })
}

/// The summary of the commit at `HEAD`; `None` if its message is not text
/// or its time cannot be represented.
pub open spec fn head_summary(head: Option<HeadCommit>) -> Option<CommitInfoView> {
    match head {
        Some(c) => match (c.message, rfc3339_text(c.seconds as int, 0)) {
            (Some(m), Some(stamp)) => Some(
                CommitInfoView { id: prefix(c.id@, 8), message: trim(m@), timestamp: stamp },
            ),
            _ => None,
        },
        None => None,
    }
}

/// The status reported for what was read; `None` stands for a document root
/// that is no repository.
pub open spec fn status_of(snapshot: Option<RepoSnapshot>) -> RepoStatusView {
    match snapshot {
        None => RepoStatusView {
            is_repo: false,
            branch: None,
            files: Seq::empty(),
            has_changes: false,
            last_commit: None,
        },
        Some(s) => RepoStatusView {
            is_repo: true,
            branch: text_view(s.branch),
            files: file_statuses(s.entries@),
            has_changes: file_statuses(s.entries@).len() > 0,
            last_commit: head_summary(s.head),
        },
    }
}

/// Some entry of the listing is in conflict.
pub open spec fn any_conflicted(entries: Seq<StatusEntry>) -> bool {
    exists|i: int| 0 <= i < entries.len() && (#[trigger] entries[i]).flags.conflicted
}

/// The state that applies to what was read.
pub open spec fn state_of(snapshot: Option<RepoSnapshot>) -> RepoState {
    match snapshot {
        None => RepoState::NoRepo,
        Some(s) => if any_conflicted(s.entries@) {
            RepoState::Conflicted
        } else if file_statuses(s.entries@).len() > 0 {
            RepoState::Dirty
        } else {
            RepoState::Clean
        },
    }
}

/// Classifies a path by its flags.
pub fn status_label_of(f: StatusFlags) -> (r: Option<&'static str>)
    ensures
        match r {
            Some(s) => status_label(f) == Some(s@),
            None => status_label(f) is None,
        },
{
    if f.index_new || f.wt_new {
        Some("new")
    } else if f.index_modified || f.wt_modified {
        Some("modified")
    } else if f.index_deleted || f.wt_deleted {
        Some("deleted")
    } else if f.index_renamed || f.wt_renamed {
        Some("renamed")
    } else {
        None
    }
}

/// Returns the first `n` characters of `s`.
pub fn prefix_of(s: &str, n: usize) -> (r: String)
    ensures
        r@ == prefix(s@, n as int),
{
    let chars = chars_of(s);
    string_of(&take_front_exec(&chars, n))
}

/// Returns `s` without leading and trailing white space.
pub fn trimmed(s: &str) -> (r: String)
    ensures
        r@ == trim(s@),
{
    let chars = chars_of(s);
    string_of(&trim_exec(&chars))
}

/// Builds the reported statuses of a listing.
pub fn collect_file_statuses(entries: &Vec<StatusEntry>) -> (files: Vec<FileStatus>)
    ensures
        file_status_views(files@) == file_statuses(entries@),
{
    let mut files: Vec<FileStatus> = Vec::new();
    let mut i: usize = 0;
    assert(entries@.take(0) =~= Seq::<StatusEntry>::empty());
    assert(file_status_views(files@) =~= Seq::<FileStatusView>::empty());
    while i < entries.len()
        invariant
            i <= entries.len(),
            file_status_views(files@) == file_statuses(entries@.take(i as int)),
        decreases entries.len() - i,
    {
        proof {
            let next = entries@.take(i + 1);
            assert(next.drop_last() =~= entries@.take(i as int));
            assert(next.last() == entries@[i as int]);
        }
        let ghost before = file_status_views(files@);
        match (&entries[i].path, status_label_of(entries[i].flags)) {
            (Some(p), Some(label)) => {
                let f = FileStatus { path: p.clone(), status: label.to_owned() };
                files.push(f);
                assert(file_status_views(files@) =~= before.push(f@));
            },
            _ => {},
        }
        i += 1;
    }
    assert(entries@.take(i as int) =~= entries@);
    files
}

/// Builds the summary of the commit at `HEAD`.
pub fn summarize_head(head: &Option<HeadCommit>) -> (r: Option<CommitInfo>)
    ensures
        commit_view(r) == head_summary(*head),
{
    match head {
        Some(c) => {
            let stamp = rfc3339(Timestamp { secs: c.seconds, nanos: 0 });
            match (&c.message, stamp) {
                (Some(m), Some(timestamp)) => Some(
                    CommitInfo {
                        id: prefix_of(c.id.as_str(), 8),
                        message: trimmed(m.as_str()),
                        timestamp,
                    },
                ),
                _ => None,
            }
        },
        None => None,
    }
}

/// Reports the status of the document root from what was read of it.
/// `None` stands for a root that is no repository, which is a normal state
/// and no error.
pub fn get_status(snapshot: Option<RepoSnapshot>) -> (status: RepoStatus)
    ensures
        status@ == status_of(snapshot),
{
    match snapshot {
        None => {
            let status = RepoStatus {
                is_repo: false,
                branch: None,
                files: Vec::new(),
                has_changes: false,
                last_commit: None,
            };
            assert(status@.files =~= Seq::<FileStatusView>::empty());
            status
        },
        Some(s) => {
            let files = collect_file_statuses(&s.entries);
            let has_changes = files.len() > 0;
            let last_commit = summarize_head(&s.head);
            let status = RepoStatus {
                is_repo: true,
                branch: s.branch,
                files,
                has_changes,
                last_commit,
            };
            assert(status@.files =~= file_statuses(s.entries@));
            status
        },
    }
}

/// Tells which state applies to what was read.
#[verifier::loop_isolation(false)]
pub fn repo_state(snapshot: &Option<RepoSnapshot>) -> (state: RepoState)
    ensures
        state == state_of(*snapshot),
{
    match snapshot {
        None => RepoState::NoRepo,
        Some(s) => {
            let mut i: usize = 0;
            while i < s.entries.len()
                invariant
                    i <= s.entries.len(),
                    forall|j: int| 0 <= j < i ==> !(#[trigger] s.entries@[j]).flags.conflicted,
                decreases s.entries.len() - i,
            {
                if s.entries[i].flags.conflicted {
                    assert(s.entries@[i as int].flags.conflicted);
                    return RepoState::Conflicted;
                }
                i += 1;
            }
            let files = collect_file_statuses(&s.entries);
            if files.len() > 0 {
                RepoState::Dirty
            } else {
                RepoState::Clean
            }
        },
    }
}

/// Why a version-control operation gave no result.
#[derive(Debug, Clone)]
pub enum GitError {
    /// The document root is no repository.
    RepoMissing,
    /// The staged tree is the tree of the parent commit. A no-op signal, no
    /// failure.
    NoChanges,
    /// The repository refused the operation.
    OperationFailed { detail: String },
}

/// Mathematical value of a [`GitError`].
pub enum GitErrorView {
    RepoMissing,
    NoChanges,
    OperationFailed { detail: Seq<char> },
}

impl View for GitError {
    type V = GitErrorView;

    open spec fn view(&self) -> GitErrorView {
        match self {
            GitError::RepoMissing => GitErrorView::RepoMissing,
            GitError::NoChanges => GitErrorView::NoChanges,
            GitError::OperationFailed { detail } => GitErrorView::OperationFailed {
                detail: detail@,
            },
        }
    }
}

/// The text shown for an error.
pub open spec fn error_text(e: GitErrorView) -> Seq<char> {
    match e {
        GitErrorView::RepoMissing => "Not a git repository"@,
        GitErrorView::NoChanges => "No changes to commit"@,
        GitErrorView::OperationFailed { detail } => detail,
    }
}

impl GitError {
    /// Returns the text shown for this error.
    pub fn message(&self) -> (s: String)
        ensures
            s@ == error_text(self@),
    {
        match self {
            GitError::RepoMissing => "Not a git repository".to_owned(),
            GitError::NoChanges => "No changes to commit".to_owned(),
            GitError::OperationFailed { detail } => detail.clone(),
        }
    }
}

/// Staging everything changes the tree that `HEAD` holds.
pub open spec fn has_changes(parent_tree: Option<Seq<char>>, staged_tree: Seq<char>) -> bool {
    parent_tree != Some(staged_tree)
}

/// The tree at `HEAD` after a commit-all: the staged tree where there were
/// changes, the parent's tree as before where there were none.
pub open spec fn head_tree_after(parent_tree: Option<Seq<char>>, staged_tree: Seq<char>) -> Option<
    Seq<char>,
> {
    if has_changes(parent_tree, staged_tree) {
        Some(staged_tree)
    } else {
        parent_tree
    }
}

/// The message of a commit: the given or default message, then the time of
/// the commit to the minute in parentheses where that time has a text.
pub open spec fn full_message(message: Option<Seq<char>>, stamp: Option<Seq<char>>) -> Seq<char> {
    let base = match message {
        Some(m) => m,
        None => default_message(),
    };
    match stamp {
        Some(s) => base + " ("@ + s + ")"@,
        None => base,
    }
}

/// The outcome of a commit-all at time `at`: the message to commit with, or
/// `NoChanges`.
pub open spec fn commit_outcome(
    parent_tree: Option<Seq<char>>,
    staged_tree: Seq<char>,
    message: Option<Seq<char>>,
    at: Timestamp,
) -> Result<Seq<char>, GitErrorView> {
    if has_changes(parent_tree, staged_tree) {
        Ok(full_message(message, minute_text(at.secs as int, at.nanos as int)))
    } else {
        Err(GitErrorView::NoChanges)
    }
}

/// A commit-all that follows another with the same staged tree finds no
/// changes, whether the first one committed or found none itself.
pub proof fn lemma_second_commit_has_no_changes(
    parent_tree: Option<Seq<char>>,
    staged_tree: Seq<char>,
    message: Option<Seq<char>>,
    at: Timestamp,
)
    ensures
        !has_changes(head_tree_after(parent_tree, staged_tree), staged_tree),
        commit_outcome(head_tree_after(parent_tree, staged_tree), staged_tree, message, at)
            == Err::<Seq<char>, GitErrorView>(GitErrorView::NoChanges),
{
}

/// The view of a commit decision.
pub open spec fn decision_view(r: Result<String, GitError>) -> Result<Seq<char>, GitErrorView> {
    match r {
        Ok(m) => Ok(m@),
        Err(e) => Err(e@),
    }
}

/// The view of an optional string slice.
pub open spec fn str_view(s: Option<&str>) -> Option<Seq<char>> {
    match s {
        Some(t) => Some(t@),
        None => None,
    }
}

/// Decides a commit-all at time `at`, once everything is staged:
/// `staged_tree` names the staged tree and `parent_tree` the tree of the
/// commit at `HEAD`, if there is one. Returns the message to commit with,
/// or `NoChanges` when both trees are the same.
pub fn commit_all_at(
    parent_tree: Option<&str>,
    staged_tree: &str,
    message: Option<&str>,
    at: Timestamp,
) -> (r: Result<String, GitError>)
    ensures
        decision_view(r) == commit_outcome(
            str_view(parent_tree),
            staged_tree@,
            str_view(message),
            at,
        ),
{
    match parent_tree {
        Some(p) => {
            if str_eq(p, staged_tree) {
                return Err(GitError::NoChanges);
            }
        },
        None => {},
    }
    let mut text = match message {
        Some(m) => chars_of(m),
        None => chars_of("Auto-save"),
    };
    match minute_stamp(at) {
        Some(stamp) => {
            push_all(&mut text, &chars_of(" ("));
            push_all(&mut text, &chars_of(stamp.as_str()));
            push_all(&mut text, &chars_of(")"));
        },
        None => {},
    }
    Ok(string_of(&text))
}

/// Decides a commit-all now. See [`commit_all_at`].
pub fn commit_all(parent_tree: Option<&str>, staged_tree: &str, message: Option<&str>) -> (r:
    Result<String, GitError>)
    ensures
        exists|at: Timestamp|
            decision_view(r) == #[trigger] commit_outcome(
                str_view(parent_tree),
                staged_tree@,
                str_view(message),
                at,
            ),
        r is Ok <==> has_changes(str_view(parent_tree), staged_tree@),
{
    let at = now();
    commit_all_at(parent_tree, staged_tree, message, at)
}

/// Summarises a commit just made at time `at` under the identifier
/// `commit_id` with `message`.
pub fn commit_info_at(commit_id: &str, message: String, at: Timestamp) -> (info: CommitInfo)
    ensures
        info@ == (CommitInfoView {
            id: prefix(commit_id@, 8),
            message: message@,
            timestamp: time_text(at.secs as int, at.nanos as int),
        }),
{
    CommitInfo { id: prefix_of(commit_id, 8), message, timestamp: time_text_of(at) }
}

/// Summarises a commit just made, stamped with the current time. See
/// [`commit_info_at`].
pub fn commit_info(commit_id: &str, message: String) -> (info: CommitInfo)
    ensures
        exists|at: Timestamp|
            info@ == (CommitInfoView {
                id: prefix(commit_id@, 8),
                message: message@,
                timestamp: #[trigger] time_text(at.secs as int, at.nanos as int),
            }),
{
    let at = now();
    commit_info_at(commit_id, message, at)
}

/// What making the document root a repository takes.
#[derive(Debug, Clone, Copy, PartialEq, Eq, Structural)]
pub enum InitPlan {
    /// It is one already: nothing to do.
    Nothing,
    /// Create the repository, write the default ignore file if asked, and
    /// make the initial commit.
    Create { write_ignore: bool },
}

/// The plan for a root that is or is not a repository and does or does not
/// hold an ignore file.
pub open spec fn init_plan(is_repo: bool, ignore_exists: bool) -> InitPlan {
    if is_repo {
        InitPlan::Nothing
    } else {
        InitPlan::Create { write_ignore: !ignore_exists }
    }
}

/// The number of initial commits made by `calls` initialisations in a row,
/// the first on a root that is or is not a repository. Carrying out a plan
/// leaves a repository with an ignore file behind.
pub open spec fn initial_commits(is_repo: bool, ignore_exists: bool, calls: nat) -> nat
    decreases calls,
{
    if calls == 0 {
        0
    } else {
        let first: nat = if init_plan(is_repo, ignore_exists) is Create {
            1
        } else {
            0
        };
        first + initial_commits(true, true, (calls - 1) as nat)
    }
}

/// However often initialisation runs on a root that was no repository, one
/// repository is created and one initial commit made; on a repository,
/// none.
pub proof fn lemma_init_is_idempotent(is_repo: bool, ignore_exists: bool, calls: nat)
    ensures
        initial_commits(true, ignore_exists, calls) == 0,
        calls > 0 ==> initial_commits(false, ignore_exists, calls) == 1,
        init_plan(true, ignore_exists) == InitPlan::Nothing,
    decreases calls,
{
    if calls > 0 {
        lemma_init_is_idempotent(true, true, (calls - 1) as nat);
        lemma_init_is_idempotent(true, ignore_exists, (calls - 1) as nat);
    }
}

/// The contents of the default ignore file.
pub fn default_ignore() -> (s: &'static str)
    ensures
        s@ == "*.tmp\n.DS_Store\n"@,
{
    "*.tmp\n.DS_Store\n"
}

/// The message of the initial commit.
pub fn initial_message() -> (s: &'static str)
    ensures
        s@ == "Initial commit"@,
{
    "Initial commit"
}

/// Plans the initialisation of the document root, given whether it is a
/// repository and whether it holds an ignore file.
pub fn init_repo(is_repo: bool, ignore_exists: bool) -> (plan: InitPlan)
    ensures
        plan == init_plan(is_repo, ignore_exists),
{
    if is_repo {
        InitPlan::Nothing
    } else {
        InitPlan::Create { write_ignore: !ignore_exists }
    }
}

/// One conflict recorded in the index. The ancestor's path is `None` where
/// the conflict has no ancestor or its path is not valid text.
#[derive(Debug, Clone)]
pub struct IndexConflict {
    pub ancestor: Option<String>,
}

/// `d` with `x` appended unless it holds `x` already.
pub open spec fn add_unique(d: Seq<Seq<char>>, x: Seq<char>) -> Seq<Seq<char>> {
    if d.contains(x) {
        d
    } else {
        d.push(x)
    }
}

/// `s` with only the first occurrence of each value kept.
pub open spec fn dedup(s: Seq<Seq<char>>) -> Seq<Seq<char>>
    decreases s.len(),
{
    if s.len() == 0 {
        Seq::empty()
    } else {
        add_unique(dedup(s.drop_last()), s.last())
    }
}

/// The paths that the status listing flags as conflicted, in its order.
pub open spec fn conflicted_paths(entries: Seq<StatusEntry>) -> Seq<Seq<char>>
    decreases entries.len(),
{
    if entries.len() == 0 {
        Seq::empty()
    } else {
        let e = entries.last();
        match e.path {
            Some(p) => if e.flags.conflicted {
                conflicted_paths(entries.drop_last()).push(p@)
            } else {
                conflicted_paths(entries.drop_last())
            },
            None => conflicted_paths(entries.drop_last()),
        }
    }
}

/// The ancestor paths of the conflicts in the index, in its order.
pub open spec fn ancestor_paths(conflicts: Seq<IndexConflict>) -> Seq<Seq<char>>
    decreases conflicts.len(),
{
    if conflicts.len() == 0 {
        Seq::empty()
    } else {
        match conflicts.last().ancestor {
            Some(p) => ancestor_paths(conflicts.drop_last()).push(p@),
            None => ancestor_paths(conflicts.drop_last()),
        }
    }
}

/// The conflicted paths: those of the status listing, then those of the
/// index, each path once.
pub open spec fn conflict_paths(entries: Seq<StatusEntry>, conflicts: Seq<IndexConflict>) -> Seq<
    Seq<char>,
> {
    dedup(conflicted_paths(entries) + ancestor_paths(conflicts))
}

/// Deduplication keeps every value and repeats none.
pub proof fn lemma_dedup(s: Seq<Seq<char>>)
    ensures
        dedup(s).no_duplicates(),
        forall|x: Seq<char>| dedup(s).contains(x) <==> s.contains(x),
    decreases s.len(),
{
    if s.len() > 0 {
        let d = dedup(s.drop_last());
        lemma_dedup(s.drop_last());
        let x = s.last();
        let init = s.drop_last();
        assert forall|y: Seq<char>| dedup(s).contains(y) <==> s.contains(y) by {
            if s.contains(y) {
                let k = s.index_of(y);
                if k < s.len() - 1 {
                    assert(init[k] == y);
                    assert(init.contains(y));
                    assert(d.contains(y));
                    if !d.contains(x) {
                        let j = d.index_of(y);
                        assert(d.push(x)[j] == y);
                    }
                } else {
                    assert(y == x);
                    if !d.contains(x) {
                        assert(d.push(x)[d.len() as int] == x);
                    }
                }
                assert(dedup(s).contains(y));
            }
            if dedup(s).contains(y) {
                if d.contains(y) {
                    assert(init.contains(y));
                    let j = init.index_of(y);
                    assert(s[j] == y);
                } else {
                    let j = dedup(s).index_of(y);
                    assert(dedup(s) == d.push(x));
                    if j < d.len() {
                        assert(d[j] == y);
                    }
                    assert(y == x);
                    assert(s[s.len() - 1] == y);
                }
                assert(s.contains(y));
            }
        }
    }
}

/// Tells whether `v` holds the text `s`.
pub fn holds_text(v: &Vec<String>, s: &str) -> (r: bool)
    ensures
        r == views_of(v@).contains(s@),
{
    let mut i: usize = 0;
    while i < v.len()
        invariant
            i <= v.len(),
            forall|j: int| 0 <= j < i ==> views_of(v@)[j] != s@,
        decreases v.len() - i,
    {
        if str_eq(v[i].as_str(), s) {
            assert(views_of(v@)[i as int] == s@);
            return true;
        }
        i += 1;
    }
    false
}

fn push_unique(out: &mut Vec<String>, p: &str)
    ensures
        views_of(final(out)@) == add_unique(views_of(old(out)@), p@),
{
    if !holds_text(out, p) {
        out.push(p.to_owned());
        assert(views_of(out@) =~= views_of(old(out)@).push(p@));
    }
}

/// Lists the paths in conflict: those that the status listing flags, then
/// the ancestors of the conflicts in the index, each path once.
pub fn check_conflicts(entries: &Vec<StatusEntry>, conflicts: &Vec<IndexConflict>) -> (paths: Vec<
    String,
>)
    ensures
        views_of(paths@) == conflict_paths(entries@, conflicts@),
        views_of(paths@).no_duplicates(),
{
    let mut paths: Vec<String> = Vec::new();
    let mut i: usize = 0;
    assert(entries@.take(0) =~= Seq::<StatusEntry>::empty());
    assert(views_of(paths@) =~= Seq::<Seq<char>>::empty());
    while i < entries.len()
        invariant
            i <= entries.len(),
            views_of(paths@) == dedup(conflicted_paths(entries@.take(i as int))),
        decreases entries.len() - i,
    {
        proof {
            let next = entries@.take(i + 1);
            assert(next.drop_last() =~= entries@.take(i as int));
            assert(next.last() == entries@[i as int]);
            let before = conflicted_paths(entries@.take(i as int));
            match entries@[i as int].path {
                Some(p) => {
                    if entries@[i as int].flags.conflicted {
                        assert(before.push(p@).drop_last() =~= before);
                    }
                },
                None => {},
            }
        }
        if entries[i].flags.conflicted {
            match &entries[i].path {
                Some(p) => push_unique(&mut paths, p.as_str()),
                None => {},
            }
        }
        i += 1;
    }
    assert(entries@.take(i as int) =~= entries@);
    let ghost first = conflicted_paths(entries@);
    let mut j: usize = 0;
    assert(conflicts@.take(0) =~= Seq::<IndexConflict>::empty());
    assert(first + Seq::<Seq<char>>::empty() =~= first);
    while j < conflicts.len()
        invariant
            j <= conflicts.len(),
            first == conflicted_paths(entries@),
            views_of(paths@) == dedup(first + ancestor_paths(conflicts@.take(j as int))),
        decreases conflicts.len() - j,
    {
        proof {
            let next = conflicts@.take(j + 1);
            assert(next.drop_last() =~= conflicts@.take(j as int));
            assert(next.last() == conflicts@[j as int]);
            let before = ancestor_paths(conflicts@.take(j as int));
            match conflicts@[j as int].ancestor {
                Some(p) => {
                    assert((first + before.push(p@)).drop_last() =~= first + before);
                    assert((first + before.push(p@)).last() == p@);
                },
                None => {},
            }
        }
        match &conflicts[j].ancestor {
            Some(p) => push_unique(&mut paths, p.as_str()),
            None => {},
        }
        j += 1;
    }
    assert(conflicts@.take(j as int) =~= conflicts@);
    proof {
        lemma_dedup(first + ancestor_paths(conflicts@));
    }
    paths
}

/// One commit as read from the history walk.
#[derive(Debug, Clone)]
pub struct RawCommit {
    pub id: String,
    /// `None` where the message is not valid text.
    pub message: Option<String>,
    /// `None` where the author's name is not valid text.
    pub author: Option<String>,
    pub seconds: i64,
    pub parent_count: usize,
    /// Files changed against the first parent, where that could be
    /// computed.
    pub diff_files: Option<usize>,
    /// Blobs in the commit's tree, where the tree could be read.
    pub tree_blobs: Option<usize>,
}

/// A commit in a history listing.
#[derive(Debug, Clone)]
pub struct CommitDetail {
    pub id: String,
    pub short_id: String,
    pub message: String,
    pub author: String,
    pub timestamp: String,
    pub files_changed: usize,
}

/// Mathematical value of a [`CommitDetail`].
pub struct CommitDetailView {
    pub id: Seq<char>,
    pub short_id: Seq<char>,
    pub message: Seq<char>,
    pub author: Seq<char>,
    pub timestamp: Seq<char>,
    pub files_changed: usize,
}

impl View for CommitDetail {
    type V = CommitDetailView;

    open spec fn view(&self) -> CommitDetailView {
        CommitDetailView {
            id: self.id@,
            short_id: self.short_id@,
            message: self.message@,
            author: self.author@,
            timestamp: self.timestamp@,
            files_changed: self.files_changed,
        }
    }
}

/// The text, or `fallback` where there is none.
pub open spec fn text_or(s: Option<String>, fallback: Seq<char>) -> Seq<char> {
    match s {
        Some(t) => t@,
        None => fallback,
    }
}

/// The number of files a commit changed: against its first parent if it has
/// one, else every blob of its tree; zero where that could not be read.
pub open spec fn files_changed_of(c: RawCommit) -> usize {
    let count = if c.parent_count > 0 {
        c.diff_files
    } else {
        c.tree_blobs
    };
    match count {
        Some(n) => n,
        None => 0,
    }
}

/// The listing entry of a commit.
pub open spec fn detail_of(c: RawCommit) -> CommitDetailView {
    CommitDetailView {
        id: c.id@,
        short_id: prefix(c.id@, 8),
        message: trim(text_or(c.message, Seq::empty())),
        author: text_or(c.author, "Unknown"@),
        timestamp: time_text(c.seconds as int, 0),
        files_changed: files_changed_of(c),
    }
}

/// The number of commits a listing holds at most.
pub open spec fn log_limit_of(limit: Option<usize>) -> usize {
    match limit {
        Some(n) => n,
        None => DEFAULT_LOG_LIMIT,
    }
}

/// The number of commits listed out of `available`.
pub open spec fn log_len(available: int, limit: Option<usize>) -> int {
    if available <= log_limit_of(limit) {
        available
    } else {
        log_limit_of(limit) as int
    }
}

/// The view of each listing entry.
pub open spec fn detail_views(v: Seq<CommitDetail>) -> Seq<CommitDetailView> {
    Seq::new(v.len(), |i: int| v[i]@)
}

/// Returns the number of commits a listing holds at most: the caller's
/// limit, or 50.
pub fn log_limit(limit: Option<usize>) -> (n: usize)
    ensures
        n == log_limit_of(limit),
{
    match limit {
        Some(n) => n,
        None => DEFAULT_LOG_LIMIT,
    }
}

/// Builds the listing entry of a commit.
pub fn commit_detail(c: &RawCommit) -> (d: CommitDetail)
    ensures
        d@ == detail_of(*c),
{
    let count = if c.parent_count > 0 {
        c.diff_files
    } else {
        c.tree_blobs
    };
    let files_changed: usize = match count {
        Some(n) => n,
        None => 0,
    };
    let message = match &c.message {
        Some(m) => trimmed(m.as_str()),
        None => {
            let empty: Vec<char> = Vec::new();
            string_of(&trim_exec(&empty))
        },
    };
    let author = match &c.author {
        Some(a) => a.clone(),
        None => "Unknown".to_owned(),
    };
    CommitDetail {
        id: c.id.clone(),
        short_id: prefix_of(c.id.as_str(), 8),
        message,
        author,
        timestamp: time_text_of(Timestamp { secs: c.seconds, nanos: 0 }),
        files_changed,
    }
}

/// Builds the history listing from the commits of a walk, newest first as
/// the walk gave them: as many as the limit allows, 50 where none is named.
pub fn get_log(commits: &Vec<RawCommit>, limit: Option<usize>) -> (log: Vec<CommitDetail>)
    ensures
        log.len() == log_len(commits.len() as int, limit),
        forall|i: int| 0 <= i < log.len() ==> (#[trigger] log[i])@ == detail_of(commits[i]),
{
    let max = log_limit(limit);
    let n: usize = if commits.len() <= max {
        commits.len()
    } else {
        max
    };
    let mut log: Vec<CommitDetail> = Vec::new();
    let mut i: usize = 0;
    while i < n
        invariant
            i <= n <= commits.len(),
            log.len() == i,
            forall|j: int| 0 <= j < i ==> (#[trigger] log[j])@ == detail_of(commits[j]),
        decreases n - i,
    {
        log.push(commit_detail(&commits[i]));
        i += 1;
    }
    log
}

/// Totals of a comparison.
#[derive(Debug, Clone, Copy, PartialEq, Eq, Structural)]
pub struct DiffStats {
    pub files_changed: usize,
    pub insertions: usize,
    pub deletions: usize,
}

/// One line of a hunk. `origin` is `+` for an added line, `-` for a removed
/// line and a space for context.
#[derive(Debug, Clone)]
pub struct DiffLine {
    pub origin: char,
    pub content: String,
}

/// Mathematical value of a [`DiffLine`].
pub struct DiffLineView {
    pub origin: char,
    pub content: Seq<char>,
}

impl View for DiffLine {
    type V = DiffLineView;

    open spec fn view(&self) -> DiffLineView {
        DiffLineView { origin: self.origin, content: self.content@ }
    }
}

/// A run of changed lines with its header.
#[derive(Debug, Clone)]
pub struct DiffHunk {
    pub header: String,
    pub lines: Vec<DiffLine>,
}

/// Mathematical value of a [`DiffHunk`].
pub struct DiffHunkView {
    pub header: Seq<char>,
    pub lines: Seq<DiffLineView>,
}

/// The view of each line.
pub open spec fn line_views(v: Seq<DiffLine>) -> Seq<DiffLineView> {
    Seq::new(v.len(), |i: int| v[i]@)
}

impl View for DiffHunk {
    type V = DiffHunkView;

    open spec fn view(&self) -> DiffHunkView {
        DiffHunkView { header: self.header@, lines: line_views(self.lines@) }
    }
}

/// The changes to one file.
#[derive(Debug, Clone)]
pub struct FileDiff {
    pub path: String,
    pub status: String,
    pub additions: usize,
    pub deletions: usize,
    pub hunks: Vec<DiffHunk>,
}

/// Mathematical value of a [`FileDiff`].
pub struct FileDiffView {
    pub path: Seq<char>,
    pub status: Seq<char>,
    pub additions: usize,
    pub deletions: usize,
    pub hunks: Seq<DiffHunkView>,
}

/// The view of each hunk.
pub open spec fn hunk_views(v: Seq<DiffHunk>) -> Seq<DiffHunkView> {
    Seq::new(v.len(), |i: int| v[i]@)
}

impl View for FileDiff {
    type V = FileDiffView;

    open spec fn view(&self) -> FileDiffView {
        FileDiffView {
            path: self.path@,
            status: self.status@,
            additions: self.additions,
            deletions: self.deletions,
            hunks: hunk_views(self.hunks@),
        }
    }
}

/// A comparison between two trees, or between a tree and the working
/// directory.
#[derive(Debug, Clone)]
pub struct DiffInfo {
    pub files: Vec<FileDiff>,
    pub stats: DiffStats,
}

/// Mathematical value of a [`DiffInfo`].
pub struct DiffInfoView {
    pub files: Seq<FileDiffView>,
    pub stats: DiffStats,
}

/// The view of each file's changes.
pub open spec fn file_views(v: Seq<FileDiff>) -> Seq<FileDiffView> {
    Seq::new(v.len(), |i: int| v[i]@)
}

impl View for DiffInfo {
    type V = DiffInfoView;

    open spec fn view(&self) -> DiffInfoView {
        DiffInfoView { files: file_views(self.files@), stats: self.stats }
    }
}

/// What the repository says happened to a file.
#[derive(Debug, Clone, Copy, PartialEq, Eq, Structural)]
pub enum DeltaKind {
    Added,
    Deleted,
    Modified,
    Renamed,
    Copied,
    Other,
}

/// One line as read from a patch. The content is `None` where it is not
/// valid text.
#[derive(Debug, Clone)]
pub struct RawLine {
    pub origin: char,
    pub content: Option<String>,
}

/// One hunk as read from a patch. The header is `None` where it is not
/// valid text.
#[derive(Debug, Clone)]
pub struct RawHunk {
    pub header: Option<String>,
    pub lines: Vec<RawLine>,
}

/// One changed file as read from a comparison.
#[derive(Debug, Clone)]
pub struct RawDelta {
    pub new_path: Option<String>,
    pub old_path: Option<String>,
    pub kind: DeltaKind,
    pub hunks: Vec<RawHunk>,
}

/// A comparison as read from the repository.
#[derive(Debug, Clone)]
pub struct RawDiff {
    pub deltas: Vec<RawDelta>,
    pub stats: DiffStats,
}

/// The name of a kind of change.
pub open spec fn kind_label(kind: DeltaKind) -> Seq<char> {
    match kind {
        DeltaKind::Added => "added"@,
        DeltaKind::Deleted => "deleted"@,
        DeltaKind::Modified => "modified"@,
        DeltaKind::Renamed => "renamed"@,
        DeltaKind::Copied => "copied"@,
        DeltaKind::Other => "unknown"@,
    }
}

/// The number of lines with the given origin.
pub open spec fn lines_with(lines: Seq<RawLine>, origin: char) -> nat
    decreases lines.len(),
{
    if lines.len() == 0 {
        0
    } else {
        lines_with(lines.drop_last(), origin) + if lines.last().origin == origin {
            1nat
        } else {
            0nat
        }
    }
}

/// The number of lines with the given origin in all the hunks.
pub open spec fn hunk_lines_with(hunks: Seq<RawHunk>, origin: char) -> nat
    decreases hunks.len(),
{
    if hunks.len() == 0 {
        0
    } else {
        hunk_lines_with(hunks.drop_last(), origin) + lines_with(hunks.last().lines@, origin)
    }
}

/// A count as a machine number: itself, or the largest machine number if it
/// is larger.
pub open spec fn clip(n: int) -> usize {
    if n > usize::MAX {
        usize::MAX
    } else {
        n as usize
    }
}

/// The reported form of a line.
pub open spec fn line_of(l: RawLine) -> DiffLineView {
    DiffLineView { origin: l.origin, content: text_or(l.content, Seq::empty()) }
}

/// The reported form of a hunk.
pub open spec fn hunk_of(h: RawHunk) -> DiffHunkView {
    DiffHunkView {
        header: trim(text_or(h.header, Seq::empty())),
        lines: Seq::new(h.lines@.len(), |i: int| line_of(h.lines@[i])),
    }
}

/// The path a change is reported under: the new path, else the old one.
pub open spec fn delta_path(d: RawDelta) -> Seq<char> {
    match d.new_path {
        Some(p) => p@,
        None => text_or(d.old_path, "Unknown"@),
    }
}

/// The reported changes to one file.
pub open spec fn file_of(d: RawDelta) -> FileDiffView {
    FileDiffView {
        path: delta_path(d),
        status: kind_label(d.kind),
        additions: clip(hunk_lines_with(d.hunks@, '+') as int),
        deletions: clip(hunk_lines_with(d.hunks@, '-') as int),
        hunks: Seq::new(d.hunks@.len(), |i: int| hunk_of(d.hunks@[i])),
    }
}

/// The reported comparison.
pub open spec fn diff_of(d: RawDiff) -> DiffInfoView {
    DiffInfoView { files: Seq::new(d.deltas@.len(), |i: int| file_of(d.deltas@[i])), stats: d.stats }
}

/// Returns the name of a kind of change.
pub fn kind_label_of(kind: DeltaKind) -> (s: &'static str)
    ensures
        s@ == kind_label(kind),
{
    match kind {
        DeltaKind::Added => "added",
        DeltaKind::Deleted => "deleted",
        DeltaKind::Modified => "modified",
        DeltaKind::Renamed => "renamed",
        DeltaKind::Copied => "copied",
        DeltaKind::Other => "unknown",
    }
}

fn text_or_empty(s: &Option<String>) -> (r: String)
    ensures
        r@ == text_or(*s, Seq::empty()),
{
    match s {
        Some(t) => t.clone(),
        None => String::new(),
    }
}

/// Builds the reported form of a hunk and counts its added and removed
/// lines onto the running totals.
fn parse_hunk(h: &RawHunk, additions: &mut usize, deletions: &mut usize) -> (hunk: DiffHunk)
    ensures
        hunk@ == hunk_of(*h),
        *final(additions) == clip(*old(additions) + lines_with(h.lines@, '+')),
        *final(deletions) == clip(*old(deletions) + lines_with(h.lines@, '-')),
{
    let mut lines: Vec<DiffLine> = Vec::new();
    let mut i: usize = 0;
    assert(h.lines@.take(0) =~= Seq::<RawLine>::empty());
    while i < h.lines.len()
        invariant
            i <= h.lines.len(),
            lines.len() == i,
            forall|j: int| 0 <= j < i ==> (#[trigger] lines[j])@ == line_of(h.lines@[j]),
            *additions == clip(*old(additions) + lines_with(h.lines@.take(i as int), '+')),
            *deletions == clip(*old(deletions) + lines_with(h.lines@.take(i as int), '-')),
        decreases h.lines.len() - i,
    {
        proof {
            let next = h.lines@.take(i + 1);
            assert(next.drop_last() =~= h.lines@.take(i as int));
            assert(next.last() == h.lines@[i as int]);
        }
        let origin = h.lines[i].origin;
        if origin == '+' {
            if *additions < usize::MAX {
                *additions = *additions + 1;
            }
        } else if origin == '-' {
            if *deletions < usize::MAX {
                *deletions = *deletions + 1;
            }
        }
        lines.push(DiffLine { origin, content: text_or_empty(&h.lines[i].content) });
        i += 1;
    }
    assert(h.lines@.take(i as int) =~= h.lines@);
    let header = match &h.header {
        Some(t) => trimmed(t.as_str()),
        None => {
            let empty: Vec<char> = Vec::new();
            string_of(&trim_exec(&empty))
        },
    };
    let hunk = DiffHunk { header, lines };
    assert(hunk@.lines =~= hunk_of(*h).lines);
    hunk
}

/// Builds the reported changes to one file.
pub fn parse_delta(d: &RawDelta) -> (file: FileDiff)
    ensures
        file@ == file_of(*d),
{
    let path = match &d.new_path {
        Some(p) => p.clone(),
        None => match &d.old_path {
            Some(p) => p.clone(),
            None => "Unknown".to_owned(),
        },
    };
    let mut additions: usize = 0;
    let mut deletions: usize = 0;
    let mut hunks: Vec<DiffHunk> = Vec::new();
    let mut i: usize = 0;
    assert(d.hunks@.take(0) =~= Seq::<RawHunk>::empty());
    while i < d.hunks.len()
        invariant
            i <= d.hunks.len(),
            hunks.len() == i,
            forall|j: int| 0 <= j < i ==> (#[trigger] hunks[j])@ == hunk_of(d.hunks@[j]),
            additions == clip(hunk_lines_with(d.hunks@.take(i as int), '+') as int),
            deletions == clip(hunk_lines_with(d.hunks@.take(i as int), '-') as int),
        decreases d.hunks.len() - i,
    {
        proof {
            let next = d.hunks@.take(i + 1);
            assert(next.drop_last() =~= d.hunks@.take(i as int));
            assert(next.last() == d.hunks@[i as int]);
        }
        let hunk = parse_hunk(&d.hunks[i], &mut additions, &mut deletions);
        hunks.push(hunk);
        i += 1;
    }
    assert(d.hunks@.take(i as int) =~= d.hunks@);
    let file = FileDiff {
        path,
        status: kind_label_of(d.kind).to_owned(),
        additions,
        deletions,
        hunks,
    };
    assert(file@.hunks =~= file_of(*d).hunks);
    file
}

/// Builds the reported comparison from what was read: per file its path,
/// kind of change, hunks and the number of added and removed lines, and the
/// totals as the repository gave them.
pub fn parse_diff(diff: &RawDiff) -> (info: DiffInfo)
    ensures
        info@ == diff_of(*diff),
{
    let mut files: Vec<FileDiff> = Vec::new();
    let mut i: usize = 0;
    while i < diff.deltas.len()
        invariant
            i <= diff.deltas.len(),
            files.len() == i,
            forall|j: int| 0 <= j < i ==> (#[trigger] files[j])@ == file_of(diff.deltas@[j]),
        decreases diff.deltas.len() - i,
    {
        files.push(parse_delta(&diff.deltas[i]));
        i += 1;
    }
    let info = DiffInfo { files, stats: diff.stats };
    assert(info@.files =~= diff_of(*diff).files);
    info
}

/// What is known of the remote.
#[derive(Debug, Clone)]
pub struct RemoteInfo {
    pub name: String,
    pub url: String,
    pub has_upstream: bool,
    pub ahead: usize,
    pub behind: usize,
}

/// Mathematical value of a [`RemoteInfo`].
pub struct RemoteInfoView {
    pub name: Seq<char>,
    pub url: Seq<char>,
    pub has_upstream: bool,
    pub ahead: usize,
    pub behind: usize,
}

impl View for RemoteInfo {
    type V = RemoteInfoView;

    open spec fn view(&self) -> RemoteInfoView {
        RemoteInfoView {
            name: self.name@,
            url: self.url@,
            has_upstream: self.has_upstream,
            ahead: self.ahead,
            behind: self.behind,
        }
    }
}

/// What was read of the remote named `origin`.
#[derive(Debug, Clone)]
pub struct RemoteRead {
    /// Its URL; `None` where it has none or it is not valid text.
    pub url: Option<String>,
    /// Whether `HEAD` could be resolved.
    pub head_found: bool,
    /// Whether the current branch tracks an upstream branch.
    pub has_upstream: bool,
    /// Commits ahead of and behind the upstream, where that could be
    /// computed.
    pub ahead_behind: Option<(usize, usize)>,
}

/// The name of the one remote this layer talks to.
pub open spec fn remote_name() -> Seq<char> {
    "origin"@
}

/// What is reported of the remote; `None` where there is no remote or it
/// has no URL.
pub open spec fn remote_info_of(remote: Option<RemoteRead>) -> Option<RemoteInfoView> {
    match remote {
        None => None,
        Some(r) => {
            let url = text_or(r.url, Seq::empty());
            if url.len() == 0 {
                None
            } else if !r.head_found {
                Some(
                    RemoteInfoView {
                        name: remote_name(),
                        url,
                        has_upstream: false,
                        ahead: 0,
                        behind: 0,
                    },
                )
            } else {
                let counts = if r.has_upstream {
                    match r.ahead_behind {
                        Some(c) => c,
                        None => (0usize, 0usize),
                    }
                } else {
                    (0usize, 0usize)
                };
                Some(
                    RemoteInfoView {
                        name: remote_name(),
                        url,
                        has_upstream: r.has_upstream,
                        ahead: counts.0,
                        behind: counts.1,
                    },
                )
            }
        },
    }
}

/// The view of an optional remote report.
pub open spec fn remote_view(r: Option<RemoteInfo>) -> Option<RemoteInfoView> {
    match r {
        Some(info) => Some(info@),
        None => None,
    }
}

/// Reports on the remote from what was read; `None` stands for a
/// repository without a remote named `origin`.
pub fn get_remote_info(remote: Option<RemoteRead>) -> (info: Option<RemoteInfo>)
    ensures
        remote_view(info) == remote_info_of(remote),
{
    match remote {
        None => None,
        Some(r) => {
            let url = text_or_empty(&r.url);
            if url.as_str().unicode_len() == 0 {
                return None;
            }
            if !r.head_found {
                return Some(
                    RemoteInfo {
                        name: "origin".to_owned(),
                        url,
                        has_upstream: false,
                        ahead: 0,
                        behind: 0,
                    },
                );
            }
            let counts: (usize, usize) = if r.has_upstream {
                match r.ahead_behind {
                    Some(c) => c,
                    None => (0, 0),
                }
            } else {
                (0, 0)
            };
            Some(
                RemoteInfo {
                    name: "origin".to_owned(),
                    url,
                    has_upstream: r.has_upstream,
                    ahead: counts.0,
                    behind: counts.1,
                },
            )
        },
    }
}

/// A remote is configured: there is one named `origin`, and it has a URL.
pub fn has_remote(remote: &Option<RemoteRead>) -> (r: bool)
    ensures
        r == (*remote matches Some(read) && read.url is Some),
{
    match remote {
        Some(read) => read.url.is_some(),
        None => false,
    }
}

/// The user name that agent-based credentials are asked for: the one the
/// URL names, or `git`.
pub fn credential_user<'a>(from_url: Option<&'a str>) -> (user: &'a str)
    ensures
        user@ == (match from_url {
            Some(u) => u@,
            None => "git"@,
        }),
{
    match from_url {
        Some(u) => u,
        None => "git",
    }
}

/// The refspec that pushes `branch` to the branch of the same name.
pub open spec fn push_refspec(branch: Seq<char>) -> Seq<char> {
    "refs/heads/"@ + branch + ":refs/heads/"@ + branch
}

/// What a push answers before anything is sent: the refspec to push, or why
/// it cannot start.
pub open spec fn push_plan(branch: Option<Seq<char>>, remote: Option<RemoteRead>) -> Result<
    Seq<char>,
    GitErrorView,
> {
    match branch {
        None => Err(GitErrorView::OperationFailed { detail: "Could not get branch name"@ }),
        Some(b) => match remote {
            None => Err(GitErrorView::OperationFailed { detail: "Remote 'origin' not found"@ }),
            Some(r) => if text_or(r.url, Seq::empty()).len() == 0 {
                Err(GitErrorView::OperationFailed { detail: "No remote URL configured"@ })
            } else {
                Ok(push_refspec(b))
            },
        },
    }
}

/// Decides a push of the current branch to the remote: fails fast when the
/// branch has no name, when there is no remote named `origin`, or when the
/// remote has no URL; otherwise tells the refspec to push.
pub fn push_to_remote(branch: Option<&str>, remote: &Option<RemoteRead>) -> (r: Result<
    String,
    GitError,
>)
    ensures
        decision_view(r) == push_plan(str_view(branch), *remote),
{
    let b = match branch {
        Some(b) => b,
        None => {
            return Err(GitError::OperationFailed { detail: "Could not get branch name".to_owned() });
        },
    };
    let read = match remote {
        Some(read) => read,
        None => {
            return Err(GitError::OperationFailed { detail: "Remote 'origin' not found".to_owned() });
        },
    };
    let url = text_or_empty(&read.url);
    if url.as_str().unicode_len() == 0 {
        return Err(GitError::OperationFailed { detail: "No remote URL configured".to_owned() });
    }
    let name = chars_of(b);
    let mut spec = chars_of("refs/heads/");
    push_all(&mut spec, &name);
    push_all(&mut spec, &chars_of(":refs/heads/"));
    push_all(&mut spec, &name);
    Ok(string_of(&spec))
}

/// Decides a fetch from the remote: fails fast when there is no remote
/// named `origin`.
pub fn fetch_from_remote(remote: &Option<RemoteRead>) -> (r: Result<(), GitError>)
    ensures
        match r {
            Ok(()) => *remote is Some,
            Err(e) => *remote is None && e@ == (GitErrorView::OperationFailed {
                detail: "Remote 'origin' not found"@,
            }),
        },
{
    match remote {
        Some(_) => Ok(()),
        None => Err(GitError::OperationFailed { detail: "Remote 'origin' not found".to_owned() }),
    }
}

/// What the periodic commit task notes after a tick.
#[derive(Debug, Clone)]
pub enum AutoCommitNote {
    /// A commit was made.
    Committed { id: String, message: String },
    /// Nothing had changed: nothing to note.
    Quiet,
    /// The commit failed.
    Failed { detail: String },
}

/// Mathematical value of an [`AutoCommitNote`].
pub enum AutoCommitNoteView {
    Committed { id: Seq<char>, message: Seq<char> },
    Quiet,
    Failed { detail: Seq<char> },
}

impl View for AutoCommitNote {
    type V = AutoCommitNoteView;

    open spec fn view(&self) -> AutoCommitNoteView {
        match self {
            AutoCommitNote::Committed { id, message } => AutoCommitNoteView::Committed {
                id: id@,
                message: message@,
            },
            AutoCommitNote::Quiet => AutoCommitNoteView::Quiet,
            AutoCommitNote::Failed { detail } => AutoCommitNoteView::Failed { detail: detail@ },
        }
    }
}

/// Turns the result of a periodic commit into a note. Finding no changes
/// is a normal outcome and stays quiet.
pub fn auto_commit_note(result: &Result<CommitInfo, GitError>) -> (note: AutoCommitNote)
    ensures
        note@ == (match *result {
            Ok(info) => AutoCommitNoteView::Committed { id: info.id@, message: info.message@ },
            Err(GitError::NoChanges) => AutoCommitNoteView::Quiet,
            Err(e) => AutoCommitNoteView::Failed { detail: error_text(e@) },
        }),
{
    match result {
        Ok(info) => AutoCommitNote::Committed { id: info.id.clone(), message: info.message.clone() },
        Err(GitError::NoChanges) => AutoCommitNote::Quiet,
        Err(e) => AutoCommitNote::Failed { detail: e.message() },
    }
}

} // verus!
