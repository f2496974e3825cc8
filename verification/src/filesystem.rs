//! The atomic-write primitive's preparation and the path rules of the
//! document store.
//!
//! A write goes to a hidden sibling of the target and is renamed onto it.
//! Before the write begins, the target is registered in the self-write
//! marker table so that the watcher can swallow the echo.

use vstd::prelude::*;
use crate::paths::{
    file_name, file_name_exec, file_name_start, file_name_start_exec, has_component,
    has_component_exec, is_markdown, is_temp_name, lemma_file_name_start, parent_dir,
    relative_name, relative_name_exec,
};
use crate::text::{chars_of, has_sub, has_sub_exec, push_all, string_of, take_front_exec};
use crate::watcher::{
    age, first_markdown, is_echo, process_outcome, watched_path, FsEventKind, MarkerTable,
    SaveMarkers, SUPPRESSION_WINDOW_MS,
};

verus! {

/// Returns the name of `path` relative to the document root `root`: the
/// name under which the atomic write registers it and the watcher looks it
/// up.
pub fn normalize_path(root: &str, path: &str) -> (r: String)
    ensures
        r@ == relative_name(root@, path@),
{
    string_of(&relative_name_exec(&chars_of(root), &chars_of(path)))
}

/// A notification about a file that was written through the atomic-write
/// primitive at `saved_at` produces no event while less than the
/// suppression window has passed, whatever the document root and wherever
/// the file lies: the write and the watcher name the file alike.
pub proof fn lemma_atomic_write_echo_is_suppressed(
    kind: FsEventKind,
    root: Seq<char>,
    path: Seq<char>,
    table: MarkerTable,
    saved_at: u64,
    now: u64,
)
    requires
        age(now, saved_at) < SUPPRESSION_WINDOW_MS,
    ensures
        process_outcome(
            kind,
            root,
            seq![path],
            table.insert(relative_name(root, path), saved_at),
            now,
        ) is None,
{
    let one = seq![path];
    assert(one.drop_last() =~= Seq::<Seq<char>>::empty());
    assert(first_markdown(one.drop_last()) is None);
    assert(one.last() == path);
    if watched_path(root, one) is Some {
        assert(first_markdown(one) == Some(0int));
        assert(watched_path(root, one) == Some(relative_name(root, path)));
        assert(is_echo(
            table.insert(relative_name(root, path), saved_at),
            relative_name(root, path),
            now,
        ));
    }
}

/// `path` passes through `.git`, `assets` or `archive`.
pub open spec fn ignored(path: Seq<char>) -> bool {
    has_component(path, ".git"@) || has_component(path, "assets"@) || has_component(
        path,
        "archive"@,
    )
}

/// Tells whether `path` passes through a directory that listings skip.
pub fn is_ignored(path: &str) -> (r: bool)
    ensures
        r == ignored(path@),
{
    let chars = chars_of(path);
    has_component_exec(&chars, &chars_of(".git")) || has_component_exec(
        &chars,
        &chars_of("assets"),
    ) || has_component_exec(&chars, &chars_of("archive"))
}

/// `path` is a note: it lies under `notes` and not under `archive`, or it is
/// the `index.md` of a project, or it lies directly in `data_dir`.
pub open spec fn note_file(path: Seq<char>, data_dir: Seq<char>) -> bool {
    ||| has_sub(path, "notes"@) && !has_sub(path, "archive"@)
    ||| has_sub(path, "projects"@) && file_name(path) == "index.md"@
    ||| file_name_start(path) > 0 && parent_dir(path) == data_dir
}

/// Tells whether `path` is a note of the store rooted at `data_dir`.
pub fn is_note_file(path: &str, data_dir: &str) -> (r: bool)
    ensures
        r == note_file(path@, data_dir@),
{
    let chars = chars_of(path);
    if has_sub_exec(&chars, &chars_of("notes")) && !has_sub_exec(&chars, &chars_of("archive")) {
        return true;
    }
    if has_sub_exec(&chars, &chars_of("projects")) {
        let name = file_name_exec(&chars);
        if crate::text::same_chars(&name, &chars_of("index.md")) {
            return true;
        }
    }
    let start = file_name_start_exec(&chars);
    if start > 0 {
        let parent = take_front_exec(&chars, start - 1);
        let root = chars_of(data_dir);
        return crate::text::same_chars(&parent, &root);
    }
    false
}

/// Why a write could not be prepared.
#[derive(Debug, Clone, Copy, PartialEq, Eq, Structural)]
pub enum WriteError {
    /// The path names no file.
    InvalidPath,
}

/// Where an atomic write puts its bytes before the rename.
#[derive(Debug, Clone)]
pub struct WritePlan {
    /// The hidden sibling that receives the bytes.
    pub temp_path: String,
    /// The path the sibling is renamed onto.
    pub target: String,
}

/// The name of the hidden sibling for a file name.
pub open spec fn temp_name(name: Seq<char>) -> Seq<char> {
    "."@ + name + ".tmp"@
}

/// The path of the hidden sibling of `path`, in the same directory.
pub open spec fn temp_path(path: Seq<char>) -> Seq<char> {
    path.take(file_name_start(path)) + temp_name(file_name(path))
}

/// The hidden sibling lies in the directory of its target, and its name is
/// one that the watcher drops as a temporary file and never takes for a
/// markdown file.
pub proof fn lemma_temp_path_is_hidden(root: Seq<char>, path: Seq<char>)
    ensures
        file_name_start(temp_path(path)) == file_name_start(path),
        file_name(temp_path(path)) == temp_name(file_name(path)),
        is_temp_name(file_name(temp_path(path))),
        !is_markdown(temp_path(path)),
        watched_path(root, seq![temp_path(path)]) is None,
{
    reveal_strlit(".");
    reveal_strlit(".tmp");
    lemma_file_name_start(path);
    let start = file_name_start(path);
    let name = file_name(path);
    let t = temp_path(path);
    let tn = temp_name(name);
    assert(tn.len() == name.len() + 5);
    assert(tn[0] == '.');
    assert forall|i: int| 0 <= i < tn.len() implies !crate::paths::is_sep(#[trigger] tn[i]) by {
        if i == 0 {
        } else if i <= name.len() {
            assert(tn[i] == name[i - 1]);
            assert(name[i - 1] == path[start + i - 1]);
        } else {
            assert(tn[i] == ".tmp"@[i - 1 - name.len()]);
        }
    }
    lemma_file_name_start_of_join(path.take(start), tn);
    assert(t.skip(start) =~= tn);
    assert(tn.subrange(0, 1) =~= "."@);
    assert(tn.subrange(tn.len() - 4, tn.len() as int) =~= ".tmp"@);
    crate::watcher::lemma_temp_file_is_not_watched(root, t);
}

/// Appending separator-free text to a directory prefix that is empty or
/// ends in a separator starts the file name where the text starts.
proof fn lemma_file_name_start_of_join(dir: Seq<char>, name: Seq<char>)
    requires
        dir.len() == 0 || crate::paths::is_sep(dir.last()),
        forall|i: int| 0 <= i < name.len() ==> !crate::paths::is_sep(#[trigger] name[i]),
    ensures
        file_name_start(dir + name) == dir.len(),
    decreases name.len(),
{
    let whole = dir + name;
    if name.len() == 0 {
        assert(whole =~= dir);
    } else {
        assert(whole.last() == name.last());
        assert(whole.drop_last() =~= dir + name.drop_last());
        assert forall|i: int| 0 <= i < name.drop_last().len() implies !crate::paths::is_sep(
            #[trigger] name.drop_last()[i],
        ) by {
            assert(name.drop_last()[i] == name[i]);
        }
        lemma_file_name_start_of_join(dir, name.drop_last());
    }
}

/// Prepares an atomic write to `path` at time `now`: registers the target in
/// the marker table under its name relative to the table's document root
/// and tells where the bytes go before the rename. Fails, leaving the table
/// untouched, if `path` names no file.
pub fn prepare_atomic_write_at(markers: &mut SaveMarkers, path: &str, now: u64) -> (r: Result<
    WritePlan,
    WriteError,
>)
    ensures
        match r {
            Ok(plan) => {
                &&& file_name(path@).len() > 0
                &&& plan.target@ == path@
                &&& plan.temp_path@ == temp_path(path@)
                &&& final(markers)@ == old(markers)@.insert(
                    relative_name(old(markers).root(), path@),
                    now,
                )
            },
            Err(e) => {
                &&& file_name(path@).len() == 0
                &&& e == WriteError::InvalidPath
                &&& final(markers)@ == old(markers)@
            },
        },
        final(markers).root() == old(markers).root(),
{
    let chars = chars_of(path);
    let start = file_name_start_exec(&chars);
    if start >= chars.len() {
        return Err(WriteError::InvalidPath);
    }
    let name = file_name_exec(&chars);
    let mut temp = take_front_exec(&chars, start);
    push_all(&mut temp, &chars_of("."));
    push_all(&mut temp, &name);
    push_all(&mut temp, &chars_of(".tmp"));
    assert(temp@ =~= temp_path(path@));
    let marker_name = normalize_path(markers.root_str(), path);
    markers.mark_at(marker_name.as_str(), now);
    Ok(WritePlan { temp_path: string_of(&temp), target: path.to_owned() })
}

/// Prepares an atomic write to `path` now. See [`prepare_atomic_write_at`].
pub fn prepare_atomic_write(markers: &mut SaveMarkers, path: &str) -> (r: Result<
    WritePlan,
    WriteError,
>)
    ensures
        match r {
            Ok(plan) => {
                &&& file_name(path@).len() > 0
                &&& plan.target@ == path@
                &&& plan.temp_path@ == temp_path(path@)
                &&& exists|now: u64|
                    final(markers)@ == #[trigger] old(markers)@.insert(
                        relative_name(old(markers).root(), path@),
                        now,
                    )
            },
            Err(e) => {
                &&& file_name(path@).len() == 0
                &&& e == WriteError::InvalidPath
                &&& final(markers)@ == old(markers)@
            },
        },
        final(markers).root() == old(markers).root(),
{
    let now = markers.now_ms();
    prepare_atomic_write_at(markers, path, now)
}

} // verus!
