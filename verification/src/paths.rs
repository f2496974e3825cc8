//! Rules about document paths, read as text. A path is split at `/` and
//! `\`; its file name is what follows the last separator.

use vstd::prelude::*;
use crate::text::{
    chars_of, drop_front_exec, has_prefix, has_prefix_exec, has_suffix, has_suffix_exec,
    replace_char, replace_char_exec, rows, same_chars, trim_start_char, trim_start_char_exec,
};

verus! {

/// `c` separates path components.
pub open spec fn is_sep(c: char) -> bool {
    c == '/' || c == '\\'
}

/// Where the file name of `path` starts: just after its last separator, or
/// at 0 if it has none.
pub open spec fn file_name_start(path: Seq<char>) -> int
    decreases path.len(),
{
    if path.len() == 0 {
        0
    } else if is_sep(path.last()) {
        path.len() as int
    } else {
        file_name_start(path.drop_last())
    }
}

/// The file name of `path`.
pub open spec fn file_name(path: Seq<char>) -> Seq<char> {
    path.skip(file_name_start(path))
}

/// The directory part of `path`: what precedes its last separator.
pub open spec fn parent_dir(path: Seq<char>) -> Seq<char> {
    if file_name_start(path) == 0 {
        Seq::empty()
    } else {
        path.take(file_name_start(path) - 1)
    }
}

/// `path` names a markdown file: its file name is `.md` after at least one
/// other character.
pub open spec fn is_markdown(path: Seq<char>) -> bool {
    file_name(path).len() > 3 && has_suffix(file_name(path), ".md"@)
}

/// `name` is the name of a temporary file of an atomic write: it starts with
/// a dot and ends in `.tmp`.
pub open spec fn is_temp_name(name: Seq<char>) -> bool {
    has_prefix(name, "."@) && has_suffix(name, ".tmp"@)
}

/// `path` with `/` for every `\\`.
pub open spec fn slashed(path: Seq<char>) -> Seq<char> {
    replace_char(path, '\\', '/')
}

/// `path` lies under `root`: it starts with the root, and the root ends
/// there, at a separator, or where the path ends. Every path lies under the
/// empty root.
pub open spec fn under_root(root: Seq<char>, path: Seq<char>) -> bool {
    let r = slashed(root);
    let p = slashed(path);
    &&& has_prefix(p, r)
    &&& (r.len() == 0 || r.len() == p.len() || r.last() == '/' || p[r.len() as int] == '/')
}

/// The name of `path` relative to the document root `root`, with `/` as the
/// only separator and none in front. A path that does not lie under the
/// root keeps all its components.
pub open spec fn relative_name(root: Seq<char>, path: Seq<char>) -> Seq<char> {
    if under_root(root, path) {
        trim_start_char(slashed(path).skip(slashed(root).len() as int), '/')
    } else {
        slashed(path)
    }
}

/// The components of `path`: its maximal runs of characters other than
/// separators, in order.
pub open spec fn components(path: Seq<char>) -> Seq<Seq<char>>
    decreases path.len(),
{
    if path.len() == 0 {
        Seq::empty()
    } else {
        let before = components(path.drop_last());
        if is_sep(path.last()) {
            before
        } else if path.len() >= 2 && !is_sep(path[path.len() - 2]) {
            before.drop_last().push(before.last().push(path.last()))
        } else {
            before.push(seq![path.last()])
        }
    }
}

/// Some component of `path` is `name`.
pub open spec fn has_component(path: Seq<char>, name: Seq<char>) -> bool {
    components(path).contains(name)
}

/// `path` lies under a directory named `archive` or `.git`: the archive or
/// version-control metadata.
pub open spec fn in_excluded_tree(path: Seq<char>) -> bool {
    has_component(path, "archive"@) || has_component(path, ".git"@)
}

/// The file name start lies within the path, and no separator follows it.
pub proof fn lemma_file_name_start(path: Seq<char>)
    ensures
        0 <= file_name_start(path) <= path.len(),
        file_name_start(path) > 0 ==> is_sep(path[file_name_start(path) - 1]),
        forall|i: int| file_name_start(path) <= i < path.len() ==> !is_sep(path[i]),
    decreases path.len(),
{
    if path.len() == 0 {
    } else if is_sep(path.last()) {
    } else {
        lemma_file_name_start(path.drop_last());
        assert forall|i: int| file_name_start(path) <= i < path.len() implies !is_sep(
            path[i],
        ) by {
            if i < path.len() - 1 {
                assert(path.drop_last()[i] == path[i]);
            }
        }
    }
}

/// Computes where the file name of `path` starts.
pub fn file_name_start_exec(path: &Vec<char>) -> (r: usize)
    ensures
        r == file_name_start(path@),
        r <= path.len(),
{
    let mut i: usize = path.len();
    assert(path@.take(i as int) =~= path@);
    while i > 0 && !(path[i - 1] == '/' || path[i - 1] == '\\')
        invariant
            i <= path.len(),
            file_name_start(path@) == file_name_start(path@.take(i as int)),
        decreases i,
    {
        assert(path@.take(i as int).drop_last() =~= path@.take(i - 1));
        i -= 1;
    }
    proof {
        if i > 0 {
            assert(path@.take(i as int).last() == path@[i - 1]);
        }
    }
    i
}

/// Returns the file name of `path`.
pub fn file_name_exec(path: &Vec<char>) -> (r: Vec<char>)
    ensures
        r@ == file_name(path@),
{
    let start = file_name_start_exec(path);
    let r = drop_front_exec(path, start);
    assert(r@ =~= file_name(path@));
    r
}

/// Tells whether `path` names a markdown file.
pub fn is_markdown_exec(path: &Vec<char>) -> (r: bool)
    ensures
        r == is_markdown(path@),
{
    let name = file_name_exec(path);
    let suffix = chars_of(".md");
    name.len() > 3 && has_suffix_exec(&name, &suffix)
}

/// Tells whether `name` is the name of a temporary file of an atomic write.
pub fn is_temp_name_exec(name: &Vec<char>) -> (r: bool)
    ensures
        r == is_temp_name(name@),
{
    let dot = chars_of(".");
    let tmp = chars_of(".tmp");
    has_prefix_exec(name, &dot) && has_suffix_exec(name, &tmp)
}

/// Splits `path` into its components.
pub fn components_exec(path: &Vec<char>) -> (r: Vec<Vec<char>>)
    ensures
        rows(r@) == components(path@),
{
    let mut done: Vec<Vec<char>> = Vec::new();
    let mut cur: Vec<char> = Vec::new();
    let mut i: usize = 0;
    assert(path@.take(0) =~= Seq::<char>::empty());
    assert(rows(done@) =~= Seq::<Seq<char>>::empty());
    while i < path.len()
        invariant
            i <= path.len(),
            cur@.len() > 0 <==> (i > 0 && !is_sep(path@[i - 1])),
            components(path@.take(i as int)) == if cur@.len() > 0 {
                rows(done@).push(cur@)
            } else {
                rows(done@)
            },
        decreases path.len() - i,
    {
        let c = path[i];
        proof {
            let head = path@.take(i as int);
            let next = path@.take(i + 1);
            assert(next.drop_last() =~= head);
            assert(next.last() == c);
            if i > 0 {
                assert(next[next.len() - 2] == path@[i - 1]);
            }
        }
        if c == '/' || c == '\\' {
            if cur.len() > 0 {
                let ghost before = rows(done@);
                let ghost closed = cur@;
                let mut part: Vec<char> = Vec::new();
                core::mem::swap(&mut part, &mut cur);
                done.push(part);
                assert(rows(done@) =~= before.push(closed));
            }
        } else {
            let ghost before = cur@;
            cur.push(c);
            proof {
                if before.len() > 0 {
                    assert(rows(done@).push(before).drop_last() =~= rows(done@));
                    assert(rows(done@).push(before).last() == before);
                    assert(cur@ =~= before.push(c));
                } else {
                    assert(cur@ =~= seq![c]);
                }
            }
        }
        i += 1;
    }
    assert(path@.take(i as int) =~= path@);
    if cur.len() > 0 {
        let ghost before = rows(done@);
        let ghost closed = cur@;
        done.push(cur);
        assert(rows(done@) =~= before.push(closed));
    }
    done
}

/// Tells whether some component of `path` is `name`.
pub fn has_component_exec(path: &Vec<char>, name: &Vec<char>) -> (r: bool)
    ensures
        r == has_component(path@, name@),
{
    let parts = components_exec(path);
    let mut i: usize = 0;
    while i < parts.len()
        invariant
            i <= parts.len(),
            rows(parts@) == components(path@),
            forall|j: int| 0 <= j < i ==> rows(parts@)[j] != name@,
        decreases parts.len() - i,
    {
        if same_chars(&parts[i], name) {
            assert(rows(parts@)[i as int] == name@);
            return true;
        }
        i += 1;
    }
    false
}

/// Tells whether `path` lies under the archive or under version-control
/// metadata.
pub fn in_excluded_tree_exec(path: &Vec<char>) -> (r: bool)
    ensures
        r == in_excluded_tree(path@),
{
    has_component_exec(path, &chars_of("archive")) || has_component_exec(path, &chars_of(".git"))
}

/// Returns the name of `path` relative to the document root `root`.
pub fn relative_name_exec(root: &Vec<char>, path: &Vec<char>) -> (r: Vec<char>)
    ensures
        r@ == relative_name(root@, path@),
{
    let r = replace_char_exec(root, '\\', '/');
    let p = replace_char_exec(path, '\\', '/');
    if !has_prefix_exec(&p, &r) {
        return p;
    }
    let n: usize = r.len();
    assert(n <= p.len());
    let under = n == 0 || n == p.len() || r[n - 1] == '/' || p[n] == '/';
    if !under {
        return p;
    }
    let rest = drop_front_exec(&p, n);
    assert(rest@ =~= p@.skip(n as int));
    trim_start_char_exec(&rest, '/')
}

/// A path made of the root, a separator and a relative name has that name:
/// the name the atomic write files a path under is the name the watcher
/// looks it up under, and it does not hold the root.
pub proof fn lemma_relative_name_of_join(root: Seq<char>, name: Seq<char>)
    requires
        slashed(name) == name,
        name.len() == 0 || name[0] != '/',
    ensures
        under_root(root, root + "/"@ + name),
        relative_name(root, root + "/"@ + name) == name,
{
    reveal_strlit("/");
    let sep = "/"@;
    let path = root + sep + name;
    let r = slashed(root);
    let p = slashed(path);
    assert(p =~= r + sep + name) by {
        assert forall|i: int| 0 <= i < p.len() implies p[i] == (r + sep + name)[i] by {
            if i < root.len() {
                assert(path[i] == root[i]);
            } else if i == root.len() {
                assert(path[i] == '/');
            } else {
                assert(path[i] == name[i - root.len() - 1]);
                assert(slashed(name)[i - root.len() - 1] == name[i - root.len() - 1]);
            }
        }
    }
    assert(p.subrange(0, r.len() as int) =~= r);
    assert(p[r.len() as int] == '/');
    let rest = p.skip(r.len() as int);
    assert(rest =~= sep + name);
    assert(rest.skip(1) =~= name);
    assert(trim_start_char(rest, '/') == trim_start_char(name, '/'));
}

} // verus!
