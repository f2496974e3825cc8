//! Full-text search over notes: matching lines of a file against a query
//! and assembling the results.

use vstd::prelude::*;
use crate::filesystem::ignored;
use crate::paths::{
    file_name, file_name_exec, is_markdown, is_markdown_exec,
};
use crate::text::{
    chars_of, drop_front_exec, has_sub, has_sub_exec, lowercase, same_chars, str_eq, string_of,
    take_front_exec, to_lowercase, trim, trim_exec,
};
use crate::paths::relative_name;
use crate::watcher::normalize_path;

verus! {

/// Matches reported per file at most.
pub const MAX_MATCHES_PER_FILE: usize = 5;

/// One matching line.
#[derive(Debug, Clone)]
pub struct SearchMatch {
    pub line_number: u32,
    pub line_content: String,
}

/// Mathematical value of a [`SearchMatch`].
pub struct SearchMatchView {
    pub line_number: u32,
    pub line_content: Seq<char>,
}

impl View for SearchMatch {
    type V = SearchMatchView;

    open spec fn view(&self) -> SearchMatchView {
        SearchMatchView { line_number: self.line_number, line_content: self.line_content@ }
    }
}

/// The matches in one file.
#[derive(Debug, Clone)]
pub struct SearchResult {
    pub path: String,
    pub title: String,
    pub matches: Vec<SearchMatch>,
}

/// Mathematical value of a [`SearchResult`].
pub struct SearchResultView {
    pub path: Seq<char>,
    pub title: Seq<char>,
    pub matches: Seq<SearchMatchView>,
}

/// The view of each match.
pub open spec fn match_views(v: Seq<SearchMatch>) -> Seq<SearchMatchView> {
    Seq::new(v.len(), |i: int| v[i]@)
}

impl View for SearchResult {
    type V = SearchResultView;

    open spec fn view(&self) -> SearchResultView {
        SearchResultView {
            path: self.path@,
            title: self.title@,
            matches: match_views(self.matches@),
        }
    }
}

/// The view of each result.
pub open spec fn result_views(v: Seq<SearchResult>) -> Seq<SearchResultView> {
    Seq::new(v.len(), |i: int| v[i]@)
}

/// Position of the last `c` in `s`, or -1.
pub open spec fn last_index_of(s: Seq<char>, c: char) -> int
    decreases s.len(),
{
    if s.len() == 0 {
        -1
    } else if s.last() == c {
        s.len() - 1
    } else {
        last_index_of(s.drop_last(), c)
    }
}

/// A file name without its extension: what precedes its last dot, unless
/// that dot comes first or there is none.
pub open spec fn file_stem(name: Seq<char>) -> Seq<char> {
    if last_index_of(name, '.') > 0 {
        name.take(last_index_of(name, '.'))
    } else {
        name
    }
}

/// The title shown for a path: the stem of its file name, or `Untitled`
/// where it names no file.
pub open spec fn title_of(path: Seq<char>) -> Seq<char> {
    let name = file_name(path);
    if name.len() == 0 || name == ".."@ {
        "Untitled"@
    } else {
        file_stem(name)
    }
}

/// The stem of the file name of `path`; `None` where it names no file.
pub open spec fn stem_of(path: Seq<char>) -> Option<Seq<char>> {
    let name = file_name(path);
    if name.len() == 0 || name == ".."@ {
        None
    } else {
        Some(file_stem(name))
    }
}

/// Returns the stem of the file name of `path`.
pub fn file_stem_of(path: &str) -> (r: Option<String>)
    ensures
        crate::clock::text_view(r) == stem_of(path@),
{
    let chars = chars_of(path);
    let name = file_name_exec(&chars);
    if name.len() == 0 || same_chars(&name, &chars_of("..")) {
        return None;
    }
    let mut n: usize = name.len();
    assert(name@.take(n as int) =~= name@);
    while n > 0 && name[n - 1] != '.'
        invariant
            n <= name.len(),
            last_index_of(name@, '.') == last_index_of(name@.take(n as int), '.'),
        decreases n,
    {
        assert(name@.take(n as int).drop_last() =~= name@.take(n - 1));
        n -= 1;
    }
    proof {
        if n > 0 {
            assert(name@.take(n as int).last() == name@[n - 1]);
        }
    }
    if n > 1 {
        Some(string_of(&take_front_exec(&name, n - 1)))
    } else {
        Some(string_of(&name))
    }
}

/// Returns the title shown for a path.
pub fn extract_title_from_path(path: &str) -> (title: String)
    ensures
        title@ == title_of(path@),
{
    match file_stem_of(path) {
        Some(stem) => stem,
        None => "Untitled".to_owned(),
    }
}

/// Position of the first line feed in `s`, or -1.
pub open spec fn first_newline(s: Seq<char>) -> int
    decreases s.len(),
{
    if s.len() == 0 {
        -1
    } else if s[0] == '\n' {
        0
    } else {
        let rest = first_newline(s.skip(1));
        if rest < 0 {
            -1
        } else {
            rest + 1
        }
    }
}

/// `line` without one trailing carriage return.
pub open spec fn strip_cr(line: Seq<char>) -> Seq<char> {
    if line.len() > 0 && line.last() == '\r' {
        line.drop_last()
    } else {
        line
    }
}

/// The lines of a text. A line ends at a line feed; the line feed and a
/// carriage return before it are not part of the line. What follows the
/// last line feed is a line if it is not empty.
pub open spec fn lines_of(s: Seq<char>) -> Seq<Seq<char>>
    decreases s.len(),
{
    let i = first_newline(s);
    if s.len() == 0 {
        Seq::empty()
    } else if i < 0 || i >= s.len() {
        seq![s]
    } else {
        seq![strip_cr(s.take(i))] + lines_of(s.skip(i + 1))
    }
}

/// `first_newline` finds a line feed that no line feed precedes.
pub proof fn lemma_first_newline(s: Seq<char>, j: int)
    requires
        0 <= j <= s.len(),
        forall|k: int| 0 <= k < j ==> s[k] != '\n',
        j < s.len() ==> s[j] == '\n',
    ensures
        first_newline(s) == (if j < s.len() {
            j
        } else {
            -1
        }),
    decreases s.len(),
{
    if s.len() == 0 {
    } else if j == 0 {
    } else {
        let t = s.skip(1);
        assert forall|k: int| 0 <= k < j - 1 implies t[k] != '\n' by {
            assert(t[k] == s[k + 1]);
        }
        if j < s.len() {
            assert(t[j - 1] == s[j]);
        }
        lemma_first_newline(t, j - 1);
    }
}

/// Splits a text into its lines.
pub fn lines_exec(s: &Vec<char>) -> (r: Vec<Vec<char>>)
    ensures
        crate::text::rows(r@) == lines_of(s@),
{
    let mut out: Vec<Vec<char>> = Vec::new();
    let mut start: usize = 0;
    assert(s@.skip(0) =~= s@);
    assert(crate::text::rows(out@) + lines_of(s@) =~= lines_of(s@));
    while start < s.len()
        invariant
            start <= s.len(),
            lines_of(s@) == crate::text::rows(out@) + lines_of(s@.skip(start as int)),
        decreases s.len() - start,
    {
        let mut j: usize = start;
        while j < s.len() && s[j] != '\n'
            invariant
                start <= j <= s.len(),
                forall|k: int| start <= k < j ==> s@[k] != '\n',
            decreases s.len() - j,
        {
            j += 1;
        }
        let ghost rest = s@.skip(start as int);
        let ghost before = crate::text::rows(out@);
        proof {
            assert forall|k: int| 0 <= k < j - start implies rest[k] != '\n' by {
                assert(rest[k] == s@[start + k]);
            }
            if j < s.len() {
                assert(rest[j - start] == s@[j as int]);
            }
            lemma_first_newline(rest, j - start);
        }
        if j >= s.len() {
            let line = drop_front_exec(s, start);
            assert(line@ =~= rest);
            out.push(line);
            proof {
                assert(crate::text::rows(out@) =~= before.push(rest));
                assert(s@.skip(s@.len() as int) =~= Seq::<char>::empty());
                assert(lines_of(rest) =~= seq![rest]);
            }
            start = s.len();
        } else {
            let mut end: usize = j;
            if end > start && s[end - 1] == '\r' {
                end -= 1;
            }
            let mut line: Vec<char> = Vec::new();
            let mut k: usize = start;
            while k < end
                invariant
                    start <= k <= end <= s.len(),
                    line@ == s@.subrange(start as int, k as int),
                decreases end - k,
            {
                line.push(s[k]);
                k += 1;
            }
            proof {
                let whole = rest.take(j - start);
                assert(whole =~= s@.subrange(start as int, j as int));
                if j > start {
                    assert(whole.last() == s@[j - 1]);
                }
                assert(line@ =~= strip_cr(whole));
                assert(rest.skip(j - start + 1) =~= s@.skip(j + 1));
            }
            out.push(line);
            assert(crate::text::rows(out@) =~= before.push(line@));
            start = j + 1;
        }
    }
    proof {
        assert(s@.skip(start as int) =~= Seq::<char>::empty());
    }
    out
}

/// A line number as reported: itself, or the largest reportable number if
/// it is larger.
pub open spec fn line_number_of(n: int) -> u32 {
    if n > u32::MAX {
        u32::MAX
    } else {
        n as u32
    }
}

/// The matches among the lines of a file for a query in lower case: each
/// line that holds the query when itself put in lower case, numbered from
/// 1 and trimmed, up to five of them.
pub open spec fn matches_in(lines: Seq<Seq<char>>, query: Seq<char>) -> Seq<SearchMatchView>
    decreases lines.len(),
{
    if lines.len() == 0 {
        Seq::empty()
    } else {
        let before = matches_in(lines.drop_last(), query);
        if before.len() < MAX_MATCHES_PER_FILE && has_sub(lowercase(lines.last()), query) {
            before.push(
                SearchMatchView {
                    line_number: line_number_of(lines.len() as int),
                    line_content: trim(lines.last()),
                },
            )
        } else {
            before
        }
    }
}

/// Finds the matching lines of `content` for a query already in lower
/// case.
pub fn search_content(content: &str, query_lower: &str) -> (found: Vec<SearchMatch>)
    ensures
        match_views(found@) == matches_in(lines_of(content@), query_lower@),
{
    let chars = chars_of(content);
    let lines = lines_exec(&chars);
    let query = chars_of(query_lower);
    let mut found: Vec<SearchMatch> = Vec::new();
    let mut i: usize = 0;
    let ghost all = lines_of(content@);
    assert(all.take(0) =~= Seq::<Seq<char>>::empty());
    assert(match_views(found@) =~= Seq::<SearchMatchView>::empty());
    while i < lines.len()
        invariant
            i <= lines.len(),
            all == lines_of(content@),
            crate::text::rows(lines@) == all,
            query@ == query_lower@,
            match_views(found@) == matches_in(all.take(i as int), query@),
        decreases lines.len() - i,
    {
        proof {
            let next = all.take(i + 1);
            assert(next.drop_last() =~= all.take(i as int));
            assert(next.last() == lines@[i as int]@);
            assert(crate::text::rows(lines@)[i as int] == lines@[i as int]@);
        }
        if found.len() < MAX_MATCHES_PER_FILE {
            let text = string_of(&lines[i]);
            let lower = chars_of(to_lowercase(text.as_str()).as_str());
            if has_sub_exec(&lower, &query) {
                let ghost before = match_views(found@);
                let line_number: u32 = if i >= 0xffff_ffff {
                    u32::MAX
                } else {
                    (i + 1) as u32
                };
                let m = SearchMatch {
                    line_number,
                    line_content: string_of(&trim_exec(&lines[i])),
                };
                found.push(m);
                assert(match_views(found@) =~= before.push(m@));
            }
        }
        i += 1;
    }
    assert(all.take(i as int) =~= all);
    found
}

/// A file handed to the search: its path and its text.
#[derive(Debug, Clone)]
pub struct NoteFile {
    pub path: String,
    pub content: String,
}

/// `path` is searched: a markdown file outside the ignored directories.
pub open spec fn searchable(path: Seq<char>) -> bool {
    !ignored(path) && is_markdown(path)
}

/// The result for one file, if the file is searched and has a match.
pub open spec fn result_for(root: Seq<char>, file: NoteFile, query: Seq<char>) -> Option<SearchResultView> {
    let found = matches_in(lines_of(file.content@), query);
    if searchable(file.path@) && found.len() > 0 {
        Some(
            SearchResultView {
                path: relative_name(root, file.path@),
                title: title_of(relative_name(root, file.path@)),
                matches: found,
            },
        )
    } else {
        None
    }
}

/// The results of a search through the files, in their order.
pub open spec fn results_in(root: Seq<char>, files: Seq<NoteFile>, query: Seq<char>) -> Seq<SearchResultView>
    decreases files.len(),
{
    if files.len() == 0 {
        Seq::empty()
    } else {
        match result_for(root, files.last(), query) {
            Some(r) => results_in(root, files.drop_last(), query).push(r),
            None => results_in(root, files.drop_last(), query),
        }
    }
}

/// Tells whether `path` is searched.
pub fn is_searchable(path: &str) -> (r: bool)
    ensures
        r == searchable(path@),
{
    !crate::filesystem::is_ignored(path) && is_markdown_exec(&chars_of(path))
}

/// Searches the files line by line, ignoring case: the fallback when no
/// search tool is at hand.
pub fn search_manual(root: &str, query: &str, files: &Vec<NoteFile>) -> (results: Vec<SearchResult>)
    ensures
        result_views(results@) == results_in(root@, files@, lowercase(query@)),
{
    let lower = to_lowercase(query);
    let mut results: Vec<SearchResult> = Vec::new();
    let mut i: usize = 0;
    assert(files@.take(0) =~= Seq::<NoteFile>::empty());
    assert(result_views(results@) =~= Seq::<SearchResultView>::empty());
    while i < files.len()
        invariant
            i <= files.len(),
            lower@ == lowercase(query@),
            result_views(results@) == results_in(root@, files@.take(i as int), lower@),
        decreases files.len() - i,
    {
        proof {
            let next = files@.take(i + 1);
            assert(next.drop_last() =~= files@.take(i as int));
            assert(next.last() == files@[i as int]);
        }
        if is_searchable(files[i].path.as_str()) {
            let found = search_content(files[i].content.as_str(), lower.as_str());
            if found.len() > 0 {
                let ghost before = result_views(results@);
                let path = normalize_path(root, files[i].path.as_str());
                let title = extract_title_from_path(path.as_str());
                let r = SearchResult { path, title, matches: found };
                results.push(r);
                assert(result_views(results@) =~= before.push(r@));
            }
        }
        i += 1;
    }
    assert(files@.take(i as int) =~= files@);
    results
}

/// One match as a search tool reported it.
#[derive(Debug, Clone)]
pub struct ToolMatch {
    pub path: String,
    pub line_number: u64,
    pub line: String,
}

/// Index of the result for `path`, or -1.
pub open spec fn result_index(results: Seq<SearchResultView>, path: Seq<char>) -> int
    decreases results.len(),
{
    if results.len() == 0 {
        -1
    } else if result_index(results.drop_last(), path) >= 0 {
        result_index(results.drop_last(), path)
    } else if results.last().path == path {
        results.len() - 1
    } else {
        -1
    }
}

/// The results with one more match filed under `path`: added to the result
/// for that path, or as a new result at the end.
pub open spec fn with_match(results: Seq<SearchResultView>, path: Seq<char>, m: SearchMatchView) -> Seq<
    SearchResultView,
> {
    let i = result_index(results, path);
    if 0 <= i < results.len() {
        results.update(
            i,
            SearchResultView {
                path: results[i].path,
                title: results[i].title,
                matches: results[i].matches.push(m),
            },
        )
    } else {
        results.push(SearchResultView { path, title: title_of(path), matches: seq![m] })
    }
}

/// The reported form of a tool's match.
pub open spec fn tool_match_of(t: ToolMatch) -> SearchMatchView {
    SearchMatchView {
        line_number: line_number_of(t.line_number as int),
        line_content: trim(t.line@),
    }
}

/// The tool's matches grouped by file, files in order of their first
/// match.
pub open spec fn grouped(root: Seq<char>, found: Seq<ToolMatch>) -> Seq<SearchResultView>
    decreases found.len(),
{
    if found.len() == 0 {
        Seq::empty()
    } else {
        with_match(
            grouped(root, found.drop_last()),
            relative_name(root, found.last().path@),
            tool_match_of(found.last()),
        )
    }
}

fn find_result(results: &Vec<SearchResult>, path: &str) -> (r: Option<usize>)
    ensures
        match r {
            Some(i) => i < results.len() && result_index(result_views(results@), path@) == i,
            None => result_index(result_views(results@), path@) == -1,
        },
{
    let ghost all = result_views(results@);
    let mut i: usize = 0;
    assert(all.take(0) =~= Seq::<SearchResultView>::empty());
    while i < results.len()
        invariant
            i <= results.len(),
            all == result_views(results@),
            result_index(all.take(i as int), path@) == -1,
        decreases results.len() - i,
    {
        proof {
            let next = all.take(i + 1);
            assert(next.drop_last() =~= all.take(i as int));
            assert(next.last() == results@[i as int]@);
        }
        if str_eq(results[i].path.as_str(), path) {
            proof {
                lemma_result_index_stays(all, i as int + 1, path@);
            }
            return Some(i);
        }
        i += 1;
    }
    assert(all.take(i as int) =~= all);
    None
}

/// An index found in a prefix of the results is the index in all of them.
proof fn lemma_result_index_stays(results: Seq<SearchResultView>, n: int, path: Seq<char>)
    requires
        0 <= n <= results.len(),
        result_index(results.take(n), path) >= 0,
    ensures
        result_index(results, path) == result_index(results.take(n), path),
    decreases results.len() - n,
{
    if n < results.len() {
        assert(results.take(n + 1).drop_last() =~= results.take(n));
        lemma_result_index_stays(results, n + 1, path);
    } else {
        assert(results.take(n) =~= results);
    }
}

/// Groups the matches that a search tool reported by file.
pub fn group_tool_matches(root: &str, found: &Vec<ToolMatch>) -> (results: Vec<SearchResult>)
    ensures
        result_views(results@) == grouped(root@, found@),
{
    let mut results: Vec<SearchResult> = Vec::new();
    let mut i: usize = 0;
    assert(found@.take(0) =~= Seq::<ToolMatch>::empty());
    assert(result_views(results@) =~= Seq::<SearchResultView>::empty());
    while i < found.len()
        invariant
            i <= found.len(),
            result_views(results@) == grouped(root@, found@.take(i as int)),
        decreases found.len() - i,
    {
        proof {
            let next = found@.take(i + 1);
            assert(next.drop_last() =~= found@.take(i as int));
            assert(next.last() == found@[i as int]);
        }
        let ghost before = result_views(results@);
        let path = normalize_path(root, found[i].path.as_str());
        let n = found[i].line_number;
        let line_number: u32 = if n > 0xffff_ffff {
            u32::MAX
        } else {
            n as u32
        };
        let m = SearchMatch {
            line_number,
            line_content: string_of(&trim_exec(&chars_of(found[i].line.as_str()))),
        };
        match find_result(&results, path.as_str()) {
            Some(k) => {
                let mut r = results.remove(k);
                let ghost old_matches = match_views(r.matches@);
                r.matches.push(m);
                assert(match_views(r.matches@) =~= old_matches.push(m@));
                results.insert(k, r);
                assert(result_views(results@) =~= with_match(before, path@, m@));
            },
            None => {
                let title = extract_title_from_path(path.as_str());
                let mut matches: Vec<SearchMatch> = Vec::new();
                matches.push(m);
                let r = SearchResult { path, title, matches };
                assert(match_views(r.matches@) =~= seq![m@]);
                results.push(r);
                assert(result_views(results@) =~= with_match(before, r.path@, m@));
            },
        }
        i += 1;
    }
    assert(found@.take(i as int) =~= found@);
    results
}

/// The query asks for nothing: it is empty or white space only.
pub open spec fn blank(query: Seq<char>) -> bool {
    trim(query).len() == 0
}

/// The results of a search: none for a blank query; the search tool's
/// matches grouped by file where the tool answered; else the results of
/// the search through the files.
pub open spec fn search_results(
    root: Seq<char>,
    query: Seq<char>,
    tool: Option<Vec<ToolMatch>>,
    files: Seq<NoteFile>,
) -> Seq<
    SearchResultView,
> {
    if blank(query) {
        Seq::empty()
    } else {
        match tool {
            Some(found) => grouped(root, found@),
            None => results_in(root, files, lowercase(query)),
        }
    }
}

/// Tells whether the query asks for nothing.
pub fn is_blank(query: &str) -> (r: bool)
    ensures
        r == blank(query@),
{
    trim_exec(&chars_of(query)).len() == 0
}

/// Searches the notes. `tool` holds what the search tool reported, `None`
/// where it is not available; `files` are the files to fall back on.
pub fn search_notes(root: &str, query: &str, tool: Option<Vec<ToolMatch>>, files: &Vec<NoteFile>) -> (results:
    Vec<SearchResult>)
    ensures
        result_views(results@) == search_results(root@, query@, tool, files@),
{
    if is_blank(query) {
        let results: Vec<SearchResult> = Vec::new();
        assert(result_views(results@) =~= Seq::<SearchResultView>::empty());
        return results;
    }
    match tool {
        Some(found) => group_tool_matches(root, &found),
        None => search_manual(root, query, files),
    }
}

} // verus!
