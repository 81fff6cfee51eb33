//! The file search dialog: files of the working directory found by name
//! and by content with ripgrep, name matches first.
use vstd::prelude::*;
use crate::keys::{Key, KeyCode, KeyPress};
use crate::sort::{keyed_views, lemma_sorted_map_payload, lemma_sorted_rank, map_payload, sorted_by_key, stable_sort, thirds};
use crate::textarea::{new_textbox, textbox_input, textbox_lines, textbox_lines_vec, textbox_move_cursor, CursorMove, TextBox};
use crate::text::{
    join, join_strings, find_char, find_first, lemma_map_push, lemma_map_remove, lines_chars, lines_of, option_view, slice_range, string_from,
    string_of, trim, trim_chars, trim_string,
};
use crate::textarea::{key_typed, selection_known, text_state, to_line_end, TextState};

verus! {

/// How a file was found.
#[derive(Clone, Copy, Debug, PartialEq, Eq, Structural)]
pub enum MatchType {
    FileName,
    Content { line_number: usize },
}

/// One file found.
#[derive(Clone, Debug)]
pub struct SearchResult {
    pub file_path: String,
    pub match_type: MatchType,
    pub preview: Option<String>,
}

pub struct SearchResultView {
    pub file_path: Seq<char>,
    pub match_type: MatchType,
    pub preview: Option<Seq<char>>,
}

impl View for SearchResult {
    type V = SearchResultView;

    open spec fn view(&self) -> SearchResultView {
        SearchResultView {
            file_path: self.file_path@,
            match_type: self.match_type,
            preview: option_view(self.preview),
        }
    }
}

pub open spec fn is_digit(c: char) -> bool {
    '0' <= c && c <= '9'
}

pub open spec fn all_digits(s: Seq<char>) -> bool {
    forall|i: int| 0 <= i < s.len() ==> is_digit(#[trigger] s[i])
}

/// The value of a run of decimal digits.
pub open spec fn digits_value(s: Seq<char>) -> nat
    decreases s.len(),
{
    if s.len() == 0 {
        0
    } else {
        digits_value(s.drop_last()) * 10 + ((s.last() as int) - ('0' as int)) as nat
    }
}

/// std's `str::parse::<usize>`: an optional `+`, then one or more decimal
/// digits whose value fits in a `usize`.
pub open spec fn parsed_usize(s: Seq<char>) -> Option<usize> {
    let d = if s.len() > 0 && s[0] == '+' { s.drop_first() } else { s };
    if d.len() > 0 && all_digits(d) && digits_value(d) <= usize::MAX {
        Some(digits_value(d) as usize)
    } else {
        None
    }
}

proof fn lemma_digits_prefix(s: Seq<char>, k: int)
    requires
        all_digits(s),
        0 <= k <= s.len(),
    ensures
        digits_value(s.take(k)) <= digits_value(s),
    decreases s.len(),
{
    if k < s.len() {
        assert(is_digit(s[s.len() - 1]));
        assert(all_digits(s.drop_last()));
        lemma_digits_prefix(s.drop_last(), k);
        assert(s.drop_last().take(k) =~= s.take(k));
    } else {
        assert(s.take(k) =~= s);
    }
}

/// The number written by `v`, as std's `str::parse::<usize>` reads it.
pub fn parse_usize(v: &Vec<char>) -> (r: Option<usize>)
    ensures
        r == parsed_usize(v@),
{
    let start: usize = if v.len() > 0 && v[0] == '+' { 1 } else { 0 };
    let ghost d = if v@.len() > 0 && v@[0] == '+' { v@.drop_first() } else { v@ };
    assert(d =~= v@.skip(start as int));
    if start >= v.len() {
        return None;
    }
    let mut value: usize = 0;
    let mut i: usize = start;
    while i < v.len()
        invariant
            start <= i <= v.len(),
            start < v.len(),
            d == v@.skip(start as int),
            d == (if v@.len() > 0 && v@[0] == '+' { v@.drop_first() } else { v@ }),
            all_digits(d.take(i - start)),
            value == digits_value(d.take(i - start)),
        decreases v.len() - i,
    {
        let c = v[i];
        let ghost k = i - start;
        assert(d[k] == c);
        if !('0' <= c && c <= '9') {
            assert(!all_digits(d));
            return None;
        }
        let dig = ((c as u32) - 48) as usize;
        proof {
            assert(d.take(k + 1).drop_last() =~= d.take(k));
            assert(d.take(k + 1).last() == c);
            assert(all_digits(d.take(k + 1)));
        }
        match value.checked_mul(10) {
            Some(m) => match m.checked_add(dig) {
                Some(n) => {
                    value = n;
                },
                None => {
                    proof {
                        if all_digits(d) {
                            lemma_digits_prefix(d, k + 1);
                        }
                    }
                    return None;
                },
            },
            None => {
                proof {
                    if all_digits(d) {
                        lemma_digits_prefix(d, k + 1);
                    }
                }
                return None;
            },
        }
        i = i + 1;
    }
    assert(d.take(i - start) =~= d);
    Some(value)
}

/// The lines of a ripgrep output that are not empty.
pub open spec fn nonempty_lines(ls: Seq<Seq<char>>) -> Seq<Seq<char>>
    decreases ls.len(),
{
    if ls.len() == 0 {
        Seq::<Seq<char>>::empty()
    } else if ls.last().len() > 0 {
        nonempty_lines(ls.drop_last()).push(ls.last())
    } else {
        nonempty_lines(ls.drop_last())
    }
}

/// A file found by name.
pub open spec fn name_match(path: Seq<char>) -> SearchResultView {
    SearchResultView { file_path: path, match_type: MatchType::FileName, preview: None }
}

/// The files that `rg --files` printed.
pub open spec fn name_results(out: Seq<char>) -> Seq<SearchResultView> {
    nonempty_lines(lines_of(out)).map_values(|l: Seq<char>| name_match(l))
}

/// One line of `rg --line-number` output, `file:line:content`: the file
/// with its line number and the trimmed content; nothing where the line
/// has fewer than two colons or no valid number between them.
pub open spec fn content_match(line: Seq<char>) -> Option<SearchResultView> {
    match find_first(line, ':') {
        Some(i) => {
            let rest = line.skip(i + 1);
            match find_first(rest, ':') {
                Some(j) => match parsed_usize(rest.take(j)) {
                    Some(n) => Some(SearchResultView {
                        file_path: line.take(i),
                        match_type: MatchType::Content { line_number: n },
                        preview: Some(trim(rest.skip(j + 1))),
                    }),
                    None => None,
                },
                None => None,
            }
        },
        None => None,
    }
}

/// A result for `path` is among `rs`.
pub open spec fn has_path(rs: Seq<SearchResultView>, path: Seq<char>) -> bool {
    exists|k: int| 0 <= k < rs.len() && (#[trigger] rs[k]).file_path == path
}

/// `found` followed by the content matches of `lines`, each for a file not
/// found before.
pub open spec fn with_content(found: Seq<SearchResultView>, lines: Seq<Seq<char>>) -> Seq<SearchResultView>
    decreases lines.len(),
{
    if lines.len() == 0 {
        found
    } else {
        let acc = with_content(found, lines.drop_last());
        match content_match(lines.last()) {
            Some(r) => if has_path(acc, r.file_path) { acc } else { acc.push(r) },
            None => acc,
        }
    }
}

/// Name matches rank before content matches.
pub open spec fn rank(m: MatchType) -> u8 {
    match m {
        MatchType::FileName => 0,
        MatchType::Content { .. } => 1,
    }
}

pub open spec fn ranked(rs: Seq<SearchResultView>) -> Seq<(u8, Seq<char>, SearchResultView)> {
    rs.map_values(|r: SearchResultView| (rank(r.match_type), r.file_path, r))
}

/// At most the first fifty results.
pub open spec fn first_fifty(rs: Seq<SearchResultView>) -> Seq<SearchResultView> {
    if rs.len() <= 50 { rs } else { rs.take(50) }
}

/// The results of a search for `query`, given what the name search and
/// the content search printed (`None` where one could not be run): for a
/// blank query the files listed; otherwise the files found by name, then
/// by content, name matches first and each group by path; at most fifty.
pub open spec fn found_files(query: Seq<char>, names: Option<Seq<char>>, contents: Option<Seq<char>>) -> Seq<SearchResultView> {
    let by_name = match names {
        Some(o) => name_results(o),
        None => Seq::<SearchResultView>::empty(),
    };
    if trim(query).len() == 0 {
        first_fifty(by_name)
    } else {
        let all = match contents {
            Some(o) => with_content(by_name, nonempty_lines(lines_of(o))),
            None => by_name,
        };
        first_fifty(sorted_by_key(ranked(all)).map_values(|t: (u8, Seq<char>, SearchResultView)| t.2))
    }
}

/// The files that `rg --files` printed, as name matches.
fn name_matches(out: &str) -> (r: Vec<SearchResult>)
    ensures
        r@.map_values(|x: SearchResult| x@) == name_results(out@),
{
    let v = crate::text::chars_of(out);
    let ls = lines_chars(&v);
    let ghost lv = lines_of(v@);
    let mut r: Vec<SearchResult> = Vec::new();
    let mut k: usize = 0;
    while k < ls.len()
        invariant
            k <= ls.len() == lv.len(),
            lv == lines_of(v@),
            v@ == out@,
            forall|j: int| 0 <= j < ls@.len() ==> #[trigger] ls@[j]@ == lv[j],
            r@.map_values(|x: SearchResult| x@) == nonempty_lines(lv.take(k as int)).map_values(|l: Seq<char>| name_match(l)),
        decreases ls.len() - k,
    {
        let line = &ls[k];
        proof {
            assert(line@ == lv[k as int]);
            assert(lv.take(k + 1).drop_last() =~= lv.take(k as int));
            assert(lv.take(k + 1).last() == lv[k as int]);
        }
        if line.len() > 0 {
            let ghost before = r@;
            r.push(SearchResult { file_path: string_of(line), match_type: MatchType::FileName, preview: None });
            proof {
                lemma_map_push(before, r@.last(), |x: SearchResult| x@);
                let nl = nonempty_lines(lv.take(k as int));
                assert(nl.push(line@).map_values(|l: Seq<char>| name_match(l))
                    =~= nl.map_values(|l: Seq<char>| name_match(l)).push(name_match(line@)));
            }
        }
        k = k + 1;
    }
    proof {
        assert(lv.take(ls@.len() as int) =~= lv);
    }
    r
}

/// One line of `rg --line-number` output as a content match.
fn content_line(line: &Vec<char>) -> (r: Option<SearchResult>)
    ensures
        match r {
            Some(x) => content_match(line@) == Some(x@),
            None => content_match(line@).is_none(),
        },
{
    match find_char(line, ':') {
        Some(i) => {
            let rest = slice_range(line, i + 1, line.len());
            assert(rest@ =~= line@.skip(i + 1));
            match find_char(&rest, ':') {
                Some(j) => {
                    let num = slice_range(&rest, 0, j);
                    assert(num@ =~= rest@.take(j as int));
                    match parse_usize(&num) {
                        Some(n) => {
                            let path = slice_range(line, 0, i);
                            assert(path@ =~= line@.take(i as int));
                            let tail = slice_range(&rest, j + 1, rest.len());
                            assert(tail@ =~= rest@.skip(j + 1));
                            let preview = trim_chars(&tail);
                            Some(SearchResult {
                                file_path: string_of(&path),
                                match_type: MatchType::Content { line_number: n },
                                preview: Some(string_of(&preview)),
                            })
                        },
                        None => None,
                    }
                },
                None => None,
            }
        },
        None => None,
    }
}

/// Whether a result for `path` is among `rs`.
fn contains_path(rs: &Vec<SearchResult>, path: &String) -> (r: bool)
    ensures
        r == has_path(rs@.map_values(|x: SearchResult| x@), path@),
{
    let ghost rv = rs@.map_values(|x: SearchResult| x@);
    let mut k: usize = 0;
    while k < rs.len()
        invariant
            k <= rs.len(),
            rv == rs@.map_values(|x: SearchResult| x@),
            forall|j: int| 0 <= j < k ==> (#[trigger] rv[j]).file_path != path@,
        decreases rs.len() - k,
    {
        assert(rv[k as int] == rs@[k as int]@);
        if crate::text::str_eq(rs[k].file_path.as_str(), path.as_str()) {
            assert(rv[k as int].file_path == path@);
            return true;
        }
        k = k + 1;
    }
    false
}

/// Adds the content matches that `rg --line-number` printed to `found`,
/// each for a file not found before.
fn add_content_matches(found: &mut Vec<SearchResult>, out: &str)
    ensures
        final(found)@.map_values(|x: SearchResult| x@) == with_content(
            old(found)@.map_values(|x: SearchResult| x@),
            nonempty_lines(lines_of(out@)),
        ),
{
    let ghost start = found@.map_values(|x: SearchResult| x@);
    let v = crate::text::chars_of(out);
    let ls = lines_chars(&v);
    let ghost lv = lines_of(v@);
    let mut k: usize = 0;
    while k < ls.len()
        invariant
            k <= ls.len() == lv.len(),
            lv == lines_of(v@),
            v@ == out@,
            forall|j: int| 0 <= j < ls@.len() ==> #[trigger] ls@[j]@ == lv[j],
            found@.map_values(|x: SearchResult| x@) == with_content(start, nonempty_lines(lv.take(k as int))),
        decreases ls.len() - k,
    {
        let line = &ls[k];
        proof {
            assert(line@ == lv[k as int]);
            assert(lv.take(k + 1).drop_last() =~= lv.take(k as int));
            assert(lv.take(k + 1).last() == lv[k as int]);
        }
        if line.len() > 0 {
            let ghost nl = nonempty_lines(lv.take(k as int));
            proof {
                assert(nl.push(line@).drop_last() =~= nl);
            }
            match content_line(line) {
                Some(x) => {
                    if !contains_path(found, &x.file_path) {
                        let ghost before = found@;
                        found.push(x);
                        proof {
                            lemma_map_push(before, found@.last(), |x: SearchResult| x@);
                        }
                    }
                },
                None => {},
            }
        } else {
            assert(line@.len() == 0);
        }
        k = k + 1;
    }
    proof {
        assert(lv.take(ls@.len() as int) =~= lv);
    }
}

/// The results sorted stably by rank, then by path.
fn sort_results(rs: Vec<SearchResult>) -> (r: Vec<SearchResult>)
    ensures
        r@.map_values(|x: SearchResult| x@) == sorted_by_key(ranked(rs@.map_values(|x: SearchResult| x@))).map_values(
            |t: (u8, Seq<char>, SearchResultView)| t.2,
        ),
{
    let ghost rv = rs@.map_values(|x: SearchResult| x@);
    let mut rs = rs;
    let mut keyed: Vec<(u8, Vec<char>, SearchResult)> = Vec::new();
    let n = rs.len();
    let mut k: usize = 0;
    while rs.len() > 0
        invariant
            k + rs.len() == n == rv.len(),
            rs@.map_values(|x: SearchResult| x@) == rv.skip(k as int),
            map_payload(keyed_views(keyed@), |x: SearchResult| x@) == ranked(rv.take(k as int)),
        decreases rs.len(),
    {
        let ghost before_rs = rs@;
        let x = rs.remove(0);
        proof {
            lemma_map_remove(before_rs, 0, |x: SearchResult| x@);
            assert(before_rs.map_values(|x: SearchResult| x@)[0] == x@);
            assert(rv.skip(k as int)[0] == x@);
            assert(rs@.map_values(|x: SearchResult| x@) =~= rv.skip(k + 1));
        }
        let key = crate::text::chars_of(x.file_path.as_str());
        let rk: u8 = match x.match_type {
            MatchType::FileName => 0,
            MatchType::Content { .. } => 1,
        };
        let ghost before = keyed@;
        keyed.push((rk, key, x));
        proof {
            assert(rv.take(k + 1) =~= rv.take(k as int).push(rv[k as int]));
            assert(map_payload(keyed_views(keyed@), |x: SearchResult| x@)
                =~= map_payload(keyed_views(before), |x: SearchResult| x@).push((rk, rv[k as int].file_path, rv[k as int])));
            assert(ranked(rv.take(k + 1)) =~= ranked(rv.take(k as int)).push((rk, rv[k as int].file_path, rv[k as int])));
        }
        k = k + 1;
    }
    proof {
        assert(rv.take(n as int) =~= rv);
    }
    let sorted = stable_sort(keyed);
    let r = thirds(sorted);
    proof {
        let f = |x: SearchResult| x@;
        lemma_sorted_map_payload(keyed_views(keyed@), f);
        let srt = map_payload(keyed_views(sorted@), f);
        assert(srt == sorted_by_key(ranked(rv)));
        assert(r@.map_values(|x: SearchResult| x@) =~= srt.map_values(|t: (u8, Seq<char>, SearchResultView)| t.2));
    }
    r
}

/// The results of a search for `query`, given what `rg --files` (with the
/// name pattern) and `rg --line-number` printed, `None` where one could
/// not be run.
pub fn search_results(query: &str, names: &Option<String>, contents: &Option<String>) -> (r: Vec<SearchResult>)
    ensures
        r@.map_values(|x: SearchResult| x@) == found_files(query@, option_view(*names), option_view(*contents)),
{
    let mut all: Vec<SearchResult> = match names {
        Some(o) => name_matches(o.as_str()),
        None => {
            let e: Vec<SearchResult> = Vec::new();
            assert(e@.map_values(|x: SearchResult| x@) =~= Seq::<SearchResultView>::empty());
            e
        },
    };
    let q = trim_string(query);
    let blank = q.as_str().is_empty();
    if !blank {
        match contents {
            Some(o) => add_content_matches(&mut all, o.as_str()),
            None => {},
        }
        all = sort_results(all);
    }
    let ghost before = all@.map_values(|x: SearchResult| x@);
    all.truncate(50);
    proof {
        if before.len() > 50 {
            assert(all@.map_values(|x: SearchResult| x@) =~= before.take(50));
        } else {
            assert(all@.map_values(|x: SearchResult| x@) =~= before);
        }
    }
    all
}

/// A search lists at most fifty files, and for a query that is not blank,
/// every file found by name before every file found by content.
pub proof fn law_name_matches_first(query: Seq<char>, names: Option<Seq<char>>, contents: Option<Seq<char>>)
    ensures
        found_files(query, names, contents).len() <= 50,
        trim(query).len() > 0 ==> forall|i: int, j: int|
            0 <= i < j < found_files(query, names, contents).len() ==> rank(
                #[trigger] found_files(query, names, contents)[i].match_type,
            ) <= rank(#[trigger] found_files(query, names, contents)[j].match_type),
{
    if trim(query).len() > 0 {
        let by_name = match names {
            Some(o) => name_results(o),
            None => Seq::<SearchResultView>::empty(),
        };
        let all = match contents {
            Some(o) => with_content(by_name, nonempty_lines(lines_of(o))),
            None => by_name,
        };
        let rk = ranked(all);
        lemma_sorted_rank(rk);
        let srt = sorted_by_key(rk);
        let shown = srt.map_values(|t: (u8, Seq<char>, SearchResultView)| t.2);
        let res = found_files(query, names, contents);
        assert(res == first_fifty(shown));
        assert forall|k: int| 0 <= k < srt.len() implies (#[trigger] srt[k]).0 == rank(srt[k].2.match_type) by {
            assert(rk.contains(srt[k]));
            let w = choose|w: int| 0 <= w < rk.len() && rk[w] == srt[k];
            assert(rk[w] == (rank(all[w].match_type), all[w].file_path, all[w]));
        }
        assert forall|i: int, j: int| 0 <= i < j < res.len() implies rank(#[trigger] res[i].match_type) <= rank(
            #[trigger] res[j].match_type,
        ) by {
            assert(res[i] == shown[i] && res[j] == shown[j]);
            assert(shown[i] == srt[i].2 && shown[j] == srt[j].2);
            assert(srt[i].0 <= srt[j].0);
        }
    }
}

/// The strings of a list, as character sequences.
pub open spec fn strings_view(v: Vec<String>) -> Seq<Seq<char>> {
    v@.map_values(|s: String| s@)
}

/// The arguments of the name search: every file for a blank query, else
/// the files whose names hold the query.
pub open spec fn files_args(query: Seq<char>) -> Seq<Seq<char>> {
    if trim(query).len() == 0 {
        seq!["--files"@]
    } else {
        seq!["--files"@, "--glob"@, seq!['*'] + query + seq!['*']]
    }
}

/// The arguments of the content search, run only for a query that is not
/// blank: the first matching line of each file, with its number.
pub open spec fn content_args(query: Seq<char>) -> Option<Seq<Seq<char>>> {
    if trim(query).len() == 0 {
        None
    } else {
        Some(seq!["--line-number"@, "--no-heading"@, "--max-count"@, "1"@, "--context"@, "0"@, query])
    }
}

/// The ripgrep runs of one search, each as its argument list.
pub struct SearchCommands {
    pub files: Vec<String>,
    pub contents: Option<Vec<String>>,
}

/// The ripgrep runs that a search for `query` makes in the working directory.
pub fn search_commands(query: &str) -> (r: SearchCommands)
    ensures
        strings_view(r.files) == files_args(query@),
        match r.contents {
            Some(c) => content_args(query@) == Some(strings_view(c)),
            None => content_args(query@).is_none(),
        },
{
    let q = trim_string(query);
    let mut files: Vec<String> = Vec::new();
    files.push(string_from("--files"));
    if q.as_str().is_empty() {
        assert(strings_view(files) =~= seq!["--files"@]);
        return SearchCommands { files, contents: None };
    }
    files.push(string_from("--glob"));
    let mut pattern = String::new();
    crate::text::push_char(&mut pattern, '*');
    crate::text::push_str(&mut pattern, query);
    crate::text::push_char(&mut pattern, '*');
    assert(pattern@ =~= seq!['*'] + query@ + seq!['*']);
    files.push(pattern);
    assert(strings_view(files) =~= seq!["--files"@, "--glob"@, seq!['*'] + query@ + seq!['*']]);
    let mut contents: Vec<String> = Vec::new();
    contents.push(string_from("--line-number"));
    contents.push(string_from("--no-heading"));
    contents.push(string_from("--max-count"));
    contents.push(string_from("1"));
    contents.push(string_from("--context"));
    contents.push(string_from("0"));
    contents.push(string_from(query));
    assert(strings_view(contents)
        =~= seq!["--line-number"@, "--no-heading"@, "--max-count"@, "1"@, "--context"@, "0"@, query@]);
    SearchCommands { files, contents: Some(contents) }
}

/// The search dialog as plain values.
pub struct SearchModel {
    pub lines: Seq<Seq<char>>,
    pub focused: bool,
    pub results: Seq<SearchResultView>,
    pub selected_index: usize,
    pub list_selected: Option<usize>,
}

/// The search dialog: a query line, the files found, and the highlighted one.
pub struct SearchPopup {
    textarea: TextBox,
    focused: bool,
    search_results: Vec<SearchResult>,
    selected_index: usize,
    list_selected: Option<usize>,
}

impl View for SearchPopup {
    type V = SearchModel;

    closed spec fn view(&self) -> SearchModel {
        SearchModel {
            lines: textbox_lines(self.textarea),
            focused: self.focused,
            results: self.search_results@.map_values(|x: SearchResult| x@),
            selected_index: self.selected_index,
            list_selected: self.list_selected,
        }
    }
}

/// The highlight one result down, staying on the last.
pub open spec fn result_below(idx: usize, len: nat) -> usize {
    if len == 0 {
        idx
    } else if idx + 1 < len {
        (idx + 1) as usize
    } else {
        (len - 1) as usize
    }
}

/// The highlight one result up, staying on the first.
pub open spec fn result_above(idx: usize, len: nat) -> usize {
    if len > 0 && idx > 0 { (idx - 1) as usize } else { idx }
}

/// Ctrl+J or Down moves the highlight down.
pub open spec fn moves_down(key: KeyPress) -> bool {
    (key.code == KeyCode::Char('j') && key.modifiers.is_control()) || key.code == KeyCode::Down
}

/// Ctrl+K or Up moves the highlight up.
pub open spec fn moves_up(key: KeyPress) -> bool {
    (key.code == KeyCode::Char('k') && key.modifiers.is_control()) || key.code == KeyCode::Up
}

/// What a key did in the search dialog: whether it closes, whether the
/// highlighted file is to be opened, and the query to search for next, if
/// any.
pub struct SearchKey {
    pub should_close: bool,
    pub should_open: bool,
    pub search: Option<String>,
}

impl SearchPopup {
    /// The field's text area as plain values; its lines are the view's.
    pub closed spec fn text(&self) -> TextState {
        text_state(self.textarea)
    }

    /// An empty dialog, not focused.
    pub fn new() -> (r: SearchPopup)
        ensures
            r@ == (SearchModel {
                lines: seq![Seq::<char>::empty()],
                focused: false,
                results: Seq::<SearchResultView>::empty(),
                selected_index: 0,
                list_selected: None,
            }),
    {
        let r = SearchPopup {
            textarea: new_textbox(Vec::new()),
            focused: false,
            search_results: Vec::new(),
            selected_index: 0,
            list_selected: None,
        };
        assert(r@.results =~= Seq::<SearchResultView>::empty());
        r
    }

    /// The query line's text area, for drawing.
    pub fn textarea(&self) -> (r: &TextBox)
        ensures
            textbox_lines(*r) == self@.lines,
    {
        &self.textarea
    }

    /// The files found.
    pub fn results(&self) -> (r: &Vec<SearchResult>)
        ensures
            r@.map_values(|x: SearchResult| x@) == self@.results,
    {
        &self.search_results
    }

    /// The highlighted result's index.
    pub fn selected_index(&self) -> (r: usize)
        ensures
            r == self@.selected_index,
    {
        self.selected_index
    }

    /// The list's selection.
    pub fn list_selected(&self) -> (r: Option<usize>)
        ensures
            r == self@.list_selected,
    {
        self.list_selected
    }

    /// Takes the focus; the cursor goes to the end of the query.
    pub fn focus(&mut self)
        ensures
            final(self)@ == (SearchModel { focused: true, ..old(self)@ }),
            final(self).text() == to_line_end(old(self).text()),
    {
        textbox_move_cursor(&mut self.textarea, CursorMove::End);
        self.focused = true;
        proof {
            reveal(to_line_end);
        }
    }

    pub fn unfocus(&mut self)
        ensures
            final(self)@ == (SearchModel { focused: false, ..old(self)@ }),
    {
        self.focused = false;
    }

    pub fn is_focused(&self) -> (r: bool)
        ensures
            r == self@.focused,
    {
        self.focused
    }

    /// Empties the query and the results.
    pub fn clear(&mut self)
        ensures
            final(self)@ == (SearchModel {
                lines: seq![Seq::<char>::empty()],
                results: Seq::<SearchResultView>::empty(),
                selected_index: 0,
                list_selected: None,
                ..old(self)@
            }),
    {
        self.textarea = new_textbox(Vec::new());
        self.search_results = Vec::new();
        self.selected_index = 0;
        self.list_selected = None;
        assert(self@.results =~= Seq::<SearchResultView>::empty());
    }

    /// The query: the lines joined with line breaks.
    pub fn get_input(&self) -> (r: String)
        ensures
            r@ == join(self@.lines, "\n"@),
    {
        let lines = textbox_lines_vec(&self.textarea);
        join_strings(&lines, "\n")
    }

    /// The highlighted file's path, if the highlight is on a result.
    pub fn get_selected_file(&self) -> (r: Option<String>)
        ensures
            option_view(r) == (if self@.selected_index < self@.results.len() {
                Some(self@.results[self@.selected_index as int].file_path)
            } else {
                None
            }),
    {
        if self.selected_index < self.search_results.len() {
            assert(self@.results[self.selected_index as int] == self.search_results@[self.selected_index as int]@);
            Some(self.search_results[self.selected_index].file_path.clone())
        } else {
            None
        }
    }

    /// Shows the results of a search for `query`, given what the ripgrep
    /// runs of `search_commands(query)` printed; the highlight goes to the
    /// first result.
    pub fn search_files(&mut self, query: &str, names: &Option<String>, contents: &Option<String>)
        ensures
            final(self)@ == (SearchModel {
                results: found_files(query@, option_view(*names), option_view(*contents)),
                selected_index: 0,
                list_selected: if found_files(query@, option_view(*names), option_view(*contents)).len() > 0 {
                    Some(0usize)
                } else {
                    None
                },
                ..old(self)@
            }),
    {
        self.search_results = search_results(query, names, contents);
        self.selected_index = 0;
        if self.search_results.len() > 0 {
            self.list_selected = Some(0);
        } else {
            self.list_selected = None;
        }
    }

    /// Dialog keys: Ctrl+J/Down and Ctrl+K/Up move the highlight; Esc
    /// closes; Enter opens the highlighted file, or searches again where
    /// there is none; other keys edit the query, which is then searched for.
    pub fn handle_key(&mut self, key: &KeyPress) -> (r: SearchKey)
        ensures
            old(self)@.lines == old(self).text().lines,
            final(self)@.lines == final(self).text().lines,
            (!moves_down(*key) && !moves_up(*key) && key.input.key != Key::Esc && key.input.key != Key::Enter) ==> (selection_known(old(self).text()) ==> key_typed(
                key.input,
                old(self).text(),
                final(self).text(),
            )),
            old(self)@.results.len() <= usize::MAX,
            moves_down(*key) ==> !r.should_close && !r.should_open && r.search.is_none() && final(self)@ == (
            if old(self)@.results.len() > 0 {
                SearchModel {
                    selected_index: result_below(old(self)@.selected_index, old(self)@.results.len()),
                    list_selected: Some(result_below(old(self)@.selected_index, old(self)@.results.len())),
                    ..old(self)@
                }
            } else {
                old(self)@
            }),
            !moves_down(*key) && moves_up(*key) ==> !r.should_close && !r.should_open && r.search.is_none()
                && final(self)@ == (if old(self)@.results.len() > 0 && old(self)@.selected_index > 0 {
                SearchModel {
                    selected_index: result_above(old(self)@.selected_index, old(self)@.results.len()),
                    list_selected: Some(result_above(old(self)@.selected_index, old(self)@.results.len())),
                    ..old(self)@
                }
            } else {
                old(self)@
            }),
            !moves_down(*key) && !moves_up(*key) && key.input.key == Key::Esc ==> r.should_close && !r.should_open
                && r.search.is_none() && final(self)@ == old(self)@,
            !moves_down(*key) && !moves_up(*key) && key.input.key == Key::Enter ==> final(self)@ == old(self)@ && (
            if old(self)@.selected_index < old(self)@.results.len() {
                r.should_close && r.should_open && r.search.is_none()
            } else {
                !r.should_close && !r.should_open && option_view(r.search) == Some(join(old(self)@.lines, "\n"@))
            }),
            !moves_down(*key) && !moves_up(*key) && key.input.key != Key::Esc && key.input.key != Key::Enter ==> (
            !r.should_close && !r.should_open && final(self)@ == (SearchModel { lines: final(self)@.lines, ..old(self)@ })
                && option_view(r.search) == Some(join(final(self)@.lines, "\n"@))),
    {
        let len = self.search_results.len();
        let control = key.modifiers.only_control();
        if (key.code == KeyCode::Char('j') && control) || key.code == KeyCode::Down {
            if len > 0 {
                self.selected_index = if self.selected_index < len - 1 { self.selected_index + 1 } else { len - 1 };
                self.list_selected = Some(self.selected_index);
            }
            return SearchKey { should_close: false, should_open: false, search: None };
        }
        if (key.code == KeyCode::Char('k') && control) || key.code == KeyCode::Up {
            if len > 0 && self.selected_index > 0 {
                self.selected_index = self.selected_index - 1;
                self.list_selected = Some(self.selected_index);
            }
            return SearchKey { should_close: false, should_open: false, search: None };
        }
        match key.input.key {
            Key::Esc => SearchKey { should_close: true, should_open: false, search: None },
            Key::Enter => {
                if len > 0 && self.selected_index < len {
                    SearchKey { should_close: true, should_open: true, search: None }
                } else {
                    SearchKey { should_close: false, should_open: false, search: Some(self.get_input()) }
                }
            },
            _ => {
                textbox_input(&mut self.textarea, key.input);
                SearchKey { should_close: false, should_open: false, search: Some(self.get_input()) }
            },
        }
    }
}

} // verus!
