//! The file explorer: a tree of the working directory's files, with
//! folders that open in place.
use vstd::prelude::*;
use crate::keys::{KeyCode, KeyPress};
use crate::listing::{listing_view, sorted_visible, sorted_visible_entries, DirEntry, DirEntryView};
use crate::paths::{parent_fact, path_parent};
use crate::text::{lemma_map_insert, lemma_map_push, lemma_map_remove, lemma_map_take, option_view};

verus! {

/// One row of the explorer.
pub struct FileItem {
    pub name: String,
    pub path: String,
    pub is_dir: bool,
    pub expanded: bool,
    pub depth: usize,
}

pub struct FileItemView {
    pub name: Seq<char>,
    pub path: Seq<char>,
    pub is_dir: bool,
    pub expanded: bool,
    pub depth: usize,
}

impl View for FileItem {
    type V = FileItemView;

    open spec fn view(&self) -> FileItemView {
        FileItemView { name: self.name@, path: self.path@, is_dir: self.is_dir, expanded: self.expanded, depth: self.depth }
    }
}

impl FileItem {
    /// A copy of the item.
    pub fn duplicate(&self) -> (r: FileItem)
        ensures
            r@ == self@,
    {
        FileItem {
            name: self.name.clone(),
            path: self.path.clone(),
            is_dir: self.is_dir,
            expanded: self.expanded,
            depth: self.depth,
        }
    }
}

/// A listing entry as a closed explorer row at `depth`.
pub open spec fn item_of(e: DirEntryView, depth: usize) -> FileItemView {
    FileItemView { name: e.name, path: e.path, is_dir: e.is_dir, expanded: false, depth: depth }
}

/// The rows that a directory listing gives: its visible folders, then its
/// visible files, each sorted by name.
pub open spec fn listing_items(es: Seq<DirEntryView>, depth: usize) -> Seq<FileItemView> {
    (sorted_visible(es, true) + sorted_visible(es, false)).map_values(|e: DirEntryView| item_of(e, depth))
}

/// The explorer as plain values.
pub struct CollectionsModel {
    pub items: Seq<FileItemView>,
    pub selected: Option<usize>,
    pub focused: bool,
}

/// The file explorer.
pub struct Collections {
    items: Vec<FileItem>,
    selected: Option<usize>,
    focused: bool,
}

impl View for Collections {
    type V = CollectionsModel;

    closed spec fn view(&self) -> CollectionsModel {
        CollectionsModel {
            items: self.items@.map_values(|i: FileItem| i@),
            selected: self.selected,
            focused: self.focused,
        }
    }
}

/// The selection after moving down: wraps from the last row to the first.
pub open spec fn next_selection(selected: Option<usize>, len: nat) -> Option<usize> {
    if len == 0 {
        selected
    } else {
        match selected {
            Some(i) => if i >= len - 1 { Some(0) } else { Some((i + 1) as usize) },
            None => Some(0),
        }
    }
}

/// The selection after moving up: wraps from the first row to the last.
pub open spec fn previous_selection(selected: Option<usize>, len: nat) -> Option<usize> {
    if len == 0 {
        selected
    } else {
        match selected {
            Some(i) => if i == 0 { Some((len - 1) as usize) } else { Some((i - 1) as usize) },
            None => Some(0),
        }
    }
}

/// The selected row is a closed folder.
pub open spec fn can_expand(m: CollectionsModel) -> bool {
    match m.selected {
        Some(s) => s < m.items.len() && m.items[s as int].is_dir && !m.items[s as int].expanded,
        None => false,
    }
}

/// Opening the selected folder: it is marked open and, when its listing
/// could be read, its rows follow it one level deeper.
pub open spec fn expanded_items(m: CollectionsModel, listing: Option<Seq<DirEntryView>>) -> Seq<FileItemView> {
    let s = m.selected->Some_0 as int;
    let marked = m.items.update(s, FileItemView { expanded: true, ..m.items[s] });
    match listing {
        Some(es) => marked.take(s + 1) + listing_items(es, (m.items[s].depth + 1) as usize) + marked.skip(s + 1),
        None => marked,
    }
}

/// How many rows from `from` on are deeper than `depth` (the rows inside a
/// folder at `depth` that sits just before `from`).
pub open spec fn deeper_run(items: Seq<FileItemView>, from: int, depth: usize) -> nat
    decreases items.len() - from,
{
    if from < 0 || from >= items.len() || items[from].depth <= depth {
        0
    } else {
        1 + deeper_run(items, from + 1, depth)
    }
}

/// The nearest folder above row `s` at depth `d`, if any.
pub open spec fn parent_folder(items: Seq<FileItemView>, s: int, d: usize) -> Option<int>
    decreases s,
{
    if s <= 0 {
        None
    } else if items[s - 1].depth == d && items[s - 1].is_dir {
        Some(s - 1)
    } else {
        parent_folder(items, s - 1, d)
    }
}

/// Closing: an open selected folder closes and its rows go; otherwise the
/// nearest folder above at the level above is selected and closed in turn.
pub open spec fn collapsed(items: Seq<FileItemView>, selected: Option<usize>) -> (Seq<FileItemView>, Option<usize>)
    decreases (match selected { Some(s) => s as int, None => 0 }),
{
    match selected {
        None => (items, selected),
        Some(s) => {
            if s >= items.len() {
                (items, selected)
            } else {
                let it = items[s as int];
                if it.is_dir && it.expanded {
                    let marked = items.update(s as int, FileItemView { expanded: false, ..it });
                    let k = deeper_run(items, s + 1, it.depth);
                    (marked.take(s + 1) + marked.skip(s + 1 + k), selected)
                } else if it.depth > 0 {
                    match parent_folder(items, s as int, (it.depth - 1) as usize) {
                        Some(p) => if 0 <= p < s { collapsed(items, Some(p as usize)) } else { (items, selected) },
                        None => (items, selected),
                    }
                } else {
                    (items, selected)
                }
            }
        },
    }
}

/// Moving down then up, or up then down, comes back to the same row.
pub proof fn law_next_previous(sel: usize, len: nat)
    requires
        sel < len <= usize::MAX,
    ensures
        previous_selection(next_selection(Some(sel), len), len) == Some(sel),
        next_selection(previous_selection(Some(sel), len), len) == Some(sel),
{
}

/// The rows from `from` on, `n` of them, all lie deeper than `depth`.
proof fn lemma_deeper_run_skip(items: Seq<FileItemView>, from: int, n: nat, depth: usize)
    requires
        0 <= from,
        from + n <= items.len(),
        forall|j: int| from <= j < from + n ==> #[trigger] items[j].depth > depth,
    ensures
        deeper_run(items, from, depth) == n + deeper_run(items, from + n, depth),
    decreases n,
{
    if n > 0 {
        lemma_deeper_run_skip(items, from + 1, (n - 1) as nat, depth);
    }
}

/// Two rows one above the other in a tree: the lower is at most one level
/// deeper, and deeper only under an open folder.
pub open spec fn tree_step(above: FileItemView, below: FileItemView) -> bool {
    &&& below.depth <= above.depth + 1
    &&& below.depth == above.depth + 1 ==> above.is_dir && above.expanded
}

/// The rows form a tree in listing order.
pub open spec fn tree_shaped(items: Seq<FileItemView>) -> bool {
    forall|i: int| 0 <= i && i + 1 < items.len() ==> #[trigger] tree_step(items[i], items[i + 1])
}

/// A directory listing gives a tree.
pub proof fn law_listing_is_tree(es: Seq<DirEntryView>)
    ensures
        tree_shaped(listing_items(es, 0)),
{
    let items = listing_items(es, 0);
    let all = sorted_visible(es, true) + sorted_visible(es, false);
    assert forall|i: int| 0 <= i && i + 1 < items.len() implies #[trigger] tree_step(items[i], items[i + 1]) by {
        assert(items[i] == item_of(all[i], 0));
        assert(items[i + 1] == item_of(all[i + 1], 0));
    }
}

/// Opening a folder keeps the rows a tree.
pub proof fn law_expand_keeps_tree(m: CollectionsModel, listing: Option<Seq<DirEntryView>>)
    requires
        can_expand(m),
        tree_shaped(m.items),
        m.items[m.selected->Some_0 as int].depth < usize::MAX,
    ensures
        tree_shaped(expanded_items(m, listing)),
{
    let s = m.selected->Some_0 as int;
    let it = m.items[s];
    let d = it.depth;
    let e = expanded_items(m, listing);
    let marked = m.items.update(s, FileItemView { expanded: true, ..it });
    let ins: Seq<FileItemView> = match listing {
        Some(es) => listing_items(es, (d + 1) as usize),
        None => Seq::<FileItemView>::empty(),
    };
    let n = ins.len();
    assert(e =~= marked.take(s + 1) + ins + marked.skip(s + 1));
    assert forall|j: int| 0 <= j < n implies #[trigger] ins[j].depth == d + 1 by {
        match listing {
            Some(es) => {
                let all = sorted_visible(es, true) + sorted_visible(es, false);
                assert(ins[j] == item_of(all[j], (d + 1) as usize));
            },
            None => {},
        }
    }
    if s + 1 < m.items.len() {
        assert(tree_step(m.items[s], m.items[s + 1]));
    }
    assert forall|i: int| 0 <= i && i + 1 < e.len() implies #[trigger] tree_step(e[i], e[i + 1]) by {
        if i + 1 < s {
            assert(e[i] == m.items[i] && e[i + 1] == m.items[i + 1]);
            assert(tree_step(m.items[i], m.items[i + 1]));
        } else if i + 1 == s {
            assert(e[i] == m.items[i]);
            assert(e[i + 1] == marked[s]);
            assert(tree_step(m.items[i], m.items[i + 1]));
        } else if i == s {
            assert(e[i] == marked[s]);
            if n > 0 {
                assert(e[i + 1] == ins[0]);
            } else {
                assert(e[i + 1] == m.items[s + 1]);
            }
        } else if i < s + n {
            assert(e[i] == ins[i - s - 1]);
            if i + 1 < s + 1 + n {
                assert(e[i + 1] == ins[i - s]);
            } else {
                assert(e[i + 1] == m.items[s + 1]);
            }
        } else if i == s + n {
            assert(n > 0);
            assert(e[i] == ins[n - 1]);
            assert(e[i + 1] == m.items[s + 1]);
        } else {
            assert(e[i] == m.items[i - n] && e[i + 1] == m.items[i + 1 - n]);
            assert(tree_step(m.items[i - n], m.items[i - n + 1]));
        }
    }
}

proof fn lemma_deeper_run_end(items: Seq<FileItemView>, from: int, depth: usize)
    requires
        0 <= from <= items.len(),
    ensures
        from + deeper_run(items, from, depth) <= items.len(),
        from + deeper_run(items, from, depth) < items.len() ==> items[from + deeper_run(items, from, depth)].depth
            <= depth,
    decreases items.len() - from,
{
    if from < items.len() && items[from].depth > depth {
        lemma_deeper_run_end(items, from + 1, depth);
    }
}

/// Closing a folder keeps the rows a tree.
pub proof fn law_collapse_keeps_tree(items: Seq<FileItemView>, selected: Option<usize>)
    requires
        tree_shaped(items),
    ensures
        tree_shaped(collapsed(items, selected).0),
    decreases (match selected { Some(s) => s as int, None => 0 }),
{
    match selected {
        None => {},
        Some(s) => {
            if s < items.len() {
                let it = items[s as int];
                if it.is_dir && it.expanded {
                    let d = it.depth;
                    let marked = items.update(s as int, FileItemView { expanded: false, ..it });
                    lemma_deeper_run_end(items, s + 1, d);
                    let k = deeper_run(items, s + 1, d);
                    let r = marked.take(s + 1) + marked.skip(s + 1 + k);
                    assert(collapsed(items, selected).0 == r);
                    assert forall|i: int| 0 <= i && i + 1 < r.len() implies #[trigger] tree_step(r[i], r[i + 1]) by {
                        if i + 1 < s {
                            assert(r[i] == items[i] && r[i + 1] == items[i + 1]);
                            assert(tree_step(items[i], items[i + 1]));
                        } else if i + 1 == s {
                            assert(r[i] == items[i]);
                            assert(r[i + 1] == marked[s as int]);
                            assert(tree_step(items[i], items[i + 1]));
                        } else if i == s {
                            assert(r[i] == marked[s as int]);
                            assert(r[i + 1] == items[s + 1 + k]);
                        } else {
                            assert(r[i] == items[i + k] && r[i + 1] == items[i + 1 + k]);
                            assert(tree_step(items[i + k], items[i + k + 1]));
                        }
                    }
                } else if it.depth > 0 {
                    match parent_folder(items, s as int, (it.depth - 1) as usize) {
                        Some(p) => {
                            if 0 <= p < s {
                                law_collapse_keeps_tree(items, Some(p as usize));
                            }
                        },
                        None => {},
                    }
                }
            }
        },
    }
}

/// Opening a closed folder and closing it again gives back the rows as
/// they were, when the rows form a tree (as the explorer keeps them: the
/// rows of a folder follow it only while it is open).
pub proof fn law_expand_then_collapse(m: CollectionsModel, listing: Option<Seq<DirEntryView>>)
    requires
        can_expand(m),
        tree_shaped(m.items),
        m.items[m.selected->Some_0 as int].depth < usize::MAX,
    ensures
        collapsed(expanded_items(m, listing), m.selected) == (m.items, m.selected),
{
    let s = m.selected->Some_0 as int;
    if s + 1 < m.items.len() {
        assert(tree_step(m.items[s], m.items[s + 1]));
    }
    let it = m.items[s];
    let d = it.depth;
    let e = expanded_items(m, listing);
    let marked = m.items.update(s, FileItemView { expanded: true, ..it });
    let ins: Seq<FileItemView> = match listing {
        Some(es) => listing_items(es, (d + 1) as usize),
        None => Seq::<FileItemView>::empty(),
    };
    assert(e =~= marked.take(s + 1) + ins + marked.skip(s + 1));
    assert forall|j: int| 0 <= j < ins.len() implies #[trigger] ins[j].depth == d + 1 by {
        match listing {
            Some(es) => {
                let all = sorted_visible(es, true) + sorted_visible(es, false);
                assert(ins[j] == item_of(all[j], (d + 1) as usize));
            },
            None => {},
        }
    }
    assert(e[s] == FileItemView { expanded: true, ..it });
    assert forall|j: int| s + 1 <= j < s + 1 + ins.len() implies #[trigger] e[j].depth > d by {
        assert(e[j] == ins[j - (s + 1)]);
    }
    lemma_deeper_run_skip(e, s + 1, ins.len(), d);
    if s + 1 < m.items.len() {
        assert(e[s + 1 + ins.len()] == m.items[s + 1]);
    }
    assert(deeper_run(e, s + 1 + ins.len(), d) == 0);
    let marked2 = e.update(s, FileItemView { expanded: false, ..e[s] });
    assert(FileItemView { expanded: false, ..e[s] } == it);
    assert(marked2.take(s + 1) + marked2.skip(s + 1 + ins.len()) =~= m.items);
}

fn item_from(e: &DirEntry, depth: usize) -> (r: FileItem)
    ensures
        r@ == item_of(e@, depth),
{
    FileItem { name: e.name.clone(), path: e.path.clone(), is_dir: e.is_dir, expanded: false, depth }
}

/// The rows of a listing at `depth`.
fn listing_rows(entries: &Vec<DirEntry>, depth: usize) -> (r: Vec<FileItem>)
    ensures
        r@.map_values(|i: FileItem| i@) == listing_items(entries@.map_values(|e: DirEntry| e@), depth),
{
    let ghost ev = entries@.map_values(|e: DirEntry| e@);
    let dirs = sorted_visible_entries(entries, true);
    let files = sorted_visible_entries(entries, false);
    let ghost all = sorted_visible(ev, true) + sorted_visible(ev, false);
    let mut out: Vec<FileItem> = Vec::new();
    let mut i: usize = 0;
    while i < dirs.len()
        invariant
            i <= dirs.len(),
            dirs@.map_values(|e: DirEntry| e@) == sorted_visible(ev, true),
            out@.map_values(|x: FileItem| x@) == all.take(i as int).map_values(|e: DirEntryView| item_of(e, depth)),
            out@.len() == i,
            all == sorted_visible(ev, true) + sorted_visible(ev, false),
        decreases dirs.len() - i,
    {
        let ghost before = out@.map_values(|x: FileItem| x@);
        out.push(item_from(&dirs[i], depth));
        proof {
            assert(dirs@.map_values(|e: DirEntry| e@)[i as int] == dirs@[i as int]@);
            assert(all[i as int] == dirs@[i as int]@);
            let lhs = out@.map_values(|x: FileItem| x@);
            let rhs = all.take(i + 1).map_values(|e: DirEntryView| item_of(e, depth));
            assert(lhs.len() == i + 1);
            assert(rhs.len() == i + 1);
            assert(lhs[i as int] == out@[i as int]@);
            assert(rhs[i as int] == item_of(all[i as int], depth));
            assert(lhs[i as int] == rhs[i as int]);
            assert forall|k: int| 0 <= k < i implies lhs[k] == rhs[k] by {
                assert(lhs[k] == before[k]);
            }
            assert(lhs =~= rhs);
        }
        i = i + 1;
    }
    let mut j: usize = 0;
    while j < files.len()
        invariant
            j <= files.len(),
            dirs@.len() == sorted_visible(ev, true).len(),
            files@.map_values(|e: DirEntry| e@) == sorted_visible(ev, false),
            out@.map_values(|x: FileItem| x@) == all.take((dirs@.len() + j) as int).map_values(|e: DirEntryView| item_of(e, depth)),
            out@.len() == dirs@.len() + j,
            all == sorted_visible(ev, true) + sorted_visible(ev, false),
        decreases files.len() - j,
    {
        let ghost before = out@;
        let it = item_from(&files[j], depth);
        let ghost itv = it@;
        out.push(it);
        proof {
            lemma_map_push(before, it, |x: FileItem| x@);
            lemma_map_take(all, (dirs@.len() + j) as int, |e: DirEntryView| item_of(e, depth));
            lemma_map_take(all, (dirs@.len() + j + 1) as int, |e: DirEntryView| item_of(e, depth));
            assert(all.take((dirs@.len() + j + 1) as int) =~= all.take((dirs@.len() + j) as int).push(all[(dirs@.len() + j) as int]));
            lemma_map_push(all.take((dirs@.len() + j) as int), all[(dirs@.len() + j) as int], |e: DirEntryView| item_of(e, depth));
            assert(files@.map_values(|e: DirEntry| e@)[j as int] == files@[j as int]@);
            assert(all[dirs@.len() + j] == files@[j as int]@);
            assert(out@.map_values(|x: FileItem| x@) =~= all.take((dirs@.len() + j + 1) as int).map_values(|e: DirEntryView| item_of(e, depth)));
        }
        j = j + 1;
    }
    proof {
        assert(all.take((dirs@.len() + files@.len()) as int) =~= all);
    }
    out
}

/// The tree guide drawn at one level in front of a row.
#[derive(Clone, Copy, Debug, PartialEq, Eq, Structural)]
pub enum Guide {
    /// `└─`: the row is the last of its folder.
    Last,
    /// `│ `: more rows follow at this level.
    Pipe,
    /// Two spaces.
    Blank,
}

/// The icon in front of a row's name.
#[derive(Clone, Copy, Debug, PartialEq, Eq, Structural)]
pub enum Icon {
    OpenFolder,
    Folder,
    File,
}

/// One row as the explorer draws it.
pub struct TreeRow {
    pub guides: Vec<Guide>,
    pub icon: Icon,
    pub name: String,
}

/// A later row has the same depth and the same parent directory.
pub open spec fn later_sibling(items: Seq<FileItemView>, parents: Seq<Option<Seq<char>>>, idx: int) -> bool {
    exists|j: int| idx < j < items.len() && items[j].depth == items[idx].depth && #[trigger] parents[j] == parents[idx]
}

/// A later row sits at level `lv + 1` or above.
pub open spec fn later_at_or_above(items: Seq<FileItemView>, idx: int, lv: int) -> bool {
    exists|j: int| idx < j < items.len() && #[trigger] items[j].depth <= lv + 1
}

/// The guide at level `lv` in front of row `idx`.
pub open spec fn guide_at(items: Seq<FileItemView>, parents: Seq<Option<Seq<char>>>, idx: int, lv: int) -> Guide {
    if lv == items[idx].depth - 1 {
        if later_sibling(items, parents, idx) { Guide::Pipe } else { Guide::Last }
    } else {
        if later_at_or_above(items, idx, lv) { Guide::Pipe } else { Guide::Blank }
    }
}

pub open spec fn icon_of(item: FileItemView) -> Icon {
    if item.is_dir {
        if item.expanded { Icon::OpenFolder } else { Icon::Folder }
    } else {
        Icon::File
    }
}

/// Row `idx` drawn: one guide per level of depth, the icon and the name.
pub open spec fn row_drawn(items: Seq<FileItemView>, parents: Seq<Option<Seq<char>>>, idx: int, row: TreeRow) -> bool {
    &&& row.guides@.len() == items[idx].depth
    &&& forall|lv: int| 0 <= lv < row.guides@.len() ==> #[trigger] row.guides@[lv] == guide_at(items, parents, idx, lv)
    &&& row.icon == icon_of(items[idx])
    &&& row.name@ == items[idx].name
}

/// Each item's parent directory is as `path_parent` gives it.
pub open spec fn parents_of(items: Seq<FileItemView>, parents: Seq<Option<Seq<char>>>) -> bool {
    &&& parents.len() == items.len()
    &&& forall|k: int| 0 <= k < items.len() ==> parent_fact(items[k].path, #[trigger] parents[k])
}

/// Every row of `rows` is row `idx` of `items` drawn, given each row's
/// parent directory.
pub open spec fn rows_drawn(items: Seq<FileItemView>, parents: Seq<Option<Seq<char>>>, rows: Seq<TreeRow>) -> bool {
    &&& parents.len() == items.len()
    &&& rows.len() == items.len()
    &&& forall|idx: int| 0 <= idx < rows.len() ==> row_drawn(items, parents, idx, #[trigger] rows[idx])
}

fn has_later_sibling(items: &Vec<FileItem>, parents: &Vec<Option<String>>, idx: usize) -> (r: bool)
    requires
        idx < items.len() == parents.len(),
    ensures
        r == later_sibling(items@.map_values(|i: FileItem| i@), parents@.map_values(|p: Option<String>| option_view(p)), idx as int),
{
    let ghost iv = items@.map_values(|i: FileItem| i@);
    let ghost pv = parents@.map_values(|p: Option<String>| option_view(p));
    let mut j = idx + 1;
    while j < items.len()
        invariant
            idx < j <= items.len() == parents.len(),
            iv == items@.map_values(|i: FileItem| i@),
            pv == parents@.map_values(|p: Option<String>| option_view(p)),
            forall|k: int| idx < k < j ==> !(iv[k].depth == iv[idx as int].depth && #[trigger] pv[k] == pv[idx as int]),
        decreases items.len() - j,
    {
        let same = match (&parents[j], &parents[idx]) {
            (Some(a), Some(b)) => *a == *b,
            (None, None) => true,
            _ => false,
        };
        proof {
            assert(pv[j as int] == option_view(parents@[j as int]));
            assert(pv[idx as int] == option_view(parents@[idx as int]));
        }
        if items[j].depth == items[idx].depth && same {
            assert(iv[j as int].depth == iv[idx as int].depth && pv[j as int] == pv[idx as int]);
            return true;
        }
        j = j + 1;
    }
    false
}

fn has_later_at_or_above(items: &Vec<FileItem>, idx: usize, lv: usize) -> (r: bool)
    requires
        idx < items.len(),
    ensures
        r == later_at_or_above(items@.map_values(|i: FileItem| i@), idx as int, lv as int),
{
    let ghost iv = items@.map_values(|i: FileItem| i@);
    let mut j = idx + 1;
    while j < items.len()
        invariant
            idx < j <= items.len(),
            iv == items@.map_values(|i: FileItem| i@),
            forall|k: int| idx < k < j ==> !(#[trigger] iv[k].depth <= lv + 1),
        decreases items.len() - j,
    {
        assert(iv[j as int] == items@[j as int]@);
        if (items[j].depth as u128) <= (lv as u128) + 1 {
            assert(idx < j < iv.len() && iv[j as int].depth <= lv + 1);
            return true;
        }
        j = j + 1;
    }
    false
}

/// The drawn rows of the explorer, given each row's parent directory.
pub fn tree_rows(items: &Vec<FileItem>, parents: &Vec<Option<String>>) -> (r: Vec<TreeRow>)
    requires
        items.len() == parents.len(),
    ensures
        r@.len() == items@.len(),
        forall|idx: int| 0 <= idx < r@.len() ==> row_drawn(
            items@.map_values(|i: FileItem| i@),
            parents@.map_values(|p: Option<String>| option_view(p)),
            idx,
            #[trigger] r@[idx],
        ),
{
    let ghost iv = items@.map_values(|i: FileItem| i@);
    let ghost pv = parents@.map_values(|p: Option<String>| option_view(p));
    let mut rows: Vec<TreeRow> = Vec::new();
    let mut idx: usize = 0;
    while idx < items.len()
        invariant
            idx <= items.len() == parents.len(),
            iv == items@.map_values(|i: FileItem| i@),
            pv == parents@.map_values(|p: Option<String>| option_view(p)),
            rows@.len() == idx,
            forall|k: int| 0 <= k < idx ==> row_drawn(iv, pv, k, #[trigger] rows@[k]),
        decreases items.len() - idx,
    {
        let item = &items[idx];
        assert(iv[idx as int] == item@);
        let depth = item.depth;
        let mut guides: Vec<Guide> = Vec::new();
        let mut lv: usize = 0;
        while lv < depth
            invariant
                idx < items.len() == parents.len(),
                iv == items@.map_values(|i: FileItem| i@),
                pv == parents@.map_values(|p: Option<String>| option_view(p)),
                depth == iv[idx as int].depth,
                lv <= depth,
                guides@.len() == lv,
                forall|k: int| 0 <= k < lv ==> #[trigger] guides@[k] == guide_at(iv, pv, idx as int, k),
            decreases depth - lv,
        {
            let g = if lv == depth - 1 {
                if has_later_sibling(items, parents, idx) { Guide::Pipe } else { Guide::Last }
            } else {
                if has_later_at_or_above(items, idx, lv) { Guide::Pipe } else { Guide::Blank }
            };
            guides.push(g);
            lv = lv + 1;
        }
        let icon = if item.is_dir {
            if item.expanded { Icon::OpenFolder } else { Icon::Folder }
        } else {
            Icon::File
        };
        let row = TreeRow { guides, icon, name: item.name.clone() };
        assert(row_drawn(iv, pv, idx as int, row));
        rows.push(row);
        idx = idx + 1;
    }
    rows
}

impl Collections {
    /// An explorer over the working directory's listing (`None` when it
    /// could not be read), focused, with the first row selected.
    pub fn new(root: Option<Vec<DirEntry>>) -> (r: Collections)
        ensures
            r@ == (CollectionsModel {
                items: match root {
                    Some(es) => listing_items(es@.map_values(|e: DirEntry| e@), 0),
                    None => Seq::<FileItemView>::empty(),
                },
                selected: Some(0),
                focused: true,
            }),
            tree_shaped(r@.items),
    {
        proof {
            if root is Some {
                law_listing_is_tree(listing_view(root)->Some_0);
            }
        }
        let mut c = Collections { items: Vec::new(), selected: None, focused: true };
        match root {
            Some(es) => c.load_directory(&es, 0),
            None => {
                assert(c@.items =~= Seq::<FileItemView>::empty());
            },
        }
        c.selected = Some(0);
        c
    }

    /// Adds the rows of a listing at `depth`; a listing at depth 0 replaces
    /// all rows.
    pub fn load_directory(&mut self, entries: &Vec<DirEntry>, depth: usize)
        ensures
            final(self)@ == (CollectionsModel {
                items: (if depth == 0 { Seq::<FileItemView>::empty() } else { old(self)@.items })
                    + listing_items(entries@.map_values(|e: DirEntry| e@), depth),
                ..old(self)@
            }),
    {
        let rows = listing_rows(entries, depth);
        if depth == 0 {
            self.items = Vec::new();
        }
        let ghost base = self@.items;
        let mut k: usize = 0;
        while k < rows.len()
            invariant
                k <= rows.len(),
                self.selected == old(self).selected,
                self.focused == old(self).focused,
                self@.items == base + rows@.take(k as int).map_values(|i: FileItem| i@),
                self.items@.len() == base.len() + k,
            decreases rows.len() - k,
        {
            let ghost before = self.items@;
            let it = rows[k].duplicate();
            self.items.push(it);
            proof {
                lemma_map_push(before, it, |x: FileItem| x@);
                assert(rows@.take(k + 1) =~= rows@.take(k as int).push(rows@[k as int]));
                lemma_map_push(rows@.take(k as int), rows@[k as int], |x: FileItem| x@);
                assert(self@.items =~= base + rows@.take(k + 1).map_values(|i: FileItem| i@));
            }
            k = k + 1;
        }
        proof {
            assert(rows@.take(rows@.len() as int) =~= rows@);
            assert(base == (if depth == 0 { Seq::<FileItemView>::empty() } else { old(self)@.items }));
        }
    }

    /// Reloads the working directory's listing (`None` when it could not be
    /// read, which leaves the rows as they are).
    pub fn refresh(&mut self, root: Option<Vec<DirEntry>>)
        ensures
            final(self)@ == (CollectionsModel {
                items: match root {
                    Some(es) => listing_items(es@.map_values(|e: DirEntry| e@), 0),
                    None => old(self)@.items,
                },
                ..old(self)@
            }),
            tree_shaped(old(self)@.items) ==> tree_shaped(final(self)@.items),
    {
        proof {
            if root is Some {
                law_listing_is_tree(listing_view(root)->Some_0);
            }
        }
        match root {
            Some(es) => {
                self.load_directory(&es, 0);
                assert(Seq::<FileItemView>::empty() + listing_items(es@.map_values(|e: DirEntry| e@), 0)
                    =~= listing_items(es@.map_values(|e: DirEntry| e@), 0));
            },
            None => {},
        }
    }

    /// The rows as the explorer draws them, each with its tree guides.
    pub fn display_rows(&self) -> (r: Vec<TreeRow>)
        ensures
            r@.len() == self@.items.len(),
            exists|parents: Seq<Option<Seq<char>>>| #[trigger] rows_drawn(self@.items, parents, r@)
                && parents_of(self@.items, parents),
    {
        let mut parents: Vec<Option<String>> = Vec::new();
        let mut k: usize = 0;
        while k < self.items.len()
            invariant
                k <= self.items.len(),
                parents@.len() == k,
                forall|j: int| 0 <= j < k ==> parent_fact(self.items@[j]@.path, #[trigger] option_view(parents@[j])),
            decreases self.items.len() - k,
        {
            parents.push(path_parent(self.items[k].path.as_str()));
            k = k + 1;
        }
        let r = tree_rows(&self.items, &parents);
        proof {
            let pv = parents@.map_values(|p: Option<String>| option_view(p));
            assert(self@.items == self.items@.map_values(|i: FileItem| i@));
            assert(rows_drawn(self@.items, pv, r@));
            assert(parents_of(self@.items, pv));
        }
        r
    }

    /// The selected row, if any.
    pub fn selected(&self) -> (r: Option<usize>)
        ensures
            r == self@.selected,
    {
        self.selected
    }

    /// The rows.
    pub fn items(&self) -> (r: &Vec<FileItem>)
        ensures
            r@.map_values(|i: FileItem| i@) == self@.items,
    {
        &self.items
    }

    /// A copy of the selected row, if the selection is on a row.
    pub fn get_selected_file(&self) -> (r: Option<FileItem>)
        ensures
            match self@.selected {
                Some(s) => if s < self@.items.len() { r is Some && r->Some_0@ == self@.items[s as int] } else { r is None },
                None => r is None,
            },
    {
        match self.selected {
            Some(s) => if s < self.items.len() {
                assert(self@.items[s as int] == self.items@[s as int]@);
                Some(self.items[s].duplicate())
            } else {
                None
            },
            None => None,
        }
    }

    /// Moves the selection down, wrapping around.
    pub fn next(&mut self)
        ensures
            final(self)@ == (CollectionsModel { selected: next_selection(old(self)@.selected, old(self)@.items.len()), ..old(self)@ }),
            old(self)@.items.len() <= usize::MAX,
    {
        let len = self.items.len();
        if len == 0 {
            return;
        }
        let i = match self.selected {
            Some(i) => if i >= len - 1 { 0 } else { i + 1 },
            None => 0,
        };
        self.selected = Some(i);
    }

    /// Moves the selection up, wrapping around.
    pub fn previous(&mut self)
        ensures
            final(self)@ == (CollectionsModel { selected: previous_selection(old(self)@.selected, old(self)@.items.len()), ..old(self)@ }),
            old(self)@.items.len() <= usize::MAX,
    {
        let len = self.items.len();
        if len == 0 {
            return;
        }
        let i = match self.selected {
            Some(i) => if i == 0 { len - 1 } else { i - 1 },
            None => 0,
        };
        self.selected = Some(i);
    }

    /// The path of the selected row when it is a closed folder: the
    /// directory whose listing opening it needs.
    pub fn folder_to_expand(&self) -> (r: Option<String>)
        ensures
            r is Some <==> can_expand(self@),
            r is Some ==> r->Some_0@ == self@.items[self@.selected->Some_0 as int].path,
    {
        match self.selected {
            Some(s) => if s < self.items.len() && self.items[s].is_dir && !self.items[s].expanded {
                assert(self@.items[s as int] == self.items@[s as int]@);
                Some(self.items[s].path.clone())
            } else {
                proof {
                    if s < self.items.len() {
                        assert(self@.items[s as int] == self.items@[s as int]@);
                    }
                }
                None
            },
            None => None,
        }
    }

    /// Opens the selected folder with its listing (`None` when the listing
    /// could not be read: the folder is still marked open). Nothing happens
    /// unless the selection is on a closed folder.
    pub fn expand_folder(&mut self, listing: Option<Vec<DirEntry>>)
        requires
            can_expand(old(self)@) ==> old(self)@.items[old(self)@.selected->Some_0 as int].depth < usize::MAX,
        ensures
            final(self)@ == (if can_expand(old(self)@) {
                CollectionsModel {
                    items: expanded_items(old(self)@, match listing {
                        Some(es) => Some(es@.map_values(|e: DirEntry| e@)),
                        None => None,
                    }),
                    ..old(self)@
                }
            } else {
                old(self)@
            }),
            tree_shaped(old(self)@.items) ==> tree_shaped(final(self)@.items),
    {
        proof {
            if can_expand(self@) && tree_shaped(self@.items) {
                law_expand_keeps_tree(self@, listing_view(listing));
                assert(listing_view(listing) == match listing {
                    Some(es) => Some(es@.map_values(|e: DirEntry| e@)),
                    None => None,
                });
            }
        }
        let s = match self.selected {
            Some(s) => s,
            None => return,
        };
        if !(s < self.items.len() && self.items[s].is_dir && !self.items[s].expanded) {
            proof {
                if s < self.items.len() {
                    assert(self@.items[s as int] == self.items@[s as int]@);
                }
            }
            return;
        }
        assert(self@.items[s as int] == self.items@[s as int]@);
        let mut it = self.items.remove(s);
        it.expanded = true;
        let depth = it.depth + 1;
        self.items.insert(s, it);
        let ghost marked = self@.items;
        proof {
            assert(marked =~= old(self)@.items.update(s as int, FileItemView { expanded: true, ..old(self)@.items[s as int] }));
        }
        match listing {
            Some(es) => {
                let rows = listing_rows(&es, depth);
                let ghost rv = rows@.map_values(|i: FileItem| i@);
                let mut k: usize = 0;
                proof {
                    assert(marked =~= marked.take(s + 1) + rv.take(0) + marked.skip(s + 1));
                }
                while k < rows.len()
                    invariant
                        k <= rows.len(),
                        s < marked.len(),
                        rv == rows@.map_values(|i: FileItem| i@),
                        self.selected == old(self).selected,
                        self.focused == old(self).focused,
                        self@.items == marked.take(s + 1) + rv.take(k as int) + marked.skip(s + 1),
                        self.items@.len() == marked.len() + k,
                    decreases rows.len() - k,
                {
                    let cur_len = self.items.len();
                    let ghost prev = self.items@;
                    let it = rows[k].duplicate();
                    self.items.insert(s + 1 + k, it);
                    proof {
                        lemma_map_insert(prev, s + 1 + k, it, |x: FileItem| x@);
                        assert(rv[k as int] == rows@[k as int]@);
                        assert(rv.take(k + 1) =~= rv.take(k as int).push(rv[k as int]));
                        assert(self@.items =~= marked.take(s + 1) + rv.take(k + 1) + marked.skip(s + 1));
                    }
                    k = k + 1;
                }
                proof {
                    assert(rv.take(rows@.len() as int) =~= rv);
                }
            },
            None => {},
        }
    }

    fn collapse_at(&mut self, s: usize)
        requires
            old(self)@.selected == Some(s),
        ensures
            (final(self)@.items, final(self)@.selected) == collapsed(old(self)@.items, old(self)@.selected),
            final(self)@.focused == old(self)@.focused,
        decreases s,
    {
        if s >= self.items.len() {
            return;
        }
        assert(self@.items[s as int] == self.items@[s as int]@);
        let is_dir = self.items[s].is_dir;
        let expanded = self.items[s].expanded;
        let depth = self.items[s].depth;
        if is_dir && expanded {
            let ghost orig = self@.items;
            let mut it = self.items.remove(s);
            it.expanded = false;
            self.items.insert(s, it);
            let ghost marked = self@.items;
            assert(marked =~= orig.update(s as int, FileItemView { expanded: false, ..orig[s as int] }));
            let i = s + 1;
            let ghost mut removed: nat = 0;
            proof {
                assert(marked.skip(s + 1 + 0) =~= marked.skip(s + 1));
                assert(marked =~= marked.take(s + 1) + marked.skip(s + 1));
            }
            while i < self.items.len() && self.items[i].depth > depth
                invariant
                    i == s + 1,
                    s < marked.len() == orig.len(),
                    self.selected == old(self).selected,
                    self.focused == old(self).focused,
                    depth == orig[s as int].depth,
                    marked == orig.update(s as int, FileItemView { expanded: false, ..orig[s as int] }),
                    s + 1 + removed <= orig.len(),
                    self@.items == marked.take(s + 1) + marked.skip(s + 1 + removed),
                    deeper_run(orig, s + 1, depth) == removed + deeper_run(orig, s + 1 + removed, depth),
                decreases self.items.len() - i,
            {
                proof {
                    assert(self@.items[i as int] == self.items@[i as int]@);
                    assert(self@.items[i as int] == orig[s + 1 + removed]);
                    assert(marked.skip(s + 1 + removed).drop_first() =~= marked.skip(s + 1 + removed + 1));
                }
                let ghost prev = self.items@;
                self.items.remove(i);
                proof {
                    lemma_map_remove(prev, i as int, |x: FileItem| x@);
                    removed = removed + 1;
                    assert(self@.items =~= marked.take(s + 1) + marked.skip(s + 1 + removed));
                }
            }
            proof {
                if i < self.items.len() {
                    assert(self@.items[i as int] == self.items@[i as int]@);
                    assert(self@.items[i as int] == orig[s + 1 + removed]);
                } else {
                    assert(s + 1 + removed == orig.len());
                }
                assert(deeper_run(orig, s + 1 + removed, depth) == 0);
            }
        } else if depth > 0 {
            let target = depth - 1;
            let mut i = s;
            while i > 0
                invariant
                    i <= s < self.items.len(),
                    self.items@ == old(self).items@,
                    self.selected == old(self).selected,
                    self.focused == old(self).focused,
                    parent_folder(self@.items, s as int, target) == parent_folder(self@.items, i as int, target),
                    old(self)@.selected == Some(s),
                    old(self)@.items[s as int].depth > 0,
                    target == (old(self)@.items[s as int].depth - 1) as usize,
                    !(old(self)@.items[s as int].is_dir && old(self)@.items[s as int].expanded),
                decreases i,
            {
                assert(self@.items[i - 1] == self.items@[i - 1]@);
                if self.items[i - 1].depth == target && self.items[i - 1].is_dir {
                    proof {
                        assert(parent_folder(self@.items, i as int, target) == Some((i - 1) as int));
                        assert(collapsed(old(self)@.items, Some(s)) == collapsed(old(self)@.items, Some((i - 1) as usize)));
                    }
                    self.selected = Some(i - 1);
                    self.collapse_at(i - 1);
                    return;
                }
                i = i - 1;
            }
        }
    }

    /// Whether the selected folder, where it can be opened, leaves room for
    /// one more level of depth.
    pub fn can_open_deeper(&self) -> (r: bool)
        ensures
            r == (can_expand(self@) ==> self@.items[self@.selected->Some_0 as int].depth < usize::MAX),
    {
        match self.selected {
            Some(s) => {
                if s < self.items.len() && self.items[s].is_dir && !self.items[s].expanded {
                    assert(self@.items[s as int] == self.items@[s as int]@);
                    self.items[s].depth < usize::MAX
                } else {
                    proof {
                        if s < self.items.len() {
                            assert(self@.items[s as int] == self.items@[s as int]@);
                        }
                    }
                    true
                }
            },
            None => true,
        }
    }

    /// Closes the selected folder, or, on a row inside a folder, selects
    /// and closes the folder above it.
    pub fn collapse_folder(&mut self)
        ensures
            (final(self)@.items, final(self)@.selected) == collapsed(old(self)@.items, old(self)@.selected),
            final(self)@.focused == old(self)@.focused,
            tree_shaped(old(self)@.items) ==> tree_shaped(final(self)@.items),
    {
        proof {
            if tree_shaped(self@.items) {
                law_collapse_keeps_tree(self@.items, self@.selected);
            }
        }
        match self.selected {
            Some(s) => self.collapse_at(s),
            None => {},
        }
    }

    /// Explorer keys: `j` / `k` move the selection, `l` opens the selected
    /// folder with the given listing, `h` closes; returns whether the key
    /// was one of these.
    pub fn handle_keys(&mut self, key: &KeyPress, listing: Option<Vec<DirEntry>>) -> (r: bool)
        requires
            key.code == KeyCode::Char('l') && can_expand(old(self)@)
                ==> old(self)@.items[old(self)@.selected->Some_0 as int].depth < usize::MAX,
        ensures
            r == (key.code == KeyCode::Char('j') || key.code == KeyCode::Char('k')
                || key.code == KeyCode::Char('l') || key.code == KeyCode::Char('h')),
            key.code == KeyCode::Char('j') ==> final(self)@ == (CollectionsModel {
                selected: next_selection(old(self)@.selected, old(self)@.items.len()),
                ..old(self)@
            }),
            key.code == KeyCode::Char('k') ==> final(self)@ == (CollectionsModel {
                selected: previous_selection(old(self)@.selected, old(self)@.items.len()),
                ..old(self)@
            }),
            key.code == KeyCode::Char('l') ==> final(self)@ == (if can_expand(old(self)@) {
                CollectionsModel {
                    items: expanded_items(old(self)@, match listing {
                        Some(es) => Some(es@.map_values(|e: DirEntry| e@)),
                        None => None,
                    }),
                    ..old(self)@
                }
            } else {
                old(self)@
            }),
            key.code == KeyCode::Char('h') ==> (final(self)@.items, final(self)@.selected)
                == collapsed(old(self)@.items, old(self)@.selected) && final(self)@.focused == old(self)@.focused,
            !r ==> final(self)@ == old(self)@,
    {
        match key.code {
            KeyCode::Char('j') => {
                self.next();
                true
            },
            KeyCode::Char('k') => {
                self.previous();
                true
            },
            KeyCode::Char('l') => {
                self.expand_folder(listing);
                true
            },
            KeyCode::Char('h') => {
                self.collapse_folder();
                true
            },
            _ => false,
        }
    }

    pub fn focus(&mut self)
        ensures
            final(self)@ == (CollectionsModel { focused: true, ..old(self)@ }),
    {
        self.focused = true;
    }

    pub fn unfocus(&mut self)
        ensures
            final(self)@ == (CollectionsModel { focused: false, ..old(self)@ }),
    {
        self.focused = false;
    }

    pub fn is_focused(&self) -> (r: bool)
        ensures
            r == self@.focused,
    {
        self.focused
    }
}

} // verus!
