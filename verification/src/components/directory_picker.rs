//! The folder picker: a list of folders to walk through and pick one from.
use vstd::prelude::*;
use crate::keys::{KeyCode, KeyPress};
use crate::listing::{listing_view, sorted_visible, sorted_visible_entries, DirEntry, DirEntryView};
use crate::paths::{parent_fact, path_parent};
use crate::text::{lemma_map_push, option_view, str_eq, string_from};

verus! {

/// One row of a folder list.
#[derive(Clone, Debug)]
pub struct DirectoryItem {
    pub name: String,
    pub path: String,
    pub is_parent: bool,
}

pub struct DirectoryItemView {
    pub name: Seq<char>,
    pub path: Seq<char>,
    pub is_parent: bool,
}

impl View for DirectoryItem {
    type V = DirectoryItemView;

    open spec fn view(&self) -> DirectoryItemView {
        DirectoryItemView { name: self.name@, path: self.path@, is_parent: self.is_parent }
    }
}

/// The `..` row, leading to the parent folder.
pub open spec fn parent_row(parent: Seq<char>) -> DirectoryItemView {
    DirectoryItemView { name: ".."@, path: parent, is_parent: true }
}

/// The `.` row, standing for the folder itself.
pub open spec fn current_row(path: Seq<char>) -> DirectoryItemView {
    DirectoryItemView { name: "."@, path: path, is_parent: false }
}

/// A sub-folder's row.
pub open spec fn folder_row(e: DirEntryView) -> DirectoryItemView {
    DirectoryItemView { name: e.name, path: e.path, is_parent: false }
}

/// The rows shown for the folder `path`: `..` where it has a parent, `.`
/// where asked for, then its visible sub-folders sorted by name (none when
/// its listing could not be read).
pub open spec fn folder_rows(
    path: Seq<char>,
    parent: Option<Seq<char>>,
    listing: Option<Seq<DirEntryView>>,
    with_current: bool,
) -> Seq<DirectoryItemView> {
    let up = match parent {
        Some(p) => seq![parent_row(p)],
        None => Seq::<DirectoryItemView>::empty(),
    };
    let here = if with_current { seq![current_row(path)] } else { Seq::<DirectoryItemView>::empty() };
    let dirs = match listing {
        Some(es) => sorted_visible(es, true).map_values(|e: DirEntryView| folder_row(e)),
        None => Seq::<DirectoryItemView>::empty(),
    };
    up + here + dirs
}

/// `items` are the rows of the folder `path` for some parent folder (what
/// the platform's path rules give as its parent).
pub open spec fn rows_of_folder(
    items: Seq<DirectoryItemView>,
    path: Seq<char>,
    listing: Option<Seq<DirEntryView>>,
    with_current: bool,
) -> bool {
    exists|parent: Option<Seq<char>>| parent_fact(path, parent) && #[trigger] folder_rows(path, parent, listing, with_current) == items
}

/// The rows of the folder `path`, given its parent folder and its listing.
pub fn directory_items(path: &str, parent: Option<String>, listing: &Option<Vec<DirEntry>>, with_current: bool) -> (r: Vec<DirectoryItem>)
    ensures
        r@.map_values(|i: DirectoryItem| i@) == folder_rows(path@, option_view(parent), listing_view(*listing), with_current),
{
    let ghost pv = option_view(parent);
    let ghost lv = listing_view(*listing);
    let mut items: Vec<DirectoryItem> = Vec::new();
    match parent {
        Some(p) => {
            items.push(DirectoryItem { name: string_from(".."), path: p, is_parent: true });
        },
        None => {},
    }
    if with_current {
        let ghost before = items@;
        items.push(DirectoryItem { name: string_from("."), path: string_from(path), is_parent: false });
        proof {
            lemma_map_push(before, items@.last(), |i: DirectoryItem| i@);
        }
    }
    let ghost head = items@.map_values(|i: DirectoryItem| i@);
    proof {
        let up = match pv {
            Some(q) => seq![parent_row(q)],
            None => Seq::<DirectoryItemView>::empty(),
        };
        let here = if with_current { seq![current_row(path@)] } else { Seq::<DirectoryItemView>::empty() };
        assert(head =~= up + here);
    }
    match listing {
        Some(es) => {
            let dirs = sorted_visible_entries(es, true);
            let ghost dv = dirs@.map_values(|e: DirEntry| e@).map_values(|e: DirEntryView| folder_row(e));
            let mut k: usize = 0;
            while k < dirs.len()
                invariant
                    k <= dirs.len(),
                    dv == dirs@.map_values(|e: DirEntry| e@).map_values(|e: DirEntryView| folder_row(e)),
                    items@.map_values(|i: DirectoryItem| i@) == head + dv.take(k as int),
                decreases dirs.len() - k,
            {
                let ghost before = items@;
                let e = &dirs[k];
                items.push(DirectoryItem { name: e.name.clone(), path: e.path.clone(), is_parent: false });
                proof {
                    lemma_map_push(before, items@.last(), |i: DirectoryItem| i@);
                    assert(dv[k as int] == folder_row(e@));
                    assert(dv.take(k + 1) =~= dv.take(k as int).push(dv[k as int]));
                }
                k = k + 1;
            }
            proof {
                assert(dv.take(dirs@.len() as int) =~= dv);
            }
        },
        None => {
            assert(head + Seq::<DirectoryItemView>::empty() =~= head);
        },
    }
    items
}

/// The selection after moving up: one row up, where there is one.
pub open spec fn row_above(selected: Option<usize>) -> Option<usize> {
    let s = match selected {
        Some(s) => s,
        None => 0,
    };
    if s > 0 { Some((s - 1) as usize) } else { selected }
}

/// The selection after moving down: one row down, where there is one.
pub open spec fn row_below(selected: Option<usize>, len: nat) -> Option<usize> {
    let s = match selected {
        Some(s) => s,
        None => 0,
    };
    if s + 1 < len { Some((s + 1) as usize) } else { selected }
}

/// Moving down then up comes back to the same row, where there is a row
/// below; moving up then down comes back, where there is a row above.
pub proof fn law_row_below_above(sel: usize, len: nat)
    requires
        sel < len <= usize::MAX,
    ensures
        sel + 1 < len ==> row_above(row_below(Some(sel), len)) == Some(sel),
        sel > 0 ==> row_below(row_above(Some(sel)), len) == Some(sel),
{
}

/// The selected row, where the selection is on a row.
pub open spec fn selected_row(items: Seq<DirectoryItemView>, selected: Option<usize>) -> Option<DirectoryItemView> {
    match selected {
        Some(s) => if s < items.len() { Some(items[s as int]) } else { None },
        None => None,
    }
}

/// The selection one row up.
pub fn above(selected: Option<usize>) -> (r: Option<usize>)
    ensures
        r == row_above(selected),
{
    let s = match selected {
        Some(s) => s,
        None => 0,
    };
    if s > 0 { Some(s - 1) } else { selected }
}

/// The selection one row down, in a list of `len` rows.
pub fn below(selected: Option<usize>, len: usize) -> (r: Option<usize>)
    ensures
        r == row_below(selected, len as nat),
{
    let s = match selected {
        Some(s) => s,
        None => 0,
    };
    if len > 0 && s < len - 1 { Some(s + 1) } else { selected }
}

/// The folder picker as plain values.
pub struct PickerModel {
    pub items: Seq<DirectoryItemView>,
    pub selected: Option<usize>,
    pub focused: bool,
    pub current_path: Seq<char>,
    pub selected_path: Option<Seq<char>>,
}

/// The folder picker.
pub struct DirectoryPicker {
    items: Vec<DirectoryItem>,
    selected: Option<usize>,
    focused: bool,
    current_path: String,
    selected_path: Option<String>,
}

impl View for DirectoryPicker {
    type V = PickerModel;

    closed spec fn view(&self) -> PickerModel {
        PickerModel {
            items: self.items@.map_values(|i: DirectoryItem| i@),
            selected: self.selected,
            focused: self.focused,
            current_path: self.current_path@,
            selected_path: option_view(self.selected_path),
        }
    }
}

/// What a key did in the picker: whether the picker took it, and the
/// folder to list and open next, if any.
pub struct PickerKey {
    pub handled: bool,
    pub open: Option<String>,
}

impl DirectoryPicker {
    /// A picker on the folder `current_path`, given its listing, with the
    /// first row selected.
    pub fn new(current_path: String, listing: Option<Vec<DirEntry>>) -> (r: DirectoryPicker)
        ensures
            rows_of_folder(r@.items, current_path@, listing_view(listing), true),
            r@.selected == Some(0usize),
            !r@.focused,
            r@.current_path == current_path@,
            r@.selected_path.is_none(),
    {
        let mut picker = DirectoryPicker {
            items: Vec::new(),
            selected: None,
            focused: false,
            current_path: current_path,
            selected_path: None,
        };
        let path = picker.current_path.clone();
        picker.load_directories(path.as_str(), listing);
        picker.selected = Some(0);
        picker
    }

    fn load_directories(&mut self, path: &str, listing: Option<Vec<DirEntry>>)
        ensures
            rows_of_folder(final(self)@.items, path@, listing_view(listing), true),
            final(self)@.selected == (if final(self)@.items.len() > 0 { Some(0usize) } else { old(self)@.selected }),
            final(self)@.focused == old(self)@.focused,
            final(self)@.current_path == old(self)@.current_path,
            final(self)@.selected_path == old(self)@.selected_path,
    {
        let parent = path_parent(path);
        let ghost pv = option_view(parent);
        self.items = directory_items(path, parent, &listing, true);
        assert(folder_rows(path@, pv, listing_view(listing), true) == self@.items);
        if self.items.len() > 0 {
            self.selected = Some(0);
        }
    }

    /// Opens the folder `path`, given its listing.
    pub fn open_directory(&mut self, path: String, listing: Option<Vec<DirEntry>>)
        ensures
            rows_of_folder(final(self)@.items, path@, listing_view(listing), true),
            final(self)@.selected == Some(0usize),
            final(self)@.focused == old(self)@.focused,
            final(self)@.current_path == path@,
            final(self)@.selected_path == old(self)@.selected_path,
    {
        self.current_path = path;
        let p = self.current_path.clone();
        self.load_directories(p.as_str(), listing);
        assert(self@.items.len() > 0);
    }

    /// Picker keys: Up/`k` and Down/`j` move the selection; Enter/`l` on
    /// `.` picks the current folder and on another row asks to open it;
    /// `h` asks to open the parent folder; `s` picks the current folder.
    pub fn handle_key(&mut self, key: &KeyPress) -> (r: PickerKey)
        ensures
            r.handled == (key.code == KeyCode::Up || key.code == KeyCode::Char('k')
                || key.code == KeyCode::Down || key.code == KeyCode::Char('j')
                || key.code == KeyCode::Enter || key.code == KeyCode::Char('l')
                || key.code == KeyCode::Char('h') || key.code == KeyCode::Char('s')),
            (key.code == KeyCode::Up || key.code == KeyCode::Char('k')) ==> final(self)@ == (PickerModel {
                selected: row_above(old(self)@.selected),
                ..old(self)@
            }) && r.open.is_none(),
            (key.code == KeyCode::Down || key.code == KeyCode::Char('j')) ==> final(self)@ == (PickerModel {
                selected: row_below(old(self)@.selected, old(self)@.items.len()),
                ..old(self)@
            }) && r.open.is_none(),
            (key.code == KeyCode::Enter || key.code == KeyCode::Char('l')) ==> match selected_row(
                old(self)@.items,
                old(self)@.selected,
            ) {
                Some(row) => if row.name == "."@ {
                    final(self)@ == (PickerModel { selected_path: Some(old(self)@.current_path), ..old(self)@ })
                        && r.open.is_none()
                } else {
                    final(self)@ == old(self)@ && option_view(r.open) == Some(row.path)
                },
                None => final(self)@ == old(self)@ && r.open.is_none(),
            },
            key.code == KeyCode::Char('h') ==> final(self)@ == old(self)@ && parent_fact(old(self)@.current_path, option_view(r.open)),
            key.code == KeyCode::Char('s') ==> final(self)@ == (PickerModel {
                selected_path: Some(old(self)@.current_path),
                ..old(self)@
            }) && r.open.is_none(),
            !r.handled ==> final(self)@ == old(self)@ && r.open.is_none(),
    {
        match key.code {
            KeyCode::Up | KeyCode::Char('k') => {
                self.selected = above(self.selected);
                PickerKey { handled: true, open: None }
            },
            KeyCode::Down | KeyCode::Char('j') => {
                self.selected = below(self.selected, self.items.len());
                PickerKey { handled: true, open: None }
            },
            KeyCode::Enter | KeyCode::Char('l') => {
                match self.selected {
                    Some(s) => {
                        if s < self.items.len() {
                            assert(self@.items[s as int] == self.items@[s as int]@);
                            if str_eq(self.items[s].name.as_str(), ".") {
                                self.selected_path = Some(self.current_path.clone());
                                PickerKey { handled: true, open: None }
                            } else {
                                PickerKey { handled: true, open: Some(self.items[s].path.clone()) }
                            }
                        } else {
                            PickerKey { handled: true, open: None }
                        }
                    },
                    None => PickerKey { handled: true, open: None },
                }
            },
            KeyCode::Char('h') => {
                PickerKey { handled: true, open: path_parent(self.current_path.as_str()) }
            },
            KeyCode::Char('s') => {
                self.selected_path = Some(self.current_path.clone());
                PickerKey { handled: true, open: None }
            },
            _ => PickerKey { handled: false, open: None },
        }
    }

    /// The picked folder, handed out once.
    pub fn get_selected_path(&mut self) -> (r: Option<String>)
        ensures
            option_view(r) == old(self)@.selected_path,
            final(self)@ == (PickerModel { selected_path: None, ..old(self)@ }),
    {
        self.selected_path.take()
    }

    /// The folder shown.
    pub fn current_path(&self) -> (r: &String)
        ensures
            r@ == self@.current_path,
    {
        &self.current_path
    }

    /// The rows shown.
    pub fn items(&self) -> (r: &Vec<DirectoryItem>)
        ensures
            r@.map_values(|i: DirectoryItem| i@) == self@.items,
    {
        &self.items
    }

    /// The selected row, if any.
    pub fn selected(&self) -> (r: Option<usize>)
        ensures
            r == self@.selected,
    {
        self.selected
    }

    pub fn focus(&mut self)
        ensures
            final(self)@ == (PickerModel { focused: true, ..old(self)@ }),
    {
        self.focused = true;
    }

    pub fn unfocus(&mut self)
        ensures
            final(self)@ == (PickerModel { focused: false, ..old(self)@ }),
    {
        self.focused = false;
    }

    pub fn is_focused(&self) -> (r: bool)
        ensures
            r == self@.focused,
    {
        self.focused
    }

    /// Forgets the picked folder.
    pub fn clear(&mut self)
        ensures
            final(self)@ == (PickerModel { selected_path: None, ..old(self)@ }),
    {
        self.selected_path = None;
    }
}

} // verus!
