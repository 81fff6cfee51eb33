//! The save dialog: a folder list to walk through, and the name that the
//! request is saved under in the folder shown.
use vstd::prelude::*;
pub use crate::components::directory_picker::DirectoryItem;
use crate::components::directory_picker::{
    below, above, directory_items, folder_rows, rows_of_folder, row_above, row_below, selected_row, DirectoryItemView,
};
use crate::keys::{Key, KeyPress};
use crate::listing::{listing_view, DirEntry};
use crate::paths::{join_fact, parent_fact, path_join, path_parent};
use crate::text::{option_view, string_from};

verus! {

/// The save dialog as plain values.
pub struct SaveModel {
    pub items: Seq<DirectoryItemView>,
    pub selected: Option<usize>,
    pub focused: bool,
    pub current_path: Seq<char>,
    pub filename: Seq<char>,
}

/// The save dialog.
pub struct SavePopup {
    items: Vec<DirectoryItem>,
    selected: Option<usize>,
    focused: bool,
    current_path: String,
    filename: String,
}

impl View for SavePopup {
    type V = SaveModel;

    closed spec fn view(&self) -> SaveModel {
        SaveModel {
            items: self.items@.map_values(|i: DirectoryItem| i@),
            selected: self.selected,
            focused: self.focused,
            current_path: self.current_path@,
            filename: self.filename@,
        }
    }
}

/// What a key did in the dialog: whether it closes, whether it saves, and
/// the folder to list and open next, if any.
pub struct SaveKey {
    pub should_close: bool,
    pub should_save: bool,
    pub open: Option<String>,
}

impl SavePopup {
    /// A dialog on the folder `current_path`, given its listing, with no
    /// name and the first row selected.
    pub fn new(current_path: String, listing: Option<Vec<DirEntry>>) -> (r: SavePopup)
        ensures
            rows_of_folder(r@.items, current_path@, listing_view(listing), false),
            r@.selected == Some(0usize),
            !r@.focused,
            r@.current_path == current_path@,
            r@.filename.len() == 0,
    {
        let mut popup = SavePopup {
            items: Vec::new(),
            selected: None,
            focused: false,
            current_path: current_path,
            filename: String::new(),
        };
        let path = popup.current_path.clone();
        popup.load_directories(path.as_str(), listing);
        popup.selected = Some(0);
        popup
    }

    fn load_directories(&mut self, path: &str, listing: Option<Vec<DirEntry>>)
        ensures
            rows_of_folder(final(self)@.items, path@, listing_view(listing), false),
            final(self)@.selected == (if final(self)@.items.len() > 0 { Some(0usize) } else { old(self)@.selected }),
            final(self)@.focused == old(self)@.focused,
            final(self)@.current_path == old(self)@.current_path,
            final(self)@.filename == old(self)@.filename,
    {
        let parent = path_parent(path);
        let ghost pv = option_view(parent);
        self.items = directory_items(path, parent, &listing, false);
        assert(folder_rows(path@, pv, listing_view(listing), false) == self@.items);
        if self.items.len() > 0 {
            self.selected = Some(0);
        }
    }

    /// Opens the folder `path`, given its listing; the selection moves to
    /// the first row where there is one.
    pub fn open_directory(&mut self, path: String, listing: Option<Vec<DirEntry>>)
        ensures
            rows_of_folder(final(self)@.items, path@, listing_view(listing), false),
            final(self)@.selected == (if final(self)@.items.len() > 0 { Some(0usize) } else { old(self)@.selected }),
            final(self)@.focused == old(self)@.focused,
            final(self)@.current_path == path@,
            final(self)@.filename == old(self)@.filename,
    {
        self.current_path = path;
        let p = self.current_path.clone();
        self.load_directories(p.as_str(), listing);
    }

    /// Sets the name to save under.
    pub fn set_filename(&mut self, filename: &str)
        ensures
            final(self)@ == (SaveModel { filename: filename@, ..old(self)@ }),
    {
        self.filename = string_from(filename);
    }

    /// The name to save under.
    pub fn filename(&self) -> (r: &String)
        ensures
            r@ == self@.filename,
    {
        &self.filename
    }

    /// The folder shown.
    pub fn current_path(&self) -> (r: &String)
        ensures
            r@ == self@.current_path,
    {
        &self.current_path
    }

    /// The rows shown.
    pub fn items(&self) -> (r: &Vec<DirectoryItem>)
        ensures
            r@.map_values(|i: DirectoryItem| i@) == self@.items,
    {
        &self.items
    }

    /// The selected row, if any.
    pub fn selected(&self) -> (r: Option<usize>)
        ensures
            r == self@.selected,
    {
        self.selected
    }

    /// Where the request is saved: the name joined onto the folder shown
    /// (by the platform's path rules), or nothing while there is no name.
    pub fn get_save_path(&self) -> (r: Option<String>)
        ensures
            r.is_some() == (self@.filename.len() > 0),
            r matches Some(p) ==> join_fact(self@.current_path, self@.filename, p@),
    {
        if self.filename.as_str().is_empty() {
            return None;
        }
        Some(path_join(self.current_path.as_str(), self.filename.as_str()))
    }

    /// Dialog keys: Esc closes; Enter closes and saves while there is a
    /// name; Up/`k` and Down/`j` move the selection; `h` asks to open the
    /// parent folder and `l` the selected one.
    pub fn handle_key(&mut self, key: &KeyPress) -> (r: SaveKey)
        ensures
            key.input.key == Key::Esc ==> !r.should_save && r.should_close && final(self)@ == old(self)@
                && r.open.is_none(),
            key.input.key == Key::Enter ==> r.should_save == (old(self)@.filename.len() > 0)
                && r.should_close == r.should_save && final(self)@ == old(self)@ && r.open.is_none(),
            key.input.key != Key::Esc && key.input.key != Key::Enter ==> !r.should_close && !r.should_save,
            (key.input.key == Key::Up || key.input.key == Key::Char('k')) ==> final(self)@ == (SaveModel {
                selected: row_above(old(self)@.selected),
                ..old(self)@
            }) && r.open.is_none(),
            (key.input.key == Key::Down || key.input.key == Key::Char('j')) ==> final(self)@ == (SaveModel {
                selected: row_below(old(self)@.selected, old(self)@.items.len()),
                ..old(self)@
            }) && r.open.is_none(),
            key.input.key == Key::Char('h') ==> final(self)@ == old(self)@ && parent_fact(old(self)@.current_path, option_view(r.open)),
            key.input.key == Key::Char('l') ==> final(self)@ == old(self)@ && option_view(r.open) == match selected_row(
                old(self)@.items,
                old(self)@.selected,
            ) {
                Some(row) => Some(row.path),
                None => None,
            },
            !(key.input.key == Key::Esc || key.input.key == Key::Enter || key.input.key == Key::Up
                || key.input.key == Key::Char('k') || key.input.key == Key::Down || key.input.key == Key::Char('j')
                || key.input.key == Key::Char('h') || key.input.key == Key::Char('l')) ==> final(self)@ == old(self)@
                && r.open.is_none(),
    {
        match key.input.key {
            Key::Esc => SaveKey { should_close: true, should_save: false, open: None },
            Key::Enter => {
                if !self.filename.as_str().is_empty() {
                    SaveKey { should_close: true, should_save: true, open: None }
                } else {
                    SaveKey { should_close: false, should_save: false, open: None }
                }
            },
            Key::Up | Key::Char('k') => {
                self.selected = above(self.selected);
                SaveKey { should_close: false, should_save: false, open: None }
            },
            Key::Down | Key::Char('j') => {
                self.selected = below(self.selected, self.items.len());
                SaveKey { should_close: false, should_save: false, open: None }
            },
            Key::Char('h') => {
                SaveKey { should_close: false, should_save: false, open: path_parent(self.current_path.as_str()) }
            },
            Key::Char('l') => {
                let open = match self.selected {
                    Some(s) => {
                        if s < self.items.len() {
                            assert(self@.items[s as int] == self.items@[s as int]@);
                            Some(self.items[s].path.clone())
                        } else {
                            None
                        }
                    },
                    None => None,
                };
                SaveKey { should_close: false, should_save: false, open }
            },
            _ => SaveKey { should_close: false, should_save: false, open: None },
        }
    }

    pub fn focus(&mut self)
        ensures
            final(self)@ == (SaveModel { focused: true, ..old(self)@ }),
    {
        self.focused = true;
    }

    pub fn unfocus(&mut self)
        ensures
            final(self)@ == (SaveModel { focused: false, ..old(self)@ }),
    {
        self.focused = false;
    }

    pub fn is_focused(&self) -> (r: bool)
        ensures
            r == self@.focused,
    {
        self.focused
    }

    /// Forgets the name.
    pub fn clear(&mut self)
        ensures
            final(self)@ == (SaveModel { filename: Seq::<char>::empty(), ..old(self)@ }),
    {
        self.filename = String::new();
    }
}

} // verus!
