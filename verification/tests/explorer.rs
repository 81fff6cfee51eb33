use http_tui::components::collections::{Collections, Guide, Icon};
use http_tui::keys::{Input, Key, KeyCode, KeyPress, Modifiers};
use http_tui::listing::DirEntry;
use ratatui::crossterm::event::{KeyCode as RawCode, KeyEvent, KeyModifiers};

fn entry(name: &str, path: &str, is_dir: bool) -> DirEntry {
    DirEntry { name: name.to_string(), path: path.to_string(), is_dir }
}

fn root_listing() -> Vec<DirEntry> {
    vec![
        entry("b.curl", "./b.curl", false),
        entry(".git", "./.git", true),
        entry("src", "./src", true),
        entry("a.txt", "./a.txt", false),
        entry("docs", "./docs", true),
        entry(".env", "./.env", false),
    ]
}

fn char_press(c: char) -> KeyPress {
    KeyPress {
        code: KeyCode::Char(c),
        modifiers: Modifiers { shift: false, control: false, alt: false, super_key: false, hyper: false, meta: false },
        input: Input { key: Key::Char(c), ctrl: false, alt: false, shift: false },
        raw: KeyEvent::new(RawCode::Char(c), KeyModifiers::NONE),
    }
}

fn names(c: &Collections) -> Vec<String> {
    c.items().iter().map(|i| i.name.clone()).collect()
}

#[test]
fn listing_shows_folders_then_files_sorted_without_hidden() {
    let c = Collections::new(Some(root_listing()));
    assert_eq!(names(&c), vec!["docs", "src", "a.txt", "b.curl"]);
    assert_eq!(c.selected(), Some(0));
    assert!(c.is_focused());
    assert!(c.items().iter().all(|i| i.depth == 0 && !i.expanded));
}

#[test]
fn unreadable_directory_gives_an_empty_explorer() {
    let c = Collections::new(None);
    assert!(c.items().is_empty());
    assert_eq!(c.get_selected_file().map(|f| f.name), None);
}

#[test]
fn selection_wraps_both_ways() {
    let mut c = Collections::new(Some(root_listing()));
    c.previous();
    assert_eq!(c.selected(), Some(3));
    c.next();
    assert_eq!(c.selected(), Some(0));
    c.next();
    assert_eq!(c.selected(), Some(1));
}

#[test]
fn expanding_and_collapsing_a_folder() {
    let mut c = Collections::new(Some(root_listing()));
    c.next();
    assert_eq!(c.folder_to_expand(), Some("./src".to_string()));
    c.expand_folder(Some(vec![entry("main.rs", "./src/main.rs", false), entry("lib", "./src/lib", true)]));
    assert_eq!(names(&c), vec!["docs", "src", "lib", "main.rs", "a.txt", "b.curl"]);
    assert!(c.items()[1].expanded);
    assert_eq!(c.items()[2].depth, 1);
    assert_eq!(c.folder_to_expand(), None);
    c.next();
    c.next();
    assert_eq!(c.get_selected_file().unwrap().name, "main.rs");
    c.collapse_folder();
    assert_eq!(c.selected(), Some(1));
    assert_eq!(names(&c), vec!["docs", "src", "a.txt", "b.curl"]);
    assert!(!c.items()[1].expanded);
}

#[test]
fn expanding_a_folder_that_cannot_be_read_only_marks_it_open() {
    let mut c = Collections::new(Some(root_listing()));
    c.expand_folder(None);
    assert_eq!(names(&c), vec!["docs", "src", "a.txt", "b.curl"]);
    assert!(c.items()[0].expanded);
}

#[test]
fn a_file_cannot_be_expanded() {
    let mut c = Collections::new(Some(root_listing()));
    c.previous();
    assert_eq!(c.folder_to_expand(), None);
    c.expand_folder(Some(vec![entry("x", "./x", false)]));
    assert_eq!(names(&c), vec!["docs", "src", "a.txt", "b.curl"]);
}

#[test]
fn tree_rows_draw_guides_and_icons() {
    let mut c = Collections::new(Some(root_listing()));
    c.next();
    c.expand_folder(Some(vec![entry("main.rs", "./src/main.rs", false), entry("lib", "./src/lib", true)]));
    let rows = c.display_rows();
    assert_eq!(rows.len(), 6);
    assert_eq!(rows[0].icon, Icon::Folder);
    assert!(rows[0].guides.is_empty());
    assert_eq!(rows[1].icon, Icon::OpenFolder);
    assert_eq!(rows[2].name, "lib");
    assert_eq!(rows[2].guides, vec![Guide::Pipe]);
    assert_eq!(rows[3].icon, Icon::File);
    assert_eq!(rows[3].guides, vec![Guide::Last]);
}

#[test]
fn explorer_keys_move_open_and_close() {
    let mut c = Collections::new(Some(root_listing()));
    assert!(c.handle_keys(&char_press('j'), None));
    assert_eq!(c.selected(), Some(1));
    assert!(c.handle_keys(&char_press('l'), Some(vec![entry("x.rs", "./src/x.rs", false)])));
    assert_eq!(names(&c), vec!["docs", "src", "x.rs", "a.txt", "b.curl"]);
    assert!(c.handle_keys(&char_press('h'), None));
    assert_eq!(names(&c), vec!["docs", "src", "a.txt", "b.curl"]);
    assert!(c.handle_keys(&char_press('k'), None));
    assert_eq!(c.selected(), Some(0));
    assert!(!c.handle_keys(&char_press('x'), None));
    assert_eq!(c.selected(), Some(0));
}

#[test]
fn refresh_replaces_the_rows() {
    let mut c = Collections::new(Some(root_listing()));
    c.refresh(Some(vec![entry("new.curl", "./new.curl", false)]));
    assert_eq!(names(&c), vec!["new.curl"]);
    c.refresh(None);
    assert_eq!(names(&c), vec!["new.curl"]);
}

#[test]
fn focus_flags() {
    let mut c = Collections::new(None);
    c.unfocus();
    assert!(!c.is_focused());
    c.focus();
    assert!(c.is_focused());
}

#[test]
fn opening_then_closing_a_folder_restores_the_rows() {
    let mut c = Collections::new(Some(root_listing()));
    let before = names(&c);
    c.next();
    c.expand_folder(Some(vec![entry("x.rs", "./src/x.rs", false)]));
    c.collapse_folder();
    assert_eq!(names(&c), before);
    assert!(c.items().iter().all(|i| !i.expanded));
    assert_eq!(c.selected(), Some(1));
}
