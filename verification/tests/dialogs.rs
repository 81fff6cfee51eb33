use http_tui::components::directory_picker::DirectoryPicker;
use http_tui::components::editor::Editor;
use http_tui::components::url_input::UrlInput;
use http_tui::components::request_input::{Mode, Vim};
use http_tui::textarea::TextBox;
use tui_textarea::TextArea;
use http_tui::components::save_popup::SavePopup;
use http_tui::components::search_popup::{parse_usize, search_commands, search_results, MatchType, SearchPopup};
use http_tui::keys::{Input, Key, KeyCode, KeyPress, Modifiers};
use http_tui::listing::DirEntry;
use ratatui::crossterm::event::{KeyCode as RawCode, KeyEvent, KeyModifiers};

fn entry(name: &str, path: &str, is_dir: bool) -> DirEntry {
    DirEntry { name: name.to_string(), path: path.to_string(), is_dir }
}

fn no_mods() -> Modifiers {
    Modifiers { shift: false, control: false, alt: false, super_key: false, hyper: false, meta: false }
}

fn press(code: KeyCode, key: Key, raw: RawCode, ctrl: bool) -> KeyPress {
    let mut modifiers = no_mods();
    modifiers.control = ctrl;
    KeyPress {
        code,
        modifiers,
        input: Input { key, ctrl, alt: false, shift: false },
        raw: KeyEvent::new(raw, if ctrl { KeyModifiers::CONTROL } else { KeyModifiers::NONE }),
    }
}

fn ch(c: char) -> KeyPress {
    press(KeyCode::Char(c), Key::Char(c), RawCode::Char(c), false)
}

fn enter() -> KeyPress {
    press(KeyCode::Enter, Key::Enter, RawCode::Enter, false)
}

fn esc() -> KeyPress {
    press(KeyCode::Esc, Key::Esc, RawCode::Esc, false)
}

fn listing() -> Vec<DirEntry> {
    vec![
        entry("zeta", "/w/zeta", true),
        entry("alpha", "/w/alpha", true),
        entry(".hidden", "/w/.hidden", true),
        entry("notes.txt", "/w/notes.txt", false),
    ]
}

fn item_names(p: &DirectoryPicker) -> Vec<String> {
    p.items().iter().map(|i| i.name.clone()).collect()
}

#[test]
fn picker_lists_parent_current_and_folders() {
    let p = DirectoryPicker::new("/w".to_string(), Some(listing()));
    assert_eq!(item_names(&p), vec!["..", ".", "alpha", "zeta"]);
    assert!(p.items()[0].is_parent);
    assert_eq!(p.items()[0].path, "/");
    assert_eq!(p.items()[1].path, "/w");
    assert_eq!(p.selected(), Some(0));
    assert!(!p.is_focused());
}

#[test]
fn picker_at_root_has_no_parent_row() {
    let p = DirectoryPicker::new("/".to_string(), None);
    assert_eq!(item_names(&p), vec!["."]);
}

#[test]
fn picker_moves_and_picks_the_current_folder() {
    let mut p = DirectoryPicker::new("/w".to_string(), Some(listing()));
    let k = p.handle_key(&ch('j'));
    assert!(k.handled && k.open.is_none());
    assert_eq!(p.selected(), Some(1));
    let k = p.handle_key(&enter());
    assert!(k.handled && k.open.is_none());
    assert_eq!(p.get_selected_path(), Some("/w".to_string()));
    assert_eq!(p.get_selected_path(), None);
}

#[test]
fn picker_asks_to_open_folders() {
    let mut p = DirectoryPicker::new("/w".to_string(), Some(listing()));
    p.handle_key(&ch('j'));
    p.handle_key(&ch('j'));
    let k = p.handle_key(&ch('l'));
    assert_eq!(k.open, Some("/w/alpha".to_string()));
    p.open_directory("/w/alpha".to_string(), Some(vec![]));
    assert_eq!(item_names(&p), vec!["..", "."]);
    assert_eq!(p.current_path(), "/w/alpha");
    let k = p.handle_key(&ch('h'));
    assert_eq!(k.open, Some("/w".to_string()));
    let k = p.handle_key(&ch('s'));
    assert!(k.handled);
    assert_eq!(p.get_selected_path(), Some("/w/alpha".to_string()));
    assert!(!p.handle_key(&ch('x')).handled);
}

#[test]
fn picker_selection_stays_in_range() {
    let mut p = DirectoryPicker::new("/".to_string(), None);
    p.handle_key(&ch('k'));
    assert_eq!(p.selected(), Some(0));
    p.handle_key(&ch('j'));
    assert_eq!(p.selected(), Some(0));
    p.clear();
    assert_eq!(p.get_selected_path(), None);
}

#[test]
fn save_dialog_lists_parent_and_folders_only() {
    let s = SavePopup::new("/w".to_string(), Some(listing()));
    let names: Vec<String> = s.items().iter().map(|i| i.name.clone()).collect();
    assert_eq!(names, vec!["..", "alpha", "zeta"]);
    assert_eq!(s.filename(), "");
}

#[test]
fn save_dialog_saves_only_with_a_name() {
    let mut s = SavePopup::new("/w".to_string(), Some(listing()));
    let k = s.handle_key(&enter());
    assert!(!k.should_close && !k.should_save);
    assert_eq!(s.get_save_path(), None);
    s.set_filename("req.curl");
    assert_eq!(s.get_save_path(), Some("/w/req.curl".to_string()));
    let k = s.handle_key(&enter());
    assert!(k.should_close && k.should_save);
    let k = s.handle_key(&esc());
    assert!(k.should_close && !k.should_save);
    s.clear();
    assert_eq!(s.filename(), "");
}

#[test]
fn save_dialog_walks_folders() {
    let mut s = SavePopup::new("/w".to_string(), Some(listing()));
    s.handle_key(&ch('j'));
    assert_eq!(s.selected(), Some(1));
    let k = s.handle_key(&ch('l'));
    assert_eq!(k.open, Some("/w/alpha".to_string()));
    assert!(!k.should_close);
    s.open_directory("/w/alpha".to_string(), None);
    assert_eq!(s.current_path(), "/w/alpha");
    assert_eq!(s.selected(), Some(0));
    let k = s.handle_key(&ch('h'));
    assert_eq!(k.open, Some("/w".to_string()));
}

#[test]
fn save_dialog_keeps_selection_when_a_folder_has_no_rows() {
    let mut s = SavePopup::new("/w".to_string(), Some(listing()));
    s.handle_key(&ch('j'));
    s.handle_key(&ch('j'));
    s.open_directory("/".to_string(), None);
    assert_eq!(s.items().len(), 0);
    assert_eq!(s.selected(), Some(2));
}

#[test]
fn usize_parsing_follows_std() {
    let p = |s: &str| parse_usize(&s.chars().collect());
    assert_eq!(p("42"), Some(42));
    assert_eq!(p("+7"), Some(7));
    assert_eq!(p("007"), Some(7));
    assert_eq!(p(""), None);
    assert_eq!(p("+"), None);
    assert_eq!(p("-1"), None);
    assert_eq!(p("1a"), None);
    assert_eq!(p("99999999999999999999999999"), None);
    assert_eq!(p(&usize::MAX.to_string()), Some(usize::MAX));
}

#[test]
fn search_commands_for_a_blank_query_list_every_file() {
    let c = search_commands("  ");
    assert_eq!(c.files, vec!["--files"]);
    assert!(c.contents.is_none());
}

#[test]
fn search_commands_for_a_query() {
    let c = search_commands("api");
    assert_eq!(c.files, vec!["--files", "--glob", "*api*"]);
    assert_eq!(
        c.contents,
        Some(vec![
            "--line-number".to_string(),
            "--no-heading".to_string(),
            "--max-count".to_string(),
            "1".to_string(),
            "--context".to_string(),
            "0".to_string(),
            "api".to_string()
        ])
    );
}

#[test]
fn blank_query_keeps_listing_order() {
    let names = Some("b.txt\n\na.txt\n".to_string());
    let r = search_results("", &names, &None);
    let paths: Vec<String> = r.iter().map(|x| x.file_path.clone()).collect();
    assert_eq!(paths, vec!["b.txt", "a.txt"]);
    assert!(r.iter().all(|x| x.match_type == MatchType::FileName && x.preview.is_none()));
}

#[test]
fn query_results_put_names_first_and_skip_repeats() {
    let names = Some("z/api.rs\na/api.curl\n".to_string());
    let contents = Some(
        "m.rs:12:  let api = 1;  \nz/api.rs:3:fn api()\nbad line\nx.rs:notnum:y\nc.rs:+4:a:b\n".to_string(),
    );
    let r = search_results("api", &names, &contents);
    let paths: Vec<String> = r.iter().map(|x| x.file_path.clone()).collect();
    assert_eq!(paths, vec!["a/api.curl", "z/api.rs", "c.rs", "m.rs"]);
    assert_eq!(r[2].match_type, MatchType::Content { line_number: 4 });
    assert_eq!(r[2].preview, Some("a:b".to_string()));
    assert_eq!(r[3].match_type, MatchType::Content { line_number: 12 });
    assert_eq!(r[3].preview, Some("let api = 1;".to_string()));
}

#[test]
fn results_stop_at_fifty() {
    let many: String = (0..80).map(|i| format!("f{:03}.txt\n", i)).collect();
    let r = search_results("", &Some(many), &None);
    assert_eq!(r.len(), 50);
    assert_eq!(r[49].file_path, "f049.txt");
}

#[test]
fn failed_searches_give_no_results() {
    assert!(search_results("q", &None, &None).is_empty());
}

#[test]
fn search_dialog_types_moves_and_opens() {
    let mut s = SearchPopup::new();
    s.focus();
    let k = s.handle_key(&ch('a'));
    assert_eq!(k.search, Some("a".to_string()));
    assert!(!k.should_close);
    s.search_files("a", &Some("one.curl\ntwo.curl\n".to_string()), &None);
    assert_eq!(s.list_selected(), Some(0));
    let down = press(KeyCode::Down, Key::Down, RawCode::Down, false);
    let k = s.handle_key(&down);
    assert!(k.search.is_none());
    assert_eq!(s.selected_index(), 1);
    s.handle_key(&down);
    assert_eq!(s.selected_index(), 1);
    let ctrl_k = press(KeyCode::Char('k'), Key::Char('k'), RawCode::Char('k'), true);
    s.handle_key(&ctrl_k);
    assert_eq!(s.selected_index(), 0);
    assert_eq!(s.get_selected_file(), Some("one.curl".to_string()));
    let k = s.handle_key(&enter());
    assert!(k.should_close && k.should_open);
    s.clear();
    assert!(s.results().is_empty());
    assert_eq!(s.get_input(), "");
}

#[test]
fn search_dialog_enter_without_results_searches_again() {
    let mut s = SearchPopup::new();
    let k = s.handle_key(&enter());
    assert!(!k.should_close);
    assert_eq!(k.search, Some(String::new()));
    let k = s.handle_key(&esc());
    assert!(k.should_close && !k.should_open);
}

#[test]
fn vim_edits_reach_the_text_area() {
    let mut vim = Vim::new(Mode::Normal);
    vim.textarea = TextBox { area: TextArea::new(vec!["abc".to_string(), "de".to_string()]) };
    vim.transition(&ch('x'));
    assert_eq!(vim.textarea.area.lines(), ["bc", "de"]);
    vim.transition(&ch('D'));
    assert_eq!(vim.textarea.area.lines(), ["", "de"]);
    vim.transition(&ch('o'));
    assert_eq!(vim.textarea.area.lines(), ["", "", "de"]);
    assert_eq!(vim.textarea.area.cursor(), (1, 0));
}

#[test]
fn vim_dd_deletes_the_line_and_gg_goes_to_the_top() {
    let mut vim = Vim::new(Mode::Operator('d'));
    vim.textarea = TextBox { area: TextArea::new(vec!["a".to_string(), "b".to_string()]) };
    vim.transition(&ch('d'));
    assert_eq!(vim.textarea.area.lines(), ["b"]);
    assert_eq!(vim.textarea.area.selection_range(), None);
    let mut vim = Vim::new(Mode::Normal).with_pending(Input { key: Key::Char('g'), ctrl: false, alt: false, shift: false });
    vim.textarea = TextBox { area: TextArea::new(vec!["ab".to_string(), "cd".to_string()]) };
    vim.textarea.area.move_cursor(tui_textarea::CursorMove::Jump(1, 1));
    vim.transition(&ch('g'));
    assert_eq!(vim.textarea.area.cursor().0, 0);
    assert_eq!(vim.textarea.area.lines(), ["ab", "cd"]);
}

#[test]
fn typed_keys_reach_the_fields_and_the_editor() {
    let mut url = UrlInput::new();
    assert!(url.handle_key(&ch('a')));
    assert!(url.handle_key(&ch('b')));
    assert_eq!(url.get_text(), "ab");
    let back = press(KeyCode::Backspace, Key::Backspace, RawCode::Backspace, false);
    assert!(url.handle_key(&back));
    assert_eq!(url.get_text(), "a");
    let mut e = Editor::default();
    e.handle_key(&ch('i'));
    e.handle_key(&ch('x'));
    e.handle_key(&ch('y'));
    assert_eq!(e.get_text(), "xy");
}
