use http_tui::app::{App, AppAction, AppEvent};
use http_tui::http::{response_from_reply, Method};
use http_tui::keys::{Input, Key, KeyCode, KeyPress, Modifiers};
use http_tui::listing::DirEntry;
use ratatui::crossterm::event::{KeyCode as RawCode, KeyEvent, KeyModifiers};

fn code_of(c: RawCode) -> KeyCode {
    match c {
        RawCode::Char(ch) => KeyCode::Char(ch),
        RawCode::Enter => KeyCode::Enter,
        RawCode::Esc => KeyCode::Esc,
        RawCode::Backspace => KeyCode::Backspace,
        RawCode::Tab => KeyCode::Tab,
        RawCode::Left => KeyCode::Left,
        RawCode::Right => KeyCode::Right,
        RawCode::Up => KeyCode::Up,
        RawCode::Down => KeyCode::Down,
        _ => KeyCode::Other,
    }
}

fn key_of(k: tui_textarea::Key) -> Key {
    match k {
        tui_textarea::Key::Char(c) => Key::Char(c),
        tui_textarea::Key::Enter => Key::Enter,
        tui_textarea::Key::Esc => Key::Esc,
        tui_textarea::Key::Backspace => Key::Backspace,
        tui_textarea::Key::Tab => Key::Tab,
        tui_textarea::Key::Left => Key::Left,
        tui_textarea::Key::Right => Key::Right,
        tui_textarea::Key::Up => Key::Up,
        tui_textarea::Key::Down => Key::Down,
        _ => Key::Null,
    }
}

fn key(code: RawCode, mods: KeyModifiers) -> KeyPress {
    let raw = KeyEvent::new(code, mods);
    let ti = tui_textarea::Input::from(raw);
    KeyPress {
        code: code_of(code),
        modifiers: Modifiers {
            shift: mods.contains(KeyModifiers::SHIFT),
            control: mods.contains(KeyModifiers::CONTROL),
            alt: mods.contains(KeyModifiers::ALT),
            super_key: mods.contains(KeyModifiers::SUPER),
            hyper: mods.contains(KeyModifiers::HYPER),
            meta: mods.contains(KeyModifiers::META),
        },
        input: Input { key: key_of(ti.key), ctrl: ti.ctrl, alt: ti.alt, shift: ti.shift },
        raw,
    }
}

fn ctrl(c: char) -> KeyPress {
    key(RawCode::Char(c), KeyModifiers::CONTROL)
}

fn alt(c: char) -> KeyPress {
    key(RawCode::Char(c), KeyModifiers::ALT)
}

fn plain(code: RawCode) -> KeyPress {
    key(code, KeyModifiers::NONE)
}

fn type_text(app: &mut App, text: &str) {
    for c in text.chars() {
        let a = app.handle_key_events(&plain(RawCode::Char(c)));
        assert!(matches!(a, AppAction::Nothing | AppAction::Search(_)));
    }
}

fn entry(name: &str, path: &str, is_dir: bool) -> DirEntry {
    DirEntry { name: name.to_string(), path: path.to_string(), is_dir }
}

fn new_app() -> App {
    App::new(
        "/work".to_string(),
        Some(vec![entry("saved.curl", "/work/saved.curl", false), entry("notes.txt", "/work/notes.txt", false)]),
    )
}

fn focused_count(app: &App) -> usize {
    let mut n = 0;
    n += app.method_input.is_focused() as usize;
    n += app.url_input.is_focused() as usize;
    n += app.editors.iter().filter(|e| e.is_focused()).count();
    n += app.response.is_focused() as usize;
    n += app.response_headers.is_focused() as usize;
    n += app.response_cookies.is_focused() as usize;
    n += app.collections.is_focused() as usize;
    n += app.curl_popup.is_focused() as usize;
    n += app.search_popup.is_focused() as usize;
    n += app.save_popup.is_focused() as usize;
    n
}

#[test]
fn the_app_starts_in_the_explorer() {
    let app = new_app();
    assert!(app.running);
    assert!(app.collections.is_focused());
    assert_eq!(focused_count(&app), 1);
    assert_eq!(app.method_input.get_text(), "GET");
    assert_eq!(app.url_input.get_text(), "");
    assert_eq!(app.request_name, "Untitled-Request");
    assert_eq!(app.editors.len(), 5);
}

#[test]
fn quit_and_counter_keys_become_events() {
    let mut app = new_app();
    assert!(matches!(app.handle_key_events(&ctrl('c')), AppAction::Send(AppEvent::Quit)));
    assert!(matches!(app.handle_key_events(&plain(RawCode::Right)), AppAction::Send(AppEvent::Increment)));
    assert!(matches!(app.handle_key_events(&plain(RawCode::Left)), AppAction::Send(AppEvent::Decrement)));
    app.handle_app_event(AppEvent::Decrement);
    assert_eq!(app.counter, 0);
    app.handle_app_event(AppEvent::Increment);
    assert_eq!(app.counter, 1);
    app.counter = 255;
    app.handle_app_event(AppEvent::Increment);
    assert_eq!(app.counter, 255);
    app.handle_app_event(AppEvent::Quit);
    assert!(!app.running);
}

#[test]
fn a_curl_command_fills_the_request() {
    let mut app = new_app();
    app.handle_key_events(&ctrl('o'));
    assert!(app.show_curl_popup && app.curl_popup.is_focused());
    type_text(&mut app, "curl -X PUT http://a.io/x -H 'K: v' -d 'b'");
    assert_eq!(app.curl_popup.get_input(), "curl -X PUT http://a.io/x -H 'K: v' -d 'b'");
    app.handle_key_events(&key(RawCode::Enter, KeyModifiers::ALT));
    assert!(!app.show_curl_popup);
    assert_eq!(app.url_input.get_text(), "http://a.io/x");
    assert_eq!(app.method_input.get_text(), "PUT");
    assert_eq!(app.editors[1].get_text(), "K: v\nContent-Type: application/x-www-form-urlencoded");
    assert_eq!(app.editors[2].get_text(), "b");
    assert!(app.url_input.is_focused());
    assert_eq!(focused_count(&app), 1);
    assert_eq!(app.curl_popup.get_input(), "");
}

#[test]
fn a_command_that_is_not_curl_shows_an_error() {
    let mut app = new_app();
    app.parse_curl_command("wget http://a.io");
    assert_eq!(app.save_error, None);
    app.parse_curl_command("");
    assert_eq!(app.url_input.get_text(), "");
    let mut app = new_app();
    app.handle_key_events(&ctrl('o'));
    app.handle_key_events(&plain(RawCode::Esc));
    assert!(!app.show_curl_popup);
    assert_eq!(focused_count(&app), 0);
}

#[test]
fn sending_without_a_url_reports_it() {
    let mut app = new_app();
    let a = app.handle_key_events(&alt('t'));
    assert!(matches!(a, AppAction::Nothing));
    assert!(app.show_response);
    assert!(!app.is_loading);
    assert_eq!(app.response_status, Some("Error".to_string()));
    assert_eq!(app.response.get_text(), "Error: URL is required");
}

#[test]
fn sending_a_request_and_showing_the_reply() {
    let mut app = new_app();
    app.parse_curl_command("curl -X POST http://a.io -d 'hello'");
    let plan = match app.handle_key_events(&alt('t')) {
        AppAction::SendRequest(p) => p,
        _ => panic!("no request was sent"),
    };
    assert_eq!(plan.method, Method::Post);
    assert_eq!(plan.url, "http://a.io");
    assert_eq!(plan.body, Some("hello".to_string()));
    assert!(app.is_loading);
    for _ in 0..3 {
        app.tick();
    }
    assert_eq!(app.spinner_state, 1);
    assert_eq!(app.spinner_counter, 0);
    let reply = response_from_reply(201, 9, &vec![("a".to_string(), Some("b".to_string()))], Ok("done".to_string()));
    app.handle_app_event(AppEvent::HttpResponse(reply));
    assert!(!app.is_loading);
    assert_eq!(app.response_status, Some("201".to_string()));
    assert_eq!(app.response_time, Some(9));
    assert_eq!(app.response.get_text(), "done");
    assert_eq!(app.response_headers.get_text(), "a: b\n");
    assert!(app.response.is_focused());
    assert_eq!(focused_count(&app), 1);
}

#[test]
fn tab_cycles_the_request_editors_and_fields() {
    let mut app = new_app();
    app.handle_key_events(&ctrl('u'));
    assert!(app.url_input.is_focused());
    app.handle_key_events(&plain(RawCode::Tab));
    assert!(app.method_input.is_focused());
    app.handle_key_events(&ctrl('j'));
    assert!(app.editors[0].is_focused());
    for expected in [1usize, 2, 0] {
        app.handle_key_events(&plain(RawCode::Tab));
        assert_eq!(app.current_focus, expected);
        assert!(app.editors[expected].is_focused());
        assert_eq!(focused_count(&app), 1);
    }
    app.handle_key_events(&ctrl('k'));
    assert!(app.url_input.is_focused());
    app.handle_key_events(&ctrl('b'));
    assert_eq!(app.current_focus, 2);
    assert!(app.editors[2].is_focused());
}

#[test]
fn reply_tabs_cycle() {
    let mut app = new_app();
    app.handle_key_events(&ctrl('r'));
    assert!(app.show_response && app.response.is_focused());
    app.handle_key_events(&plain(RawCode::Tab));
    assert_eq!(app.current_response_focus, 1);
    assert!(app.response_headers.is_focused());
    app.handle_key_events(&ctrl('h'));
    assert!(app.url_input.is_focused());
    app.handle_key_events(&ctrl('l'));
    assert!(app.response.is_focused());
    assert_eq!(app.current_response_focus, 0);
}

#[test]
fn explorer_toggle_and_focus_moves() {
    let mut app = new_app();
    app.handle_key_events(&ctrl('u'));
    app.handle_key_events(&ctrl('e'));
    assert!(app.show_explorer && app.collections.is_focused());
    app.handle_key_events(&ctrl('l'));
    assert!(app.url_input.is_focused());
    app.handle_key_events(&ctrl('h'));
    assert!(app.collections.is_focused());
}

#[test]
fn enter_on_a_saved_request_in_the_explorer_loads_it() {
    let mut app = new_app();
    assert!(matches!(app.handle_key_events(&plain(RawCode::Enter)), AppAction::Nothing));
    app.handle_key_events(&plain(RawCode::Char('j')));
    match app.handle_key_events(&plain(RawCode::Enter)) {
        AppAction::LoadFile(p) => assert_eq!(p, "/work/saved.curl"),
        _ => panic!("the saved request was not loaded"),
    }
}

#[test]
fn loading_a_file_names_the_request() {
    let mut app = new_app();
    app.finish_load("/work/saved.curl", Ok("curl -X DELETE 'http://d.io'".to_string()));
    assert_eq!(app.request_name, "saved");
    assert_eq!(app.method_input.get_text(), "DELETE");
    assert_eq!(app.url_input.get_text(), "http://d.io");
    let mut app = new_app();
    app.finish_load("/work/gone.curl", Err("not found".to_string()));
    assert_eq!(app.request_name, "gone");
    assert_eq!(app.save_error, Some("Failed to load file: not found".to_string()));
    app.handle_key_events(&plain(RawCode::Esc));
    assert_eq!(app.save_error, None);
}

#[test]
fn the_saved_command_quotes_url_headers_and_body() {
    let mut app = new_app();
    app.url_input.set_text("http://a.io".to_string());
    app.method_input.set_text("POST".to_string());
    app.editors[1].set_text("A: 1\n   \n B: 2 ".to_string());
    app.editors[2].set_text("it's".to_string());
    assert_eq!(
        app.request_file_contents(),
        "curl -X POST 'http://a.io' \\\n  -H 'A: 1' \\\n  -H 'B: 2' \\\n  -d 'it'\\''s'"
    );
}

#[test]
fn saving_offers_a_name_and_writes_the_command() {
    let mut app = new_app();
    app.request_name = "mine".to_string();
    app.handle_key_events(&ctrl('s'));
    assert!(app.show_save_popup && app.save_popup.is_focused());
    assert_eq!(app.save_popup.filename(), "mine.curl");
    match app.handle_key_events(&plain(RawCode::Enter)) {
        AppAction::SaveFile { path, contents } => {
            assert_eq!(path, "/work/mine.curl");
            assert_eq!(contents, "curl -X GET ''");
        },
        _ => panic!("nothing was saved"),
    }
    assert!(!app.show_save_popup);
    assert_eq!(focused_count(&app), 0);
    assert!(matches!(app.finish_save("/work/other.curl", Ok(())), AppAction::RefreshCollections));
    assert_eq!(app.request_name, "other");
    assert!(matches!(app.finish_save("/work/x.curl", Err("denied".to_string())), AppAction::Nothing));
    assert_eq!(app.save_error, Some("Failed to save file: denied".to_string()));
}

#[test]
fn an_untitled_request_gets_a_random_file_name() {
    let mut app = new_app();
    app.handle_key_events(&ctrl('s'));
    let name = app.save_popup.filename().clone();
    assert_eq!(name.len(), 41);
    assert!(name.ends_with(".curl"));
    app.handle_key_events(&ctrl('s'));
    assert!(!app.show_save_popup);
}

#[test]
fn renaming_a_named_request_renames_its_file() {
    let mut app = new_app();
    app.request_name = "old".to_string();
    app.handle_key_events(&alt('r'));
    assert!(app.is_renaming);
    assert_eq!(app.rename_input, "old");
    for _ in 0..3 {
        app.handle_key_events(&plain(RawCode::Backspace));
    }
    type_text(&mut app, " new ");
    match app.handle_key_events(&plain(RawCode::Enter)) {
        AppAction::RenameFile { from, to } => {
            assert_eq!(from, "old.curl");
            assert_eq!(to, "new.curl");
        },
        _ => panic!("no rename was asked for"),
    }
    assert!(matches!(app.finish_rename(Ok(())), AppAction::RefreshCollections));
    assert_eq!(app.request_name, "new");
    assert!(!app.is_renaming);
    assert_eq!(app.rename_input, "");
}

#[test]
fn renaming_an_untitled_request_needs_no_file() {
    let mut app = new_app();
    app.handle_key_events(&alt('r'));
    app.rename_input = "fresh".to_string();
    assert!(matches!(app.handle_key_events(&plain(RawCode::Enter)), AppAction::RefreshCollections));
    assert_eq!(app.request_name, "fresh");
}

#[test]
fn a_failed_rename_keeps_the_name() {
    let mut app = new_app();
    app.request_name = "a".to_string();
    app.is_renaming = true;
    app.rename_input = "b".to_string();
    assert!(matches!(app.finish_rename(Err("busy".to_string())), AppAction::Nothing));
    assert_eq!(app.request_name, "a");
    assert_eq!(app.save_error, Some("Failed to rename file: busy".to_string()));
    assert!(!app.is_renaming);
}

#[test]
fn blank_rename_and_cancel_close_the_prompt() {
    let mut app = new_app();
    app.handle_key_events(&alt('r'));
    app.rename_input = "   ".to_string();
    assert!(matches!(app.handle_key_events(&plain(RawCode::Enter)), AppAction::Nothing));
    assert!(!app.is_renaming);
    assert_eq!(app.request_name, "Untitled-Request");
    app.handle_key_events(&alt('r'));
    app.handle_key_events(&plain(RawCode::Esc));
    assert!(!app.is_renaming);
    assert_eq!(app.rename_input, "");
}

#[test]
fn search_opens_with_a_listing_and_loads_a_result() {
    let mut app = new_app();
    match app.handle_key_events(&ctrl('f')) {
        AppAction::Search(q) => assert_eq!(q, ""),
        _ => panic!("no search was asked for"),
    }
    app.finish_search("", &Some("a.curl\n".to_string()), &None);
    match app.handle_key_events(&plain(RawCode::Enter)) {
        AppAction::LoadFile(p) => assert_eq!(p, "a.curl"),
        _ => panic!("the result was not opened"),
    }
    assert!(!app.show_search_popup);
    assert!(app.search_popup.results().is_empty());
}

#[test]
fn new_request_clears_everything() {
    let mut app = new_app();
    app.parse_curl_command("curl -X PUT http://a.io -d x");
    app.request_name = "kept".to_string();
    app.handle_key_events(&ctrl('n'));
    assert_eq!(app.method_input.get_text(), "GET");
    assert_eq!(app.url_input.get_text(), "");
    assert_eq!(app.editors[2].get_text(), "");
    assert_eq!(app.request_name, "Untitled-Request");
    assert!(app.url_input.is_focused());
}

#[test]
fn keys_go_to_the_selected_editor_when_nothing_else_has_focus() {
    let mut app = new_app();
    app.unfocus();
    app.handle_key_events(&plain(RawCode::Char('i')));
    type_text(&mut app, "hi");
    assert_eq!(focused_count(&app), 0);
    assert_eq!(app.current_focus, 0);
}

#[test]
fn a_saved_request_reads_back() {
    let mut app = new_app();
    app.url_input.set_text("https://api.example.com/items".to_string());
    app.method_input.set_text("PUT".to_string());
    app.editors[1].set_text("Accept: application/json\n\nX-Trace:  abc ".to_string());
    app.editors[2].set_text("{\"n\": 1}\nsecond line".to_string());
    let saved = app.request_file_contents();
    let mut other = new_app();
    other.finish_load("/work/items.curl", Ok(saved));
    assert_eq!(other.request_name, "items");
    assert_eq!(other.url_input.get_text(), "https://api.example.com/items");
    assert_eq!(other.method_input.get_text(), "PUT");
    assert_eq!(other.editors[2].get_text(), "{\"n\": 1}\nsecond line");
    assert_eq!(
        other.editors[1].get_text(),
        "Accept: application/json\nX-Trace: abc\nContent-Type: application/x-www-form-urlencoded"
    );
    assert!(other.url_input.is_focused());
}

#[test]
fn a_saved_get_with_a_body_reads_back_as_post() {
    let mut app = new_app();
    app.url_input.set_text("http://h.io".to_string());
    app.editors[2].set_text("x=1".to_string());
    let req = http_tui::curl::parse_curl_to_request(&app.request_file_contents()).unwrap();
    assert_eq!(req.method, "POST");
    assert_eq!(req.url, "http://h.io");
    assert_eq!(req.body, "x=1");
}

#[test]
fn a_single_quote_in_the_body_does_not_read_back() {
    let mut app = new_app();
    app.url_input.set_text("http://h.io".to_string());
    app.method_input.set_text("POST".to_string());
    app.editors[2].set_text("it's".to_string());
    let req = http_tui::curl::parse_curl_to_request(&app.request_file_contents()).unwrap();
    assert_eq!(req.body, "it'''s");
}

#[test]
fn a_loaded_request_is_named_by_the_stem_of_its_file() {
    let mut app = new_app();
    app.finish_load("/work/api.v2.curl", Ok("curl 'http://d.io'".to_string()));
    assert_eq!(app.request_name, "api.v2");
    let mut app = new_app();
    app.finish_load("/work/.hidden", Ok("curl 'http://d.io'".to_string()));
    assert_eq!(app.request_name, ".hidden");
}

#[test]
fn ctrl_i_toggles_image_display() {
    let mut app = new_app();
    assert!(app.image_display_enabled);
    app.handle_key_events(&ctrl('i'));
    assert!(!app.image_display_enabled);
    app.handle_key_events(&ctrl('i'));
    assert!(app.image_display_enabled);
}

#[test]
fn image_replies_are_told_by_their_content_type() {
    let headers = vec![("Content-Type".to_string(), Some(" image/png".to_string()))];
    let reply = response_from_reply(200, 5, &headers, Ok("x".to_string()));
    assert!(reply.is_image);
    let mut app = new_app();
    app.handle_http_response(reply);
    assert!(app.response_is_image);
    let headers = vec![("content-type".to_string(), Some("application/json".to_string()))];
    let reply = response_from_reply(200, 5, &headers, Ok("{}".to_string()));
    assert!(!reply.is_image);
    app.handle_http_response(reply);
    assert!(!app.response_is_image);
}
