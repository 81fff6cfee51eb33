use http_tui::components::editor::Editor;
use http_tui::components::method_input::MethodInput;
use http_tui::components::request_input::{vim_plan, EditOp, Mode, Transition};
use http_tui::components::url_input::UrlInput;
use http_tui::keys::{Input, Key};
use http_tui::string_map::StringMap;
use http_tui::textarea::CursorMove;

fn input(key: Key, ctrl: bool) -> Input {
    Input { key, ctrl, alt: false, shift: false }
}

#[test]
fn string_map_keeps_insertion_order_and_replaces_in_place() {
    let mut m = StringMap::new();
    assert!(m.is_empty());
    m.insert("b".to_string(), "1".to_string());
    m.insert("a".to_string(), "2".to_string());
    m.insert("b".to_string(), "3".to_string());
    assert_eq!(m.len(), 2);
    assert_eq!(m.get(&"b".to_string()), Some(&"3".to_string()));
    assert_eq!(m.get(&"c".to_string()), None);
    let keys: Vec<&str> = m.entries().iter().map(|e| e.0.as_str()).collect();
    assert_eq!(keys, vec!["b", "a"]);
}

#[test]
fn editor_text_round_trips() {
    let mut e = Editor::default();
    assert_eq!(e.get_text(), "");
    e.set_text("one\ntwo\n".to_string());
    assert_eq!(e.get_text(), "one\ntwo\n");
    e.set_text("a\r\nb".to_string());
    assert_eq!(e.get_text(), "a\nb");
    e.clear();
    assert_eq!(e.get_text(), "");
    assert!(!e.is_focused());
    e.focus();
    assert!(e.is_focused());
}

#[test]
fn fields_hold_one_line() {
    let mut m = MethodInput::new();
    assert_eq!(m.get_text(), "GET");
    m.set_text("PATCH".to_string());
    assert_eq!(m.get_text(), "PATCH");
    m.clear();
    assert_eq!(m.get_text(), "");
    let mut u = UrlInput::new();
    u.set_text("http://x".to_string());
    assert_eq!(u.get_text(), "http://x");
    assert_eq!(u.get_input(), "http://x");
}

#[test]
fn mode_names() {
    assert_eq!(Mode::Normal.to_string(), "NORMAL");
    assert_eq!(Mode::Insert.to_string(), "INSERT");
    assert_eq!(Mode::Visual.to_string(), "VISUAL");
    assert_eq!(Mode::Operator('d').to_string(), "OPERATOR(d)");
}

#[test]
fn vim_insert_mode_types_and_escapes() {
    let null = Input::null();
    let (ops, t) = vim_plan(Mode::Insert, null, input(Key::Char('x'), false));
    assert_eq!(ops, vec![EditOp::TypeKey]);
    assert_eq!(t, Transition::Mode(Mode::Insert));
    let (ops, t) = vim_plan(Mode::Insert, null, input(Key::Esc, false));
    assert!(ops.is_empty());
    assert_eq!(t, Transition::Mode(Mode::Normal));
}

#[test]
fn vim_normal_mode_moves_and_enters_insert() {
    let null = Input::null();
    let (ops, t) = vim_plan(Mode::Normal, null, input(Key::Char('h'), false));
    assert_eq!(ops, vec![EditOp::Move(CursorMove::Back)]);
    assert_eq!(t, Transition::Nop);
    let (_, t) = vim_plan(Mode::Normal, null, input(Key::Char('i'), false));
    assert_eq!(t, Transition::Mode(Mode::Insert));
    let (_, t) = vim_plan(Mode::Normal, null, input(Key::Char('q'), false));
    assert_eq!(t, Transition::Quit);
}

#[test]
fn vim_operator_waits_for_its_motion() {
    let null = Input::null();
    let (_, t) = vim_plan(Mode::Normal, null, input(Key::Char('d'), false));
    assert_eq!(t, Transition::Mode(Mode::Operator('d')));
}
