//! The multi-line text editor component, over the editor widget's state.
use vstd::prelude::*;
use edtui::{EditorEventHandler, EditorState, Lines};
use edtui::events::KeyEvent as E;
use crate::keys::{KeyCode, KeyPress, Modifiers};
use crate::text::{join, join_rows, lemma_join_split, lemma_split_on_len, lines_of, split_on, strip_cr};

verus! {

#[verifier::external_type_specification]
#[verifier::external_body]
pub struct ExEditorState(edtui::EditorState);

#[verifier::external_type_specification]
#[verifier::external_body]
pub struct ExEditorEventHandler(edtui::EditorEventHandler);

/// The rows of characters that an editor holds.
pub uninterp spec fn editor_rows(s: EditorState) -> Seq<Seq<char>>;

/// The rows that the editor makes of a text (edtui's `Lines::from`): the
/// text's lines as std's `str::lines` yields them, and one more empty row
/// when the text ends with a newline.
pub open spec fn text_rows(t: Seq<char>) -> Seq<Seq<char>> {
    if t.len() > 0 && t.last() == '\n' {
        lines_of(t).push(Seq::<char>::empty())
    } else {
        lines_of(t)
    }
}

/// Whether an editor is in insert mode (its `mode` is `EditorMode::Insert`).
pub uninterp spec fn editor_inserting(s: EditorState) -> bool;

/// An editor's cursor (its `cursor`): row and column.
pub uninterp spec fn editor_cursor(s: EditorState) -> (usize, usize);

/// A key as the editor widget reads it (edtui's `KeyEvent`).
#[derive(Clone, Copy, Debug, PartialEq, Eq, Structural)]
pub enum EdKey {
    Char(char),
    Down,
    Up,
    Right,
    Left,
    Enter,
    Esc,
    Backspace,
    Tab,
    Ctrl(char),
    Home,
    End,
    Nothing,
}

/// How the editor widget reads a key press: with Ctrl alone held, a
/// character key is Ctrl and that character and any other key is nothing;
/// otherwise the keys it knows stand for themselves and the rest for
/// nothing.
#[verifier::opaque]
pub open spec fn ed_key_of(code: KeyCode, m: Modifiers) -> EdKey {
    if m.is_control() {
        match code {
            KeyCode::Char(c) => EdKey::Ctrl(c),
            _ => EdKey::Nothing,
        }
    } else {
        match code {
            KeyCode::Char(c) => EdKey::Char(c),
            KeyCode::Enter => EdKey::Enter,
            KeyCode::Down => EdKey::Down,
            KeyCode::Up => EdKey::Up,
            KeyCode::Right => EdKey::Right,
            KeyCode::Left => EdKey::Left,
            KeyCode::Esc => EdKey::Esc,
            KeyCode::Backspace => EdKey::Backspace,
            KeyCode::Tab => EdKey::Tab,
            KeyCode::Home => EdKey::Home,
            KeyCode::End => EdKey::End,
            _ => EdKey::Nothing,
        }
    }
}

pub fn ed_key(code: KeyCode, m: Modifiers) -> (r: EdKey)
    ensures
        r == ed_key_of(code, m),
{
    reveal(ed_key_of);
    if m.only_control() {
        match code {
            KeyCode::Char(c) => EdKey::Ctrl(c),
            _ => EdKey::Nothing,
        }
    } else {
        match code {
            KeyCode::Char(c) => EdKey::Char(c),
            KeyCode::Enter => EdKey::Enter,
            KeyCode::Down => EdKey::Down,
            KeyCode::Up => EdKey::Up,
            KeyCode::Right => EdKey::Right,
            KeyCode::Left => EdKey::Left,
            KeyCode::Esc => EdKey::Esc,
            KeyCode::Backspace => EdKey::Backspace,
            KeyCode::Tab => EdKey::Tab,
            KeyCode::Home => EdKey::Home,
            KeyCode::End => EdKey::End,
            _ => EdKey::Nothing,
        }
    }
}

/// The rows and the cursor once the character `c` is typed in insert mode
/// at `cur`: on the row past the last a new empty row is made first; the
/// character goes in at the cursor's column (a column past the row's end
/// is taken as its last character's), and the cursor moves on by one. On
/// a row further down nothing happens.
#[verifier::opaque]
pub open spec fn typed_in_editor(rows: Seq<Seq<char>>, cur: (usize, usize), c: char) -> (Seq<Seq<char>>, (usize, usize)) {
    let r = cur.0 as int;
    let rows0 = if r == rows.len() { rows.push(Seq::<char>::empty()) } else { rows };
    if r < rows0.len() {
        let len = rows0[r].len();
        let col: usize = if cur.1 > len { if len > 0 { (len - 1) as usize } else { 0usize } } else { cur.1 };
        (rows0.update(r, rows0[r].insert(col as int, c)), (cur.0, (col + 1) as usize))
    } else {
        (rows, cur)
    }
}

/// `EditorState::default`: an editor holding no rows, in normal mode, its
/// cursor at the start.
#[verifier::external_body]
fn editor_state_default() -> (r: EditorState)
    ensures
        editor_rows(r) == Seq::<Seq<char>>::empty(),
        !editor_inserting(r),
        editor_cursor(r) == (0usize, 0usize),
{
    EditorState::default()
}

/// `EditorEventHandler::default`.
#[verifier::external_body]
fn event_handler_default() -> (r: EditorEventHandler) {
    EditorEventHandler::default()
}

/// Replaces the editor's rows by `Lines::from(text)`.
#[verifier::external_body]
fn set_editor_lines(state: &mut EditorState, text: &str)
    ensures
        editor_rows(*final(state)) == text_rows(text@),
        editor_inserting(*final(state)) == editor_inserting(*old(state)),
        editor_cursor(*final(state)) == editor_cursor(*old(state)),
{
    state.lines = Lines::from(text);
}

/// The editor's rows (`Lines::iter_row`), copied out.
#[verifier::external_body]
fn editor_rows_vec(state: &EditorState) -> (r: Vec<Vec<char>>)
    ensures
        r@.map_values(|row: Vec<char>| row@) == editor_rows(*state),
{
    state.lines.iter_row().map(|row| row.clone()).collect()
}

/// `EditorEventHandler::on_key_event`: the editor's own key handling, the
/// key passed on as the same edtui key. Stated: in insert mode a character
/// other than a newline goes in as `typed_in_editor` says, and the mode
/// stays. Not stated: what other keys do, which rests on the handler's
/// pending keys and the editor's selection and undo history (not held
/// here); its paste reads the system clipboard.
#[verifier::external_body]
fn editor_on_key(handler: &mut EditorEventHandler, state: &mut EditorState, k: EdKey)
    ensures
        (k matches EdKey::Char(c) && c != '\n' && editor_inserting(*old(state))) ==> ({
            let t = typed_in_editor(editor_rows(*old(state)), editor_cursor(*old(state)), k->Char_0);
            &&& editor_rows(*final(state)) == t.0
            &&& editor_cursor(*final(state)) == t.1
            &&& editor_inserting(*final(state))
        }),
{
    let key = match k {
        EdKey::Char(c) => E::Char(c), EdKey::Down => E::Down, EdKey::Up => E::Up, EdKey::Right => E::Right,
        EdKey::Left => E::Left, EdKey::Enter => E::Enter, EdKey::Esc => E::Esc, EdKey::Backspace => E::Backspace,
        EdKey::Tab => E::Tab, EdKey::Ctrl(c) => E::Ctrl(c), EdKey::Home => E::Home, EdKey::End => E::End,
        EdKey::Nothing => E::None,
    };
    handler.on_key_event(key, state);
}

/// What an editor is: whether it has the focus, and its rows.
pub struct EditorModel {
    pub focused: bool,
    pub rows: Seq<Seq<char>>,
}

/// A text editor pane.
pub struct Editor {
    pub editor_state: EditorState,
    pub event_handler: EditorEventHandler,
    focused: bool,
}

impl View for Editor {
    type V = EditorModel;

    closed spec fn view(&self) -> EditorModel {
        EditorModel { focused: self.focused, rows: editor_rows(self.editor_state) }
    }
}

/// The text an editor shows: its rows joined with newlines.
pub open spec fn rows_text(rows: Seq<Seq<char>>) -> Seq<char> {
    join(rows, "\n"@)
}

/// `t` holds no carriage return directly before a newline.
pub open spec fn no_crlf(t: Seq<char>) -> bool {
    forall|i: int| 0 <= i < t.len() - 1 ==> !(t[i] == '\r' && #[trigger] t[i + 1] == '\n')
}

proof fn lemma_split_last(s: Seq<char>)
    requires
        s.len() > 0,
    ensures
        split_on(s, '\n').last().len() > 0 ==> split_on(s, '\n').last().last() == s.last(),
        s.last() == '\n' ==> split_on(s, '\n').last().len() == 0,
{
    lemma_split_on_len(s.drop_last(), '\n');
}

proof fn lemma_pieces_no_cr(t: Seq<char>)
    requires
        no_crlf(t),
    ensures
        forall|j: int| 0 <= j < split_on(t, '\n').len() - 1 ==> #[trigger] strip_cr(split_on(t, '\n')[j]) == split_on(t, '\n')[j],
    decreases t.len(),
{
    if t.len() > 0 {
        let s = t.drop_last();
        assert(no_crlf(s)) by {
            assert forall|i: int| 0 <= i < s.len() - 1 implies !(s[i] == '\r' && #[trigger] s[i + 1] == '\n') by {
                assert(s[i] == t[i] && s[i + 1] == t[i + 1]);
            }
        }
        lemma_pieces_no_cr(s);
        lemma_split_on_len(s, '\n');
        let p = split_on(s, '\n');
        let q = split_on(t, '\n');
        if t.last() == '\n' {
            assert(q == p.push(Seq::<char>::empty()));
            if s.len() > 0 {
                lemma_split_last(s);
                if p.last().len() > 0 {
                    assert(t[s.len() - 1] == s.last());
                    assert(t[(s.len() - 1) + 1] == '\n');
                    assert(p.last().last() != '\r');
                }
            }
            assert forall|j: int| 0 <= j < q.len() - 1 implies #[trigger] strip_cr(q[j]) == q[j] by {
                assert(q[j] == p[j]);
            }
        } else {
            assert forall|j: int| 0 <= j < q.len() - 1 implies #[trigger] strip_cr(q[j]) == q[j] by {
                assert(q[j] == p[j]);
            }
        }
    }
}

/// Setting an editor's text and reading it back gives the same text, for
/// any text without a carriage return right before a newline (the editor
/// reads lines as std's `str::lines` does, which drops such a `\r`).
pub proof fn law_editor_text_round_trip(t: Seq<char>)
    requires
        no_crlf(t),
    ensures
        rows_text(text_rows(t)) == t,
{
    lemma_pieces_no_cr(t);
    lemma_split_on_len(t, '\n');
    lemma_join_split(t, '\n');
    let ps = split_on(t, '\n');
    let n = ps.len();
    assert("\n"@ == seq!['\n']) by {
        reveal_strlit("\n");
    }
    if t.len() == 0 {
        assert(lines_of(t) =~= Seq::<Seq<char>>::empty());
        assert(join(ps, seq!['\n']) == ps[0]);
    } else {
        lemma_split_last(t);
        if t.last() == '\n' {
            assert(lines_of(t) =~= ps.take(n - 1));
            assert(text_rows(t) =~= ps);
        } else {
            assert(lines_of(t) =~= ps);
        }
    }
}

impl Default for Editor {
    fn default() -> (r: Editor)
        ensures
            r@ == (EditorModel { focused: false, rows: Seq::<Seq<char>>::empty() }),
    {
        Editor { editor_state: editor_state_default(), event_handler: event_handler_default(), focused: false }
    }
}

impl Editor {
    pub fn is_focused(&self) -> (r: bool)
        ensures
            r == self@.focused,
    {
        self.focused
    }

    pub fn focus(&mut self)
        ensures
            final(self)@ == (EditorModel { focused: true, ..old(self)@ }),
    {
        self.focused = true;
    }

    pub fn unfocus(&mut self)
        ensures
            final(self)@ == (EditorModel { focused: false, ..old(self)@ }),
    {
        self.focused = false;
    }

    /// Whether the editor is in insert mode.
    pub closed spec fn inserting(&self) -> bool {
        editor_inserting(self.editor_state)
    }

    /// The editor's cursor: row and column.
    pub closed spec fn cursor(&self) -> (usize, usize) {
        editor_cursor(self.editor_state)
    }

    /// Hands a key press to the editor widget, read as `ed_key_of` says: in
    /// insert mode a typed character goes in at the cursor.
    pub fn handle_key(&mut self, key: &KeyPress)
        ensures
            final(self)@.focused == old(self)@.focused,
            (ed_key_of(key.code, key.modifiers) matches EdKey::Char(c) && c != '\n' && old(self).inserting()) ==> ({
                let t = typed_in_editor(old(self)@.rows, old(self).cursor(), ed_key_of(key.code, key.modifiers)->Char_0);
                &&& final(self)@.rows == t.0
                &&& final(self).cursor() == t.1
                &&& final(self).inserting()
            }),
    {
        let k = ed_key(key.code, key.modifiers);
        editor_on_key(&mut self.event_handler, &mut self.editor_state, k);
    }

    /// The editor's text: its rows joined with newlines.
    pub fn get_text(&self) -> (r: String)
        ensures
            r@ == rows_text(self@.rows),
    {
        let rows = editor_rows_vec(&self.editor_state);
        join_rows(&rows, "\n")
    }

    pub fn set_text(&mut self, text: String)
        ensures
            final(self)@ == (EditorModel { rows: text_rows(text@), ..old(self)@ }),
    {
        set_editor_lines(&mut self.editor_state, text.as_str());
    }

    pub fn clear(&mut self)
        ensures
            final(self)@ == (EditorModel { rows: Seq::<Seq<char>>::empty(), ..old(self)@ }),
    {
        let empty = String::new();
        set_editor_lines(&mut self.editor_state, empty.as_str());
        proof {
            assert(crate::text::split_on(Seq::<char>::empty(), '\n') == seq![Seq::<char>::empty()]);
            assert(text_rows(Seq::<char>::empty()) =~= Seq::<Seq<char>>::empty());
        }
    }
}

} // verus!
