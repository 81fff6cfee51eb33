//! The text area widget's state, held as an outside value, with the calls
//! that the components make on it.
use vstd::prelude::*;
use tui_textarea::{CursorMove as TaMove, Input as TaInput, Key as T, Scrolling, TextArea};
use crate::keys::{Input, Key};

verus! {

/// A text area widget (its state lives in the outside crate).
#[verifier::external_body]
pub struct TextBox {
    pub area: TextArea<'static>,
}

/// The lines that a text area holds.
pub uninterp spec fn textbox_lines(t: TextBox) -> Seq<Seq<char>>;

/// The selection of a text area (`TextArea::selection_range`): its two
/// ends, the earlier first, while one is under way. One end is always the
/// cursor.
pub uninterp spec fn textbox_selection(t: TextBox) -> Option<((usize, usize), (usize, usize))>;

/// Where a text area's cursor stands (`TextArea::cursor`): row and column,
/// counted in characters.
pub uninterp spec fn textbox_cursor_at(t: TextBox) -> (usize, usize);

/// A text area as plain values: its lines, its cursor and its selection.
pub struct TextState {
    pub lines: Seq<Seq<char>>,
    pub cursor: (usize, usize),
    pub selection: Option<((usize, usize), (usize, usize))>,
}

pub open spec fn text_state(t: TextBox) -> TextState {
    TextState { lines: textbox_lines(t), cursor: textbox_cursor_at(t), selection: textbox_selection(t) }
}

/// What holds of every text area: it has at least one line (and no more
/// than a `usize` counts, as they sit in a `Vec`), and its cursor stands on
/// one of them.
pub open spec fn text_ok(s: TextState) -> bool {
    &&& 1 <= s.lines.len() <= usize::MAX
    &&& s.cursor.0 < s.lines.len()
}

/// `a` comes before `b` (by row, then column).
pub open spec fn pos_before(a: (usize, usize), b: (usize, usize)) -> bool {
    a.0 < b.0 || (a.0 == b.0 && a.1 < b.1)
}

/// The selection from `start` to the cursor `cur`, the earlier end first.
pub open spec fn span(start: (usize, usize), cur: (usize, usize)) -> ((usize, usize), (usize, usize)) {
    if pos_before(cur, start) {
        (cur, start)
    } else {
        (start, cur)
    }
}

/// The end of the selection `rg` that is not the cursor `cur`: where the
/// selection started.
pub open spec fn anchor(rg: ((usize, usize), (usize, usize)), cur: (usize, usize)) -> (usize, usize) {
    if rg.0 == cur {
        rg.1
    } else {
        rg.0
    }
}

/// The selection once the cursor has gone from `cur` to `cur2`: it keeps
/// its start and follows the cursor.
pub open spec fn carried(
    sel: Option<((usize, usize), (usize, usize))>,
    cur: (usize, usize),
    cur2: (usize, usize),
) -> Option<((usize, usize), (usize, usize))> {
    match sel {
        Some(rg) => Some(span(anchor(rg, cur), cur2)),
        None => None,
    }
}

/// The selection's ends lie on lines that the text area has.
pub open spec fn selection_known(s: TextState) -> bool {
    s.selection matches Some(rg) ==> rg.1.0 < s.lines.len()
}

/// A selection (on known lines) covers some text: its ends differ once
/// each column is kept on its line.
pub open spec fn selects_text(s: TextState) -> bool {
    s.selection matches Some(rg) && !(rg.0.0 == rg.1.0 && fit_col(rg.0.1, s.lines[rg.0.0 as int]) == fit_col(
        rg.1.1,
        s.lines[rg.1.0 as int],
    ))
}

/// The lines once the text from `rg.0` up to `rg.1` goes: the first line
/// up to the start, joined to the last line from the end.
pub open spec fn cut_span(ls: Seq<Seq<char>>, rg: ((usize, usize), (usize, usize))) -> Seq<Seq<char>> {
    let a = fit_col(rg.0.1, ls[rg.0.0 as int]) as int;
    let b = fit_col(rg.1.1, ls[rg.1.0 as int]) as int;
    ls.take(rg.0.0 as int).push(ls[rg.0.0 as int].take(a) + ls[rg.1.0 as int].skip(b)) + ls.skip(rg.1.0 + 1)
}

/// A text area once its selection is put away: where it covers text, the
/// text goes and the cursor stands at its start; either way no selection
/// is left.
pub open spec fn selection_removed(s: TextState) -> TextState {
    if selects_text(s) {
        TextState { lines: cut_span(s.lines, s.selection->Some_0), cursor: s.selection->Some_0.0, selection: None }
    } else {
        TextState { selection: None, ..s }
    }
}

/// A column kept on a line: the line's end where the column lies past it.
pub open spec fn fit_col(col: usize, line: Seq<char>) -> usize {
    if col <= line.len() {
        col
    } else {
        line.len() as usize
    }
}

/// The moves whose target is stated; the word moves are not.
pub open spec fn plain_move(m: CursorMove) -> bool {
    !(m is WordForward || m is WordEnd || m is WordBack)
}

/// Where a plain move takes the cursor `cur` over the lines `ls`. A move
/// that has nowhere to go (back at the very start, down on the last line)
/// leaves the cursor where it is.
pub open spec fn moved_to(m: CursorMove, ls: Seq<Seq<char>>, cur: (usize, usize)) -> (usize, usize) {
    let row = cur.0;
    let col = cur.1;
    match m {
        CursorMove::Forward => if col >= ls[row as int].len() {
            if row + 1 < ls.len() {
                ((row + 1) as usize, 0usize)
            } else {
                cur
            }
        } else {
            (row, (col + 1) as usize)
        },
        CursorMove::Back => if col == 0 {
            if row == 0 {
                cur
            } else {
                ((row - 1) as usize, ls[row - 1].len() as usize)
            }
        } else {
            (row, (col - 1) as usize)
        },
        CursorMove::Up => if row == 0 {
            cur
        } else {
            ((row - 1) as usize, fit_col(col, ls[row - 1]))
        },
        CursorMove::Down => if row + 1 < ls.len() {
            ((row + 1) as usize, fit_col(col, ls[row + 1]))
        } else {
            cur
        },
        CursorMove::Head => (row, 0usize),
        CursorMove::End => (row, ls[row as int].len() as usize),
        CursorMove::Top => (0usize, fit_col(col, ls[0])),
        CursorMove::Bottom => ((ls.len() - 1) as usize, fit_col(col, ls[ls.len() - 1])),
        _ => cur,
    }
}

/// A text area once its cursor has gone to the end of its line, the
/// selection following it.
#[verifier::opaque]
pub open spec fn to_line_end(a: TextState) -> TextState {
    let c = moved_to(CursorMove::End, a.lines, a.cursor);
    TextState { cursor: c, selection: carried(a.selection, a.cursor, c), ..a }
}

/// The lines once a newline is put at the cursor: the cursor's line split
/// at its column (or at its end, where the column lies past it).
pub open spec fn split_at_cursor(ls: Seq<Seq<char>>, cur: (usize, usize)) -> Seq<Seq<char>> {
    let row = cur.0 as int;
    let line = ls[row];
    let c = fit_col(cur.1, line) as int;
    ls.take(row).push(line.take(c)).push(line.skip(c)) + ls.skip(row + 1)
}

/// The lines once the character after the cursor goes: the one at the
/// cursor's column, or, at the end of a line that has one below it, the
/// line break (the two lines join); else nothing.
pub open spec fn after_delete_next(ls: Seq<Seq<char>>, cur: (usize, usize)) -> Seq<Seq<char>> {
    let row = cur.0 as int;
    let line = ls[row];
    if cur.1 < line.len() {
        ls.update(row, line.remove(cur.1 as int))
    } else if row + 1 < ls.len() {
        ls.take(row).push(line + ls[row + 1]) + ls.skip(row + 2)
    } else {
        ls
    }
}

/// The lines once the rest of the cursor's line goes: from the cursor's
/// column to the end, or, at the end of the line, the character after it.
pub open spec fn after_delete_to_end(ls: Seq<Seq<char>>, cur: (usize, usize)) -> Seq<Seq<char>> {
    let row = cur.0 as int;
    let line = ls[row];
    if cur.1 < line.len() {
        ls.update(row, line.take(cur.1 as int))
    } else {
        after_delete_next(ls, cur)
    }
}

/// `TextArea::new`: a text area holding the given lines, or one empty line
/// when none are given.
#[verifier::external_body]
pub fn new_textbox(lines: Vec<String>) -> (r: TextBox)
    ensures
        textbox_lines(r) == if lines@.len() == 0 {
            seq![Seq::<char>::empty()]
        } else {
            lines@.map_values(|l: String| l@)
        },
        textbox_cursor_at(r) == (0usize, 0usize),
        textbox_selection(r) is None,
{
    TextBox { area: TextArea::new(lines) }
}

/// `TextArea::lines`, copied out; a text area always holds at least one line.
#[verifier::external_body]
pub fn textbox_lines_vec(t: &TextBox) -> (r: Vec<String>)
    ensures
        r@.map_values(|l: String| l@) == textbox_lines(*t),
        r@.len() >= 1,
{
    t.area.lines().to_vec()
}

/// The keys that break the line: Enter, Ctrl+M, and a typed newline or
/// carriage return (without Ctrl or Alt).
pub open spec fn breaks_line(i: Input) -> bool {
    ||| i.key == Key::Enter
    ||| i.key == Key::Char('m') && i.ctrl && !i.alt
    ||| (i.key == Key::Char('\n') || i.key == Key::Char('\r')) && !i.ctrl && !i.alt
}

/// A character typed as itself: no Ctrl, no Alt, and not a line break.
pub open spec fn types_char(i: Input) -> bool {
    i.key is Char && !i.ctrl && !i.alt && !breaks_line(i)
}

/// The keys that delete backwards: Backspace, and Ctrl+H.
pub open spec fn deletes_back(i: Input) -> bool {
    (i.key == Key::Backspace && !i.ctrl && !i.alt) || (i.key == Key::Char('h') && i.ctrl && !i.alt)
}

/// The lines once the character before the cursor goes: the one left of
/// its column, or, at the head of a line below the first, the line break
/// (the line joins the one above); else nothing.
pub open spec fn after_delete_prev(ls: Seq<Seq<char>>, cur: (usize, usize)) -> Seq<Seq<char>> {
    let row = cur.0 as int;
    let col = cur.1 as int;
    if col == 0 {
        if row == 0 {
            ls
        } else {
            ls.take(row - 1).push(ls[row - 1] + ls[row]) + ls.skip(row + 1)
        }
    } else if col - 1 < ls[row].len() {
        ls.update(row, ls[row].remove(col - 1))
    } else {
        ls
    }
}

/// What a key does to a text area, from `a` to `b`, as far as it is
/// stated: a line break puts the selection away and splits the line at
/// the cursor, the cursor going to the head of the new line; a typed
/// character puts the selection away and goes in at the cursor, which
/// moves on by one; Backspace deletes a selection that covers text, else
/// the character before the cursor. What other keys do to the lines is
/// not stated.
#[verifier::opaque]
pub open spec fn key_typed(i: Input, a: TextState, b: TextState) -> bool {
    let m = selection_removed(a);
    if breaks_line(i) {
        &&& b.lines == split_at_cursor(m.lines, m.cursor)
        &&& b.cursor == ((m.cursor.0 + 1) as usize, 0usize)
        &&& b.selection is None
    } else if types_char(i) {
        let row = m.cursor.0 as int;
        &&& b.lines == m.lines.update(row, m.lines[row].insert(fit_col(m.cursor.1, m.lines[row]) as int, i.key->Char_0))
        &&& b.cursor == (m.cursor.0, (m.cursor.1 + 1) as usize)
        &&& b.selection is None
    } else if deletes_back(i) {
        &&& b.lines == (if selects_text(a) { m.lines } else { after_delete_prev(a.lines, a.cursor) })
        &&& b.selection is None
    } else {
        true
    }
}

/// `TextArea::input`: the text area's own handling of a key, the library's
/// `Input` passed on field for field. Stated: `key_typed`, where the
/// selection lies on lines the text area has.
#[verifier::external_body]
pub fn textbox_input(t: &mut TextBox, i: Input) -> (r: bool)
    ensures
        text_ok(text_state(*final(t))),
        selection_known(text_state(*old(t))) ==> key_typed(i, text_state(*old(t)), text_state(*final(t))),
{
    let key = match i.key {
        Key::Char(c) => T::Char(c), Key::F(n) => T::F(n), Key::Backspace => T::Backspace, Key::Enter => T::Enter,
        Key::Left => T::Left, Key::Right => T::Right, Key::Up => T::Up, Key::Down => T::Down, Key::Tab => T::Tab,
        Key::Delete => T::Delete, Key::Home => T::Home, Key::End => T::End, Key::PageUp => T::PageUp,
        Key::PageDown => T::PageDown, Key::Esc => T::Esc, Key::Null => T::Null,
    };
    t.area.input(TaInput { key, ctrl: i.ctrl, alt: i.alt, shift: i.shift })
}

/// The cursor moves that the components ask of a text area.
#[derive(Clone, Copy, Debug, PartialEq, Eq, Structural)]
pub enum CursorMove {
    Forward,
    Back,
    Up,
    Down,
    Head,
    End,
    Top,
    Bottom,
    WordForward,
    WordEnd,
    WordBack,
}

/// The scroll steps that the components ask of a text area.
#[derive(Clone, Copy, Debug, PartialEq, Eq, Structural)]
pub enum ScrollStep {
    LineDown,
    LineUp,
    HalfPageDown,
    HalfPageUp,
    PageDown,
    PageUp,
}

/// `TextArea::move_cursor`: the lines stay as they are, a selection keeps
/// its start and follows the cursor, and a plain move takes the cursor
/// where `moved_to` says.
#[verifier::external_body]
pub fn textbox_move_cursor(t: &mut TextBox, m: CursorMove)
    ensures
        text_ok(text_state(*final(t))),
        textbox_lines(*final(t)) == textbox_lines(*old(t)),
        textbox_selection(*final(t)) == carried(textbox_selection(*old(t)), textbox_cursor_at(*old(t)), textbox_cursor_at(*final(t))),
        plain_move(m) ==> textbox_cursor_at(*final(t)) == moved_to(m, textbox_lines(*old(t)), textbox_cursor_at(*old(t))),
{
    t.area.move_cursor(match m {
        CursorMove::Forward => TaMove::Forward,
        CursorMove::Back => TaMove::Back,
        CursorMove::Up => TaMove::Up,
        CursorMove::Down => TaMove::Down,
        CursorMove::Head => TaMove::Head,
        CursorMove::End => TaMove::End,
        CursorMove::Top => TaMove::Top,
        CursorMove::Bottom => TaMove::Bottom,
        CursorMove::WordForward => TaMove::WordForward,
        CursorMove::WordEnd => TaMove::WordEnd,
        CursorMove::WordBack => TaMove::WordBack,
    });
}

/// `TextArea::scroll`: the lines stay as they are, and a selection keeps
/// its start and follows the cursor, which follows the view (whose size is
/// not stated).
#[verifier::external_body]
pub fn textbox_scroll(t: &mut TextBox, step: ScrollStep)
    ensures
        text_ok(text_state(*final(t))),
        textbox_lines(*final(t)) == textbox_lines(*old(t)),
        textbox_selection(*final(t)) == carried(textbox_selection(*old(t)), textbox_cursor_at(*old(t)), textbox_cursor_at(*final(t))),
{
    t.area.scroll(match step {
        ScrollStep::LineDown => Scrolling::Delta { rows: 1, cols: 0 },
        ScrollStep::LineUp => Scrolling::Delta { rows: -1, cols: 0 },
        ScrollStep::HalfPageDown => Scrolling::HalfPageDown,
        ScrollStep::HalfPageUp => Scrolling::HalfPageUp,
        ScrollStep::PageDown => Scrolling::PageDown,
        ScrollStep::PageUp => Scrolling::PageUp,
    });
}

/// `TextArea::cursor`: the (row, column) of the cursor.
#[verifier::external_body]
pub fn textbox_cursor(t: &TextBox) -> (r: (usize, usize))
    ensures
        r == textbox_cursor_at(*t),
{
    t.area.cursor()
}

/// `TextArea::start_selection`: a selection starts at the cursor; the lines
/// and the cursor stay as they are.
#[verifier::external_body]
pub fn textbox_start_selection(t: &mut TextBox)
    ensures
        textbox_lines(*final(t)) == textbox_lines(*old(t)),
        textbox_cursor_at(*final(t)) == textbox_cursor_at(*old(t)),
        textbox_selection(*final(t)) == Some((textbox_cursor_at(*old(t)), textbox_cursor_at(*old(t)))),
        text_ok(text_state(*final(t))),
{
    t.area.start_selection()
}

/// `TextArea::cancel_selection`: no selection is under way after it; the
/// lines and the cursor stay as they are.
#[verifier::external_body]
pub fn textbox_cancel_selection(t: &mut TextBox)
    ensures
        text_state(*final(t)) == (TextState { selection: None, ..text_state(*old(t)) }),
        text_ok(text_state(*final(t))),
{
    t.area.cancel_selection()
}

/// `TextArea::copy`: yanks the selection and ends it; the lines and the
/// cursor stay as they are.
#[verifier::external_body]
pub fn textbox_copy(t: &mut TextBox)
    ensures
        text_state(*final(t)) == (TextState { selection: None, ..text_state(*old(t)) }),
        text_ok(text_state(*final(t))),
{
    t.area.copy()
}

/// `TextArea::cut`: puts the selection away (`selection_removed`) and
/// reports whether text went.
#[verifier::external_body]
pub fn textbox_cut(t: &mut TextBox) -> (r: bool)
    ensures
        textbox_selection(*final(t)) is None,
        text_ok(text_state(*final(t))),
        selection_known(text_state(*old(t))) ==> text_state(*final(t)) == selection_removed(text_state(*old(t)))
            && r == selects_text(text_state(*old(t))),
{
    t.area.cut()
}

/// `TextArea::paste`: ends any selection; what it does to the lines (the
/// yanked text goes in) is not stated.
#[verifier::external_body]
pub fn textbox_paste(t: &mut TextBox) -> (r: bool)
    ensures
        textbox_selection(*final(t)) is None,
        text_ok(text_state(*final(t))),
{
    t.area.paste()
}

/// `TextArea::undo`: what it does to the lines is not stated.
#[verifier::external_body]
pub fn textbox_undo(t: &mut TextBox) -> (r: bool)
    ensures
        text_ok(text_state(*final(t))),
{
    t.area.undo()
}

/// `TextArea::redo`: what it does to the lines is not stated.
#[verifier::external_body]
pub fn textbox_redo(t: &mut TextBox) -> (r: bool)
    ensures
        text_ok(text_state(*final(t))),
{
    t.area.redo()
}

/// `TextArea::delete_line_by_end`: ends any selection; a selection that
/// covers text goes (`selection_removed`), else it deletes from the cursor
/// to the end of its line (at the end, the character after it).
#[verifier::external_body]
pub fn textbox_delete_line_by_end(t: &mut TextBox) -> (r: bool)
    ensures
        textbox_selection(*final(t)) is None,
        text_ok(text_state(*final(t))),
        selection_known(text_state(*old(t))) ==> textbox_lines(*final(t)) == if selects_text(text_state(*old(t))) {
            selection_removed(text_state(*old(t))).lines
        } else {
            after_delete_to_end(textbox_lines(*old(t)), textbox_cursor_at(*old(t)))
        },
{
    t.area.delete_line_by_end()
}

/// `TextArea::delete_next_char`: ends any selection; a selection that
/// covers text goes (`selection_removed`), else the character after the
/// cursor goes.
#[verifier::external_body]
pub fn textbox_delete_next_char(t: &mut TextBox) -> (r: bool)
    ensures
        textbox_selection(*final(t)) is None,
        text_ok(text_state(*final(t))),
        selection_known(text_state(*old(t))) ==> textbox_lines(*final(t)) == if selects_text(text_state(*old(t))) {
            selection_removed(text_state(*old(t))).lines
        } else {
            after_delete_next(textbox_lines(*old(t)), textbox_cursor_at(*old(t)))
        },
{
    t.area.delete_next_char()
}

/// `TextArea::insert_newline`: puts the selection away
/// (`selection_removed`), then splits the cursor's line at the cursor and
/// puts the cursor at the head of the new line.
#[verifier::external_body]
pub fn textbox_insert_newline(t: &mut TextBox)
    ensures
        textbox_selection(*final(t)) is None,
        text_ok(text_state(*final(t))),
        selection_known(text_state(*old(t))) ==> ({
            let m = selection_removed(text_state(*old(t)));
            textbox_lines(*final(t)) == split_at_cursor(m.lines, m.cursor) && textbox_cursor_at(*final(t)) == (
            (m.cursor.0 + 1) as usize, 0usize)
        }),
{
    t.area.insert_newline()
}

} // verus!
