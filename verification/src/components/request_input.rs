//! A Vim-style modal text editor: the decision, for each mode and key, of
//! what to do to the text area and which mode comes next.
use vstd::prelude::*;
use crate::keys::{Input, Key, KeyPress};
use crate::text::{push_char, string_from};
use crate::textarea::{
    new_textbox, textbox_cancel_selection, textbox_copy, textbox_cursor, textbox_cut,
    textbox_delete_line_by_end, textbox_delete_next_char, textbox_input, textbox_insert_newline,
    textbox_lines, textbox_move_cursor, textbox_paste, textbox_redo, textbox_scroll,
    textbox_start_selection, textbox_undo, CursorMove, ScrollStep, TextBox, text_state, text_ok, TextState,
    carried, moved_to, plain_move, split_at_cursor, after_delete_next, after_delete_to_end, selection_known,
    selection_removed, selects_text, key_typed, cut_span, fit_col,
};

verus! {

/// The editing modes.
#[derive(Debug, Clone, Copy, PartialEq, Eq, Structural)]
pub enum Mode {
    Normal,
    Insert,
    Visual,
    Operator(char),
}

/// The name of a mode as the status line shows it.
pub open spec fn mode_label(m: Mode) -> Seq<char> {
    match m {
        Mode::Normal => "NORMAL"@,
        Mode::Insert => "INSERT"@,
        Mode::Visual => "VISUAL"@,
        Mode::Operator(c) => "OPERATOR("@ + seq![c] + ")"@,
    }
}

impl Mode {
    /// The mode's name, as its `Display` writes it.
    pub fn to_string(&self) -> (r: String)
        ensures
            r@ == mode_label(*self),
    {
        match self {
            Mode::Normal => string_from("NORMAL"),
            Mode::Insert => string_from("INSERT"),
            Mode::Visual => string_from("VISUAL"),
            Mode::Operator(c) => {
                let mut s = string_from("OPERATOR(");
                push_char(&mut s, *c);
                crate::text::push_str(&mut s, ")");
                s
            },
        }
    }
}

/// What the editor does after an input.
#[derive(Debug, Clone, Copy, PartialEq, Eq, Structural)]
pub enum Transition {
    Nop,
    Mode(Mode),
    Pending(Input),
    Quit,
}

/// One operation on the text area.
#[derive(Debug, Clone, Copy, PartialEq, Eq, Structural)]
pub enum EditOp {
    Move(CursorMove),
    Scroll(ScrollStep),
    StartSelection,
    CancelSelection,
    Copy,
    Cut,
    Paste,
    Undo,
    Redo,
    DeleteLineByEnd,
    DeleteNextChar,
    InsertNewline,
    /// Selects the current line: cursor to the line head, start a
    /// selection, then down one line, or to the line end on the last line.
    SelectLine,
    /// The text area's own handling of the key (insert mode).
    TypeKey,
}

/// What an operation does to a text area, from `a` to `b`, as far as the
/// text area's calls are stated. Moves and scrolls keep the lines, carry a
/// selection along, and a plain move goes where `moved_to` says. Starting a
/// selection starts it at the cursor; cancelling and copying end it. Cut
/// puts the selection away; the deletes and the newline put away a
/// selection that covers text, else delete or split at the cursor.
/// Selecting a line selects from its head to the head of the next line (to
/// its own end on the last line), the cursor at that far end. What paste,
/// undo and redo do to the lines is not stated; a typed key `i` does what
/// `key_typed` says.
pub open spec fn op_done(op: EditOp, i: Input, a: TextState, b: TextState) -> bool {
    &&& text_ok(b)
    &&& match op {
        EditOp::Move(m) => b.lines == a.lines && b.selection == carried(a.selection, a.cursor, b.cursor) && (
        plain_move(m) ==> b.cursor == moved_to(m, a.lines, a.cursor)),
        EditOp::Scroll(_) => b.lines == a.lines && b.selection == carried(a.selection, a.cursor, b.cursor),
        EditOp::StartSelection => b == (TextState { selection: Some((a.cursor, a.cursor)), ..a }),
        EditOp::CancelSelection | EditOp::Copy => b == (TextState { selection: None, ..a }),
        EditOp::Cut => b.selection is None && (selection_known(a) ==> b == selection_removed(a)),
        EditOp::Paste => b.selection is None,
        EditOp::DeleteLineByEnd => b.selection is None && (selection_known(a) ==> b.lines == if selects_text(a) {
            selection_removed(a).lines
        } else {
            after_delete_to_end(a.lines, a.cursor)
        }),
        EditOp::DeleteNextChar => b.selection is None && (selection_known(a) ==> b.lines == if selects_text(a) {
            selection_removed(a).lines
        } else {
            after_delete_next(a.lines, a.cursor)
        }),
        EditOp::InsertNewline => b.selection is None && (selection_known(a) ==> b.lines == split_at_cursor(
            selection_removed(a).lines,
            selection_removed(a).cursor,
        ) && b.cursor == ((selection_removed(a).cursor.0 + 1) as usize, 0usize)),
        EditOp::SelectLine => b.lines == a.lines && b.cursor == line_end_of(a) && b.selection == Some(
            ((a.cursor.0, 0usize), line_end_of(a)),
        ),
        EditOp::TypeKey => selection_known(a) ==> key_typed(i, a, b),
        EditOp::Undo | EditOp::Redo => true,
    }
}

/// Where selecting the cursor's line ends: the head of the next line, or
/// the end of the line itself when it is the last.
pub open spec fn line_end_of(a: TextState) -> (usize, usize) {
    let r = a.cursor.0;
    if r + 1 < a.lines.len() {
        ((r + 1) as usize, 0usize)
    } else {
        (r, a.lines[r as int].len() as usize)
    }
}

/// `st` runs through the text area's states as `ops` are carried out one
/// after another.
pub open spec fn ops_done(ops: Seq<EditOp>, i: Input, st: Seq<TextState>) -> bool {
    &&& st.len() == ops.len() + 1
    &&& forall|j: int| 0 <= j < ops.len() ==> op_done(#[trigger] ops[j], i, st[j], st[j + 1])
}

/// Whether an operation leaves the text as it is.
pub open spec fn keeps_text(op: EditOp) -> bool {
    match op {
        EditOp::Move(_) | EditOp::Scroll(_) | EditOp::StartSelection | EditOp::CancelSelection
        | EditOp::Copy | EditOp::SelectLine => true,
        _ => false,
    }
}

/// Applying a pending operator after a motion: `y` copies, `d` cuts, `c`
/// cuts and enters insert mode.
pub open spec fn finish_operator(mode: Mode, ops: Seq<EditOp>) -> (Seq<EditOp>, Transition) {
    match mode {
        Mode::Operator('y') => (ops.push(EditOp::Copy), Transition::Mode(Mode::Normal)),
        Mode::Operator('d') => (ops.push(EditOp::Cut), Transition::Mode(Mode::Normal)),
        Mode::Operator('c') => (ops.push(EditOp::Cut), Transition::Mode(Mode::Insert)),
        _ => (ops, Transition::Nop),
    }
}

pub open spec fn is_char(i: Input, c: char) -> bool {
    i.key == Key::Char(c)
}

pub open spec fn is_plain_char(i: Input, c: char) -> bool {
    i.key == Key::Char(c) && !i.ctrl
}

pub open spec fn is_ctrl_char(i: Input, c: char) -> bool {
    i.key == Key::Char(c) && i.ctrl
}

/// The decision in normal, visual and operator-pending modes.
pub open spec fn command_step(mode: Mode, pending: Input, i: Input) -> (Seq<EditOp>, Transition) {
    let mv = |m: CursorMove| finish_operator(mode, seq![EditOp::Move(m)]);
    let sc = |s: ScrollStep| finish_operator(mode, seq![EditOp::Scroll(s)]);
    if is_char(i, 'h') {
        mv(CursorMove::Back)
    } else if is_char(i, 'j') {
        mv(CursorMove::Down)
    } else if is_char(i, 'k') {
        mv(CursorMove::Up)
    } else if is_char(i, 'l') {
        mv(CursorMove::Forward)
    } else if is_char(i, 'w') {
        mv(CursorMove::WordForward)
    } else if is_plain_char(i, 'e') {
        if mode is Operator {
            finish_operator(mode, seq![EditOp::Move(CursorMove::WordEnd), EditOp::Move(CursorMove::Forward)])
        } else {
            mv(CursorMove::WordEnd)
        }
    } else if is_plain_char(i, 'b') {
        mv(CursorMove::WordBack)
    } else if is_char(i, '^') {
        mv(CursorMove::Head)
    } else if is_char(i, '$') {
        mv(CursorMove::End)
    } else if is_char(i, 'D') {
        (seq![EditOp::DeleteLineByEnd], Transition::Mode(Mode::Normal))
    } else if is_char(i, 'C') {
        (seq![EditOp::DeleteLineByEnd, EditOp::CancelSelection], Transition::Mode(Mode::Insert))
    } else if is_char(i, 'p') {
        (seq![EditOp::Paste], Transition::Mode(Mode::Normal))
    } else if is_plain_char(i, 'u') {
        (seq![EditOp::Undo], Transition::Mode(Mode::Normal))
    } else if is_ctrl_char(i, 'r') {
        (seq![EditOp::Redo], Transition::Mode(Mode::Normal))
    } else if is_char(i, 'x') {
        (seq![EditOp::DeleteNextChar], Transition::Mode(Mode::Normal))
    } else if is_char(i, 'i') {
        (seq![EditOp::CancelSelection], Transition::Mode(Mode::Insert))
    } else if is_char(i, 'a') {
        (seq![EditOp::CancelSelection, EditOp::Move(CursorMove::Forward)], Transition::Mode(Mode::Insert))
    } else if is_char(i, 'A') {
        (seq![EditOp::CancelSelection, EditOp::Move(CursorMove::End)], Transition::Mode(Mode::Insert))
    } else if is_char(i, 'o') {
        (seq![EditOp::Move(CursorMove::End), EditOp::InsertNewline], Transition::Mode(Mode::Insert))
    } else if is_char(i, 'O') {
        (
            seq![EditOp::Move(CursorMove::Head), EditOp::InsertNewline, EditOp::Move(CursorMove::Up)],
            Transition::Mode(Mode::Insert),
        )
    } else if is_char(i, 'I') {
        (seq![EditOp::CancelSelection, EditOp::Move(CursorMove::Head)], Transition::Mode(Mode::Insert))
    } else if is_char(i, 'q') {
        (Seq::<EditOp>::empty(), Transition::Quit)
    } else if is_ctrl_char(i, 'e') {
        sc(ScrollStep::LineDown)
    } else if is_ctrl_char(i, 'y') {
        sc(ScrollStep::LineUp)
    } else if is_ctrl_char(i, 'd') {
        sc(ScrollStep::HalfPageDown)
    } else if is_ctrl_char(i, 'u') {
        sc(ScrollStep::HalfPageUp)
    } else if is_ctrl_char(i, 'f') {
        sc(ScrollStep::PageDown)
    } else if is_ctrl_char(i, 'b') {
        sc(ScrollStep::PageUp)
    } else if is_plain_char(i, 'v') && mode == Mode::Normal {
        (seq![EditOp::StartSelection], Transition::Mode(Mode::Visual))
    } else if is_plain_char(i, 'V') && mode == Mode::Normal {
        (
            seq![EditOp::Move(CursorMove::Head), EditOp::StartSelection, EditOp::Move(CursorMove::End)],
            Transition::Mode(Mode::Visual),
        )
    } else if (i.key == Key::Esc || is_plain_char(i, 'v')) && mode == Mode::Visual {
        (seq![EditOp::CancelSelection], Transition::Mode(Mode::Normal))
    } else if is_plain_char(i, 'g') && is_plain_char(pending, 'g') {
        mv(CursorMove::Top)
    } else if is_plain_char(i, 'G') {
        mv(CursorMove::Bottom)
    } else if i.key is Char && !i.ctrl && mode == Mode::Operator(i.key->Char_0) {
        finish_operator(mode, seq![EditOp::SelectLine])
    } else if i.key is Char && !i.ctrl && mode == Mode::Normal
        && (i.key->Char_0 == 'y' || i.key->Char_0 == 'd' || i.key->Char_0 == 'c') {
        (seq![EditOp::StartSelection], Transition::Mode(Mode::Operator(i.key->Char_0)))
    } else if is_plain_char(i, 'y') && mode == Mode::Visual {
        (seq![EditOp::Move(CursorMove::Forward), EditOp::Copy], Transition::Mode(Mode::Normal))
    } else if is_plain_char(i, 'd') && mode == Mode::Visual {
        (seq![EditOp::Move(CursorMove::Forward), EditOp::Cut], Transition::Mode(Mode::Normal))
    } else if is_plain_char(i, 'c') && mode == Mode::Visual {
        (seq![EditOp::Move(CursorMove::Forward), EditOp::Cut], Transition::Mode(Mode::Insert))
    } else {
        (Seq::<EditOp>::empty(), Transition::Pending(i))
    }
}

/// What the editor does with an input in a mode, given the pending input:
/// the operations on the text area, in order, and the transition.
pub open spec fn vim_step(mode: Mode, pending: Input, i: Input) -> (Seq<EditOp>, Transition) {
    if i.key == Key::Null {
        (Seq::<EditOp>::empty(), Transition::Nop)
    } else {
        match mode {
            Mode::Insert => {
                if i.key == Key::Esc || is_ctrl_char(i, 'c') {
                    (Seq::<EditOp>::empty(), Transition::Mode(Mode::Normal))
                } else {
                    (seq![EditOp::TypeKey], Transition::Mode(Mode::Insert))
                }
            },
            _ => command_step(mode, pending, i),
        }
    }
}

fn finish_operator_exec(mode: Mode, ops: Vec<EditOp>) -> (r: (Vec<EditOp>, Transition))
    ensures
        (r.0@, r.1) == finish_operator(mode, ops@),
{
    let mut ops = ops;
    match mode {
        Mode::Operator('y') => {
            ops.push(EditOp::Copy);
            (ops, Transition::Mode(Mode::Normal))
        },
        Mode::Operator('d') => {
            ops.push(EditOp::Cut);
            (ops, Transition::Mode(Mode::Normal))
        },
        Mode::Operator('c') => {
            ops.push(EditOp::Cut);
            (ops, Transition::Mode(Mode::Insert))
        },
        _ => (ops, Transition::Nop),
    }
}

fn after_move(mode: Mode, m: CursorMove) -> (r: (Vec<EditOp>, Transition))
    ensures
        (r.0@, r.1) == finish_operator(mode, seq![EditOp::Move(m)]),
{
    let mut ops: Vec<EditOp> = Vec::new();
    ops.push(EditOp::Move(m));
    assert(ops@ == seq![EditOp::Move(m)]);
    finish_operator_exec(mode, ops)
}

fn after_scroll(mode: Mode, s: ScrollStep) -> (r: (Vec<EditOp>, Transition))
    ensures
        (r.0@, r.1) == finish_operator(mode, seq![EditOp::Scroll(s)]),
{
    let mut ops: Vec<EditOp> = Vec::new();
    ops.push(EditOp::Scroll(s));
    assert(ops@ == seq![EditOp::Scroll(s)]);
    finish_operator_exec(mode, ops)
}

fn ops1(a: EditOp) -> (r: Vec<EditOp>)
    ensures
        r@ == seq![a],
{
    let mut v: Vec<EditOp> = Vec::new();
    v.push(a);
    v
}

fn ops2(a: EditOp, b: EditOp) -> (r: Vec<EditOp>)
    ensures
        r@ == seq![a, b],
{
    let mut v: Vec<EditOp> = Vec::new();
    v.push(a);
    v.push(b);
    v
}

fn ops3(a: EditOp, b: EditOp, c: EditOp) -> (r: Vec<EditOp>)
    ensures
        r@ == seq![a, b, c],
{
    let mut v: Vec<EditOp> = Vec::new();
    v.push(a);
    v.push(b);
    v.push(c);
    v
}

/// The editor's decision for an input (see `vim_step`).
pub fn vim_plan(mode: Mode, pending: Input, i: Input) -> (r: (Vec<EditOp>, Transition))
    ensures
        (r.0@, r.1) == vim_step(mode, pending, i),
{
    if i.key == Key::Null {
        return (Vec::new(), Transition::Nop);
    }
    if mode == Mode::Insert {
        return if i.key == Key::Esc || (i.key == Key::Char('c') && i.ctrl) {
            (Vec::new(), Transition::Mode(Mode::Normal))
        } else {
            (ops1(EditOp::TypeKey), Transition::Mode(Mode::Insert))
        };
    }
    let is_operator = match mode {
        Mode::Operator(_) => true,
        _ => false,
    };
    match i.key {
        Key::Char('h') => after_move(mode, CursorMove::Back),
        Key::Char('j') => after_move(mode, CursorMove::Down),
        Key::Char('k') => after_move(mode, CursorMove::Up),
        Key::Char('l') => after_move(mode, CursorMove::Forward),
        Key::Char('w') => after_move(mode, CursorMove::WordForward),
        Key::Char('e') if !i.ctrl => {
            if is_operator {
                finish_operator_exec(mode, ops2(EditOp::Move(CursorMove::WordEnd), EditOp::Move(CursorMove::Forward)))
            } else {
                after_move(mode, CursorMove::WordEnd)
            }
        },
        Key::Char('b') if !i.ctrl => after_move(mode, CursorMove::WordBack),
        Key::Char('^') => after_move(mode, CursorMove::Head),
        Key::Char('$') => after_move(mode, CursorMove::End),
        Key::Char('D') => (ops1(EditOp::DeleteLineByEnd), Transition::Mode(Mode::Normal)),
        Key::Char('C') => (ops2(EditOp::DeleteLineByEnd, EditOp::CancelSelection), Transition::Mode(Mode::Insert)),
        Key::Char('p') => (ops1(EditOp::Paste), Transition::Mode(Mode::Normal)),
        Key::Char('u') if !i.ctrl => (ops1(EditOp::Undo), Transition::Mode(Mode::Normal)),
        Key::Char('r') if i.ctrl => (ops1(EditOp::Redo), Transition::Mode(Mode::Normal)),
        Key::Char('x') => (ops1(EditOp::DeleteNextChar), Transition::Mode(Mode::Normal)),
        Key::Char('i') => (ops1(EditOp::CancelSelection), Transition::Mode(Mode::Insert)),
        Key::Char('a') => (
            ops2(EditOp::CancelSelection, EditOp::Move(CursorMove::Forward)),
            Transition::Mode(Mode::Insert),
        ),
        Key::Char('A') => (
            ops2(EditOp::CancelSelection, EditOp::Move(CursorMove::End)),
            Transition::Mode(Mode::Insert),
        ),
        Key::Char('o') => (ops2(EditOp::Move(CursorMove::End), EditOp::InsertNewline), Transition::Mode(Mode::Insert)),
        Key::Char('O') => (
            ops3(EditOp::Move(CursorMove::Head), EditOp::InsertNewline, EditOp::Move(CursorMove::Up)),
            Transition::Mode(Mode::Insert),
        ),
        Key::Char('I') => (
            ops2(EditOp::CancelSelection, EditOp::Move(CursorMove::Head)),
            Transition::Mode(Mode::Insert),
        ),
        Key::Char('q') => (Vec::new(), Transition::Quit),
        Key::Char('e') if i.ctrl => after_scroll(mode, ScrollStep::LineDown),
        Key::Char('y') if i.ctrl => after_scroll(mode, ScrollStep::LineUp),
        Key::Char('d') if i.ctrl => after_scroll(mode, ScrollStep::HalfPageDown),
        Key::Char('u') if i.ctrl => after_scroll(mode, ScrollStep::HalfPageUp),
        Key::Char('f') if i.ctrl => after_scroll(mode, ScrollStep::PageDown),
        Key::Char('b') if i.ctrl => after_scroll(mode, ScrollStep::PageUp),
        Key::Char('v') if !i.ctrl && mode == Mode::Normal => (
            ops1(EditOp::StartSelection),
            Transition::Mode(Mode::Visual),
        ),
        Key::Char('V') if !i.ctrl && mode == Mode::Normal => (
            ops3(EditOp::Move(CursorMove::Head), EditOp::StartSelection, EditOp::Move(CursorMove::End)),
            Transition::Mode(Mode::Visual),
        ),
        Key::Esc if mode == Mode::Visual => (ops1(EditOp::CancelSelection), Transition::Mode(Mode::Normal)),
        Key::Char('v') if !i.ctrl && mode == Mode::Visual => (
            ops1(EditOp::CancelSelection),
            Transition::Mode(Mode::Normal),
        ),
        Key::Char('g') if !i.ctrl && pending.key == Key::Char('g') && !pending.ctrl => after_move(mode, CursorMove::Top),
        Key::Char('G') if !i.ctrl => after_move(mode, CursorMove::Bottom),
        Key::Char(c) if !i.ctrl && mode == Mode::Operator(c) => finish_operator_exec(mode, ops1(EditOp::SelectLine)),
        Key::Char(c) if !i.ctrl && mode == Mode::Normal && (c == 'y' || c == 'd' || c == 'c') => (
            ops1(EditOp::StartSelection),
            Transition::Mode(Mode::Operator(c)),
        ),
        Key::Char('y') if !i.ctrl && mode == Mode::Visual => (
            ops2(EditOp::Move(CursorMove::Forward), EditOp::Copy),
            Transition::Mode(Mode::Normal),
        ),
        Key::Char('d') if !i.ctrl && mode == Mode::Visual => (
            ops2(EditOp::Move(CursorMove::Forward), EditOp::Cut),
            Transition::Mode(Mode::Normal),
        ),
        Key::Char('c') if !i.ctrl && mode == Mode::Visual => (
            ops2(EditOp::Move(CursorMove::Forward), EditOp::Cut),
            Transition::Mode(Mode::Insert),
        ),
        _ => (Vec::new(), Transition::Pending(i)),
    }
}

/// Carries out one operation on the text area.
fn apply_op(t: &mut TextBox, op: EditOp, key: &KeyPress)
    ensures
        keeps_text(op) ==> textbox_lines(*final(t)) == textbox_lines(*old(t)),
        op_done(op, key.input, text_state(*old(t)), text_state(*final(t))),
{
    match op {
        EditOp::Move(m) => textbox_move_cursor(t, m),
        EditOp::Scroll(s) => textbox_scroll(t, s),
        EditOp::StartSelection => textbox_start_selection(t),
        EditOp::CancelSelection => textbox_cancel_selection(t),
        EditOp::Copy => textbox_copy(t),
        EditOp::Cut => {
            textbox_cut(t);
        },
        EditOp::Paste => {
            textbox_paste(t);
        },
        EditOp::Undo => {
            textbox_undo(t);
        },
        EditOp::Redo => {
            textbox_redo(t);
        },
        EditOp::DeleteLineByEnd => {
            textbox_delete_line_by_end(t);
        },
        EditOp::DeleteNextChar => {
            textbox_delete_next_char(t);
        },
        EditOp::InsertNewline => textbox_insert_newline(t),
        EditOp::SelectLine => {
            textbox_move_cursor(t, CursorMove::Head);
            textbox_start_selection(t);
            let (row, col) = textbox_cursor(t);
            textbox_move_cursor(t, CursorMove::Down);
            let (row2, col2) = textbox_cursor(t);
            if row == row2 && col == col2 {
                textbox_move_cursor(t, CursorMove::End);
            }
        },
        EditOp::TypeKey => {
            textbox_input(t, key.input);
        },
    }
}

/// In normal and visual mode `j` moves the cursor one line down and `k`
/// one line up, never off the text: given what a transition on such a key
/// did (its result `r`, and states `st` that the text area ran through
/// from the editor `a` to the editor `b`), the lines stay, no mode change
/// is asked for, and the cursor's row after `j` is the next row, or the
/// same on the last row; after `k` the row above, or the same on the first
/// row.
pub proof fn law_j_down_k_up(a: VimModel, b: VimModel, i: Input, r: Transition, st: Seq<TextState>)
    requires
        a.mode == Mode::Normal || a.mode == Mode::Visual,
        i.key == Key::Char('j') || i.key == Key::Char('k'),
        r == vim_step(a.mode, a.pending, i).1,
        ops_done(vim_step(a.mode, a.pending, i).0, i, st),
        st[0] == a.text,
        st.last() == b.text,
    ensures
        r == Transition::Nop,
        b.text.lines == a.text.lines,
        i.key == Key::Char('j') ==> b.text.cursor.0 == (if a.text.cursor.0 + 1 < a.text.lines.len() {
            a.text.cursor.0 + 1
        } else {
            a.text.cursor.0 as int
        }),
        i.key == Key::Char('k') ==> b.text.cursor.0 == (if a.text.cursor.0 > 0 {
            a.text.cursor.0 - 1
        } else {
            a.text.cursor.0 as int
        }),
{
    let m = if i.key == Key::Char('j') { CursorMove::Down } else { CursorMove::Up };
    assert(vim_step(a.mode, a.pending, i) == (seq![EditOp::Move(m)], Transition::Nop));
    let ops = seq![EditOp::Move(m)];
    assert(op_done(ops[0], i, st[0], st[1]));
    assert(st.last() == st[1]);
    assert(text_ok(b.text));
}

/// In normal and visual mode `l` moves the cursor one character right and
/// `h` one character left, along the text: the lines stay, no mode change
/// is asked for; `l` steps to the next column within the line, from a
/// line's end to the head of the next line, and nowhere at the very end;
/// `h` steps to the previous column, from a line's head to the end of the
/// line above, and nowhere at the very start (each line's length fitting a
/// `usize`, as a line of text does).
pub proof fn law_h_left_l_right(a: VimModel, b: VimModel, i: Input, r: Transition, st: Seq<TextState>)
    requires
        a.mode == Mode::Normal || a.mode == Mode::Visual,
        i.key == Key::Char('h') || i.key == Key::Char('l'),
        forall|k: int| 0 <= k < a.text.lines.len() ==> #[trigger] a.text.lines[k].len() <= usize::MAX,
        r == vim_step(a.mode, a.pending, i).1,
        ops_done(vim_step(a.mode, a.pending, i).0, i, st),
        st[0] == a.text,
        st.last() == b.text,
    ensures
        r == Transition::Nop,
        b.text.lines == a.text.lines,
        ({
            let row = a.text.cursor.0 as int;
            let col = a.text.cursor.1 as int;
            let ls = a.text.lines;
            &&& i.key == Key::Char('l') ==> (b.text.cursor.0 as int, b.text.cursor.1 as int) == (if col < ls[row].len() {
                (row, col + 1)
            } else if row + 1 < ls.len() {
                (row + 1, 0)
            } else {
                (row, col)
            })
            &&& i.key == Key::Char('h') ==> (b.text.cursor.0 as int, b.text.cursor.1 as int) == (if col > 0 {
                (row, col - 1)
            } else if row > 0 {
                (row - 1, ls[row - 1].len() as int)
            } else {
                (row, col)
            })
        }),
{
    let m = if i.key == Key::Char('h') { CursorMove::Back } else { CursorMove::Forward };
    assert(vim_step(a.mode, a.pending, i) == (seq![EditOp::Move(m)], Transition::Nop));
    let ops = seq![EditOp::Move(m)];
    assert(op_done(ops[0], i, st[0], st[1]));
    assert(st.last() == st[1]);
    assert(text_ok(b.text));
}

/// In normal and visual mode `^` and `$` take the cursor to the head and
/// the end of its line, `G` to the last line and `g` after a pending `g`
/// to the first, keeping the column where that line is long enough and
/// else going to its end; the lines stay and no mode change is asked for.
pub proof fn law_line_and_text_ends(a: VimModel, b: VimModel, i: Input, r: Transition, st: Seq<TextState>)
    requires
        a.mode == Mode::Normal || a.mode == Mode::Visual,
        (i.key == Key::Char('^') || i.key == Key::Char('$')) || (!i.ctrl && (i.key == Key::Char('G') || (i.key
            == Key::Char('g') && a.pending.key == Key::Char('g') && !a.pending.ctrl))),
        forall|k: int| 0 <= k < a.text.lines.len() ==> #[trigger] a.text.lines[k].len() <= usize::MAX,
        a.text.lines.len() >= 1,
        r == vim_step(a.mode, a.pending, i).1,
        ops_done(vim_step(a.mode, a.pending, i).0, i, st),
        st[0] == a.text,
        st.last() == b.text,
    ensures
        r == Transition::Nop,
        b.text.lines == a.text.lines,
        ({
            let row = a.text.cursor.0 as int;
            let col = a.text.cursor.1 as int;
            let ls = a.text.lines;
            let kept = |line: Seq<char>| if col <= line.len() { col } else { line.len() as int };
            &&& i.key == Key::Char('^') ==> b.text.cursor.0 == row && b.text.cursor.1 == 0
            &&& i.key == Key::Char('$') ==> b.text.cursor.0 == row && b.text.cursor.1 == ls[row].len()
            &&& i.key == Key::Char('G') ==> b.text.cursor.0 == ls.len() - 1 && b.text.cursor.1 == kept(ls.last())
            &&& i.key == Key::Char('g') ==> b.text.cursor.0 == 0 && b.text.cursor.1 == kept(ls[0])
        }),
{
    let m = if i.key == Key::Char('^') {
        CursorMove::Head
    } else if i.key == Key::Char('$') {
        CursorMove::End
    } else if i.key == Key::Char('G') {
        CursorMove::Bottom
    } else {
        CursorMove::Top
    };
    assert(vim_step(a.mode, a.pending, i) == (seq![EditOp::Move(m)], Transition::Nop));
    let ops = seq![EditOp::Move(m)];
    assert(op_done(ops[0], i, st[0], st[1]));
    assert(st.last() == st[1]);
    assert(text_ok(b.text));
    assert(a.text.lines.last() == a.text.lines[a.text.lines.len() - 1]);
}

/// `dd` deletes the cursor's line: in the mode that waits for the motion
/// of `d`, a second `d` takes the line out when a line follows it, and
/// empties it when it is the last; normal mode comes next.
pub proof fn law_dd_deletes_the_line(a: VimModel, b: VimModel, i: Input, r: Transition, st: Seq<TextState>)
    requires
        a.mode == Mode::Operator('d'),
        i.key == Key::Char('d') && !i.ctrl,
        text_ok(a.text),
        forall|k: int| 0 <= k < a.text.lines.len() ==> #[trigger] a.text.lines[k].len() <= usize::MAX,
        r == vim_step(a.mode, a.pending, i).1,
        ops_done(vim_step(a.mode, a.pending, i).0, i, st),
        st[0] == a.text,
        st.last() == b.text,
    ensures
        r == Transition::Mode(Mode::Normal),
        ({
            let row = a.text.cursor.0 as int;
            let ls = a.text.lines;
            &&& row + 1 < ls.len() ==> b.text.lines == ls.remove(row)
            &&& row + 1 == ls.len() ==> b.text.lines == ls.update(row, Seq::<char>::empty())
        }),
{
    assert(vim_step(a.mode, a.pending, i) == (seq![EditOp::SelectLine, EditOp::Cut], Transition::Mode(Mode::Normal)));
    let ops = seq![EditOp::SelectLine, EditOp::Cut];
    assert(op_done(ops[0], i, st[0], st[1]));
    assert(op_done(ops[1], i, st[1], st[2]));
    assert(st.last() == st[2]);
    let row = a.text.cursor.0 as int;
    let ls = a.text.lines;
    let t1 = st[1];
    assert(t1.lines == ls);
    assert(selection_known(t1));
    if row + 1 < ls.len() {
        assert(t1.selection == Some(((a.text.cursor.0, 0usize), ((row + 1) as usize, 0usize))));
        let rg = ((a.text.cursor.0, 0usize), ((row + 1) as usize, 0usize));
        assert(selects_text(t1));
        assert(ls[row].take(0) + ls[row + 1].skip(0) =~= ls[row + 1]);
        assert(cut_span(ls, rg) == ls.take(row).push(ls[row].take(0) + ls[row + 1].skip(0)) + ls.skip(row + 2));
        assert(ls.take(row).push(ls[row + 1]) + ls.skip(row + 2) =~= ls.remove(row));
        assert(b.text.lines == cut_span(ls, rg));
    } else {
        let end = (a.text.cursor.0, ls[row].len() as usize);
        assert(t1.selection == Some(((a.text.cursor.0, 0usize), end)));
        if ls[row].len() > 0 {
            assert(ls[row].len() <= usize::MAX);
            assert(fit_col(ls[row].len() as usize, ls[row]) == ls[row].len());
            assert(selects_text(t1));
            assert(ls[row].take(0) + ls[row].skip(ls[row].len() as int) =~= Seq::<char>::empty());
            assert(cut_span(ls, (t1.selection->Some_0)) == ls.take(row).push(ls[row].take(0) + ls[row].skip(
                ls[row].len() as int,
            )) + ls.skip(row + 1));
            assert(ls.take(row).push(Seq::<char>::empty()) + ls.skip(row + 1) =~= ls.update(row, Seq::<char>::empty()));
        } else {
            assert(!selects_text(t1));
            assert(ls[row] =~= Seq::<char>::empty());
            assert(ls.update(row, Seq::<char>::empty()) =~= ls);
        }
    }
}

/// The editor as plain values.
pub struct VimModel {
    pub mode: Mode,
    pub pending: Input,
    pub focused: bool,
    pub text: TextState,
}

/// The Vim-style editor.
pub struct Vim {
    pub mode: Mode,
    pending: Input,
    pub textarea: TextBox,
    focused: bool,
}

impl View for Vim {
    type V = VimModel;

    closed spec fn view(&self) -> VimModel {
        VimModel { mode: self.mode, pending: self.pending, focused: self.focused, text: text_state(self.textarea) }
    }
}

impl Vim {
    /// An empty editor in the given mode.
    pub fn new(mode: Mode) -> (r: Vim)
        ensures
            r@ == (VimModel {
                mode: mode,
                pending: Input { key: Key::Null, ctrl: false, alt: false, shift: false },
                focused: false,
                text: TextState { lines: seq![Seq::<char>::empty()], cursor: (0usize, 0usize), selection: None },
            }),
    {
        let mut lines: Vec<String> = Vec::new();
        lines.push(String::new());
        assert(lines@.map_values(|l: String| l@) =~= seq![Seq::<char>::empty()]);
        Vim { mode, pending: Input::null(), textarea: new_textbox(lines), focused: false }
    }

    /// The same editor with another pending input.
    pub fn with_pending(self, pending: Input) -> (r: Vim)
        ensures
            r@ == (VimModel { pending: pending, ..self@ }),
    {
        Vim { mode: self.mode, pending, textarea: self.textarea, focused: self.focused }
    }

    /// Carries out the decision of `vim_step` for a key press and returns
    /// the transition; the mode itself is left to the caller to change.
    pub fn transition(&mut self, key: &KeyPress) -> (r: Transition)
        ensures
            r == vim_step(old(self)@.mode, old(self)@.pending, key.input).1,
            final(self)@.mode == old(self)@.mode,
            final(self)@.pending == old(self)@.pending,
            final(self)@.focused == old(self)@.focused,
            exists|st: Seq<TextState>| #[trigger] ops_done(vim_step(old(self)@.mode, old(self)@.pending, key.input).0, key.input, st)
                && st[0] == old(self)@.text && st.last() == final(self)@.text,
            (forall|j: int| 0 <= j < vim_step(old(self)@.mode, old(self)@.pending, key.input).0.len()
                ==> keeps_text(#[trigger] vim_step(old(self)@.mode, old(self)@.pending, key.input).0[j]))
                ==> final(self)@.text.lines == old(self)@.text.lines,
    {
        let (ops, t) = vim_plan(self.mode, self.pending, key.input);
        let ghost lines0 = textbox_lines(self.textarea);
        let ghost mut st: Seq<TextState> = seq![text_state(self.textarea)];
        let mut j: usize = 0;
        while j < ops.len()
            invariant
                j <= ops.len(),
                self.mode == old(self).mode,
                self.pending == old(self).pending,
                self.focused == old(self).focused,
                lines0 == textbox_lines(old(self).textarea),
                (forall|k: int| 0 <= k < j ==> keeps_text(#[trigger] ops@[k])) ==> textbox_lines(self.textarea) == lines0,
                st.len() == j + 1,
                st[0] == text_state(old(self).textarea),
                st[j as int] == text_state(self.textarea),
                forall|k: int| 0 <= k < j ==> op_done(#[trigger] ops@[k], key.input, st[k], st[k + 1]),
            decreases ops.len() - j,
        {
            apply_op(&mut self.textarea, ops[j], key);
            proof {
                st = st.push(text_state(self.textarea));
            }
            j = j + 1;
        }
        proof {
            assert(ops_done(ops@, key.input, st));
        }
        proof {
            let plan = vim_step(old(self)@.mode, old(self)@.pending, key.input);
            assert(ops@ == plan.0);
            if forall|k: int| 0 <= k < plan.0.len() ==> keeps_text(#[trigger] plan.0[k]) {
                assert(forall|k: int| 0 <= k < ops@.len() ==> keeps_text(#[trigger] ops@[k]));
            }
        }
        t
    }

    /// Takes the focus, the cursor going to the end of its line.
    pub fn focus(&mut self)
        ensures
            final(self)@ == (VimModel {
                focused: true,
                text: TextState {
                    cursor: moved_to(CursorMove::End, old(self)@.text.lines, old(self)@.text.cursor),
                    selection: carried(
                        old(self)@.text.selection,
                        old(self)@.text.cursor,
                        moved_to(CursorMove::End, old(self)@.text.lines, old(self)@.text.cursor),
                    ),
                    ..old(self)@.text
                },
                ..old(self)@
            }),
    {
        textbox_move_cursor(&mut self.textarea, CursorMove::End);
        self.focused = true;
    }

    pub fn unfocus(&mut self)
        ensures
            final(self)@ == (VimModel { focused: false, ..old(self)@ }),
    {
        self.focused = false;
    }

    pub fn is_focused(&self) -> (r: bool)
        ensures
            r == self@.focused,
    {
        self.focused
    }
}

} // verus!
