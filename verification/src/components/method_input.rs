//! The single-line HTTP method field.
use vstd::prelude::*;
use crate::components::url_input::FieldModel;
use crate::keys::{Input, Key, KeyPress};
use crate::text::string_from;
use crate::textarea::{
    new_textbox, textbox_input, textbox_lines, textbox_lines_vec, textbox_move_cursor, CursorMove, TextBox,
};
use crate::textarea::{key_typed, selection_known, text_state, to_line_end, TextState};

verus! {

/// The method field.
pub struct MethodInput {
    pub textarea: TextBox,
    focused: bool,
}

impl View for MethodInput {
    type V = FieldModel;

    closed spec fn view(&self) -> FieldModel {
        FieldModel { focused: self.focused, lines: textbox_lines(self.textarea) }
    }
}

/// Whether the method field lets an input through to its text: Ctrl+M and
/// Enter are held back so that the field stays one line.
pub open spec fn method_accepts(input: Input) -> bool {
    !((input.key == Key::Char('m') && input.ctrl) || input.key == Key::Enter)
}

impl MethodInput {
    /// The field's text area as plain values; its lines are the view's.
    pub closed spec fn text(&self) -> TextState {
        text_state(self.textarea)
    }

    /// A field holding `GET`.
    pub fn new() -> (r: MethodInput)
        ensures
            r@ == (FieldModel { focused: false, lines: seq!["GET"@] }),
    {
        let mut lines: Vec<String> = Vec::new();
        let get = string_from("GET");
        lines.push(get);
        assert(lines@.map_values(|l: String| l@) =~= seq!["GET"@]);
        MethodInput { textarea: new_textbox(lines), focused: false }
    }

    /// Hands a key to the field; returns whether the field took it.
    pub fn handle_key(&mut self, key: &KeyPress) -> (r: bool)
        ensures
            old(self)@.lines == old(self).text().lines,
            final(self)@.lines == final(self).text().lines,
            r ==> (selection_known(old(self).text()) ==> key_typed(
                key.input,
                old(self).text(),
                final(self).text(),
            )),
            r == method_accepts(key.input),
            final(self)@.focused == old(self)@.focused,
            !r ==> final(self)@ == old(self)@,
    {
        match key.input {
            Input { key: Key::Char('m'), ctrl: true, .. } | Input { key: Key::Enter, .. } => false,
            _ => {
                textbox_input(&mut self.textarea, key.input);
                true
            },
        }
    }

    /// The method: the first line of the field.
    pub fn get_method(self) -> (r: String)
        ensures
            r@ == self@.lines[0],
    {
        self.get_text()
    }

    /// The first line of the field.
    pub fn get_text(&self) -> (r: String)
        ensures
            r@ == self@.lines[0],
    {
        let lines = textbox_lines_vec(&self.textarea);
        assert(lines@.map_values(|l: String| l@)[0] == lines@[0]@);
        lines[0].clone()
    }

    /// Replaces the field's text by one line.
    pub fn set_text(&mut self, text: String)
        ensures
            final(self)@ == (FieldModel { lines: seq![text@], ..old(self)@ }),
    {
        let mut lines: Vec<String> = Vec::new();
        let ghost t = text@;
        lines.push(text);
        self.textarea = new_textbox(lines);
        assert(lines@.map_values(|l: String| l@) =~= seq![t]);
    }

    /// Empties the field.
    pub fn clear(&mut self)
        ensures
            final(self)@ == (FieldModel { lines: seq![Seq::<char>::empty()], ..old(self)@ }),
    {
        self.textarea = new_textbox(Vec::new());
    }

    /// Takes the focus, with the cursor at the end of the line.
    pub fn focus(&mut self)
        ensures
            final(self)@ == (FieldModel { focused: true, ..old(self)@ }),
            final(self).text() == to_line_end(old(self).text()),
    {
        textbox_move_cursor(&mut self.textarea, CursorMove::End);
        self.focused = true;
        proof {
            reveal(to_line_end);
        }
    }

    pub fn unfocus(&mut self)
        ensures
            final(self)@ == (FieldModel { focused: false, ..old(self)@ }),
    {
        self.focused = false;
    }

    pub fn is_focused(&self) -> (r: bool)
        ensures
            r == self@.focused,
    {
        self.focused
    }
}

} // verus!
