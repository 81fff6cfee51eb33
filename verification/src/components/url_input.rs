//! The single-line URL field.
use vstd::prelude::*;
use crate::keys::{Key, KeyPress};
use crate::textarea::{
    new_textbox, textbox_input, textbox_lines, textbox_lines_vec, textbox_move_cursor, CursorMove, TextBox,
};
use crate::textarea::{key_typed, selection_known, text_state, to_line_end, TextState};

verus! {

/// A text field as plain values: whether it has the focus, and its lines.
pub struct FieldModel {
    pub focused: bool,
    pub lines: Seq<Seq<char>>,
}

/// The URL field.
pub struct UrlInput {
    pub textarea: TextBox,
    focused: bool,
}

impl View for UrlInput {
    type V = FieldModel;

    closed spec fn view(&self) -> FieldModel {
        FieldModel { focused: self.focused, lines: textbox_lines(self.textarea) }
    }
}

/// Whether the URL field lets a key through to its text: `m` and Enter
/// are held back so that the field stays one line.
pub open spec fn url_accepts(key: Key) -> bool {
    !(key == Key::Char('m') || key == Key::Enter)
}

impl UrlInput {
    /// The field's text area as plain values; its lines are the view's.
    pub closed spec fn text(&self) -> TextState {
        text_state(self.textarea)
    }

    pub fn new() -> (r: UrlInput)
        ensures
            r@ == (FieldModel { focused: false, lines: seq![Seq::<char>::empty()] }),
    {
        UrlInput { textarea: new_textbox(Vec::new()), focused: false }
    }

    /// Hands a key to the field; returns whether the field took it.
    pub fn handle_key(&mut self, key: &KeyPress) -> (r: bool)
        ensures
            old(self)@.lines == old(self).text().lines,
            final(self)@.lines == final(self).text().lines,
            r ==> (selection_known(old(self).text()) ==> key_typed(
                key.input,
                old(self).text(),
                final(self).text(),
            )),
            r == url_accepts(key.input.key),
            final(self)@.focused == old(self)@.focused,
            !r ==> final(self)@ == old(self)@,
    {
        match key.input.key {
            Key::Char('m') | Key::Enter => false,
            _ => {
                textbox_input(&mut self.textarea, key.input);
                true
            },
        }
    }

    /// The first line of the field.
    pub fn get_input(self) -> (r: String)
        ensures
            r@ == self@.lines[0],
    {
        self.get_text()
    }

    /// The first line of the field.
    pub fn get_text(&self) -> (r: String)
        ensures
            r@ == self@.lines[0],
    {
        let lines = textbox_lines_vec(&self.textarea);
        assert(lines@.map_values(|l: String| l@)[0] == lines@[0]@);
        lines[0].clone()
    }

    /// Replaces the field's text by one line.
    pub fn set_text(&mut self, text: String)
        ensures
            final(self)@ == (FieldModel { lines: seq![text@], ..old(self)@ }),
    {
        let mut lines: Vec<String> = Vec::new();
        let ghost t = text@;
        lines.push(text);
        self.textarea = new_textbox(lines);
        assert(lines@.map_values(|l: String| l@) =~= seq![t]);
    }

    /// Empties the field.
    pub fn clear(&mut self)
        ensures
            final(self)@ == (FieldModel { lines: seq![Seq::<char>::empty()], ..old(self)@ }),
    {
        self.textarea = new_textbox(Vec::new());
    }

    /// Takes the focus, with the cursor at the end of the line.
    pub fn focus(&mut self)
        ensures
            final(self)@ == (FieldModel { focused: true, ..old(self)@ }),
            final(self).text() == to_line_end(old(self).text()),
    {
        textbox_move_cursor(&mut self.textarea, CursorMove::End);
        self.focused = true;
        proof {
            reveal(to_line_end);
        }
    }

    pub fn unfocus(&mut self)
        ensures
            final(self)@ == (FieldModel { focused: false, ..old(self)@ }),
    {
        self.focused = false;
    }

    pub fn is_focused(&self) -> (r: bool)
        ensures
            r == self@.focused,
    {
        self.focused
    }
}

} // verus!
