//! The popup where a cURL command is pasted.
use vstd::prelude::*;
use crate::components::url_input::FieldModel;
use crate::keys::{Input, Key, KeyPress};
use crate::text::{join, join_strings};
use crate::textarea::{new_textbox, textbox_input, textbox_lines, textbox_lines_vec, textbox_move_cursor, CursorMove, TextBox};
use crate::textarea::{key_typed, selection_known, text_state, to_line_end, TextState};

verus! {

pub struct CurlPopup {
    pub textarea: TextBox,
    focused: bool,
}

impl View for CurlPopup {
    type V = FieldModel;

    closed spec fn view(&self) -> FieldModel {
        FieldModel { focused: self.focused, lines: textbox_lines(self.textarea) }
    }
}

/// Whether a key closes the popup: Esc, or Alt+Enter (which also imports).
pub open spec fn curl_popup_closes(input: Input) -> bool {
    input.key == Key::Esc || (input.key == Key::Enter && input.alt)
}

impl CurlPopup {
    /// The field's text area as plain values; its lines are the view's.
    pub closed spec fn text(&self) -> TextState {
        text_state(self.textarea)
    }

    pub fn new() -> (r: CurlPopup)
        ensures
            r@ == (FieldModel { focused: false, lines: seq![Seq::<char>::empty()] }),
    {
        CurlPopup { textarea: new_textbox(Vec::new()), focused: false }
    }

    /// Takes the focus, with the cursor at the end of the line.
    pub fn focus(&mut self)
        ensures
            final(self)@ == (FieldModel { focused: true, ..old(self)@ }),
            final(self).text() == to_line_end(old(self).text()),
    {
        textbox_move_cursor(&mut self.textarea, CursorMove::End);
        self.focused = true;
        proof {
            reveal(to_line_end);
        }
    }

    pub fn unfocus(&mut self)
        ensures
            final(self)@ == (FieldModel { focused: false, ..old(self)@ }),
    {
        self.focused = false;
    }

    pub fn is_focused(&self) -> (r: bool)
        ensures
            r == self@.focused,
    {
        self.focused
    }

    /// Empties the popup's text.
    pub fn clear(&mut self)
        ensures
            final(self)@ == (FieldModel { lines: seq![Seq::<char>::empty()], ..old(self)@ }),
    {
        self.textarea = new_textbox(Vec::new());
    }

    /// The pasted command: the lines joined with newlines.
    pub fn get_input(&self) -> (r: String)
        ensures
            r@ == join(self@.lines, "\n"@),
    {
        let lines = textbox_lines_vec(&self.textarea);
        join_strings(&lines, "\n")
    }

    /// Hands a key to the popup; returns whether the popup should close.
    /// Other keys go to the text.
    pub fn handle_key(&mut self, key: &KeyPress) -> (r: bool)
        ensures
            old(self)@.lines == old(self).text().lines,
            final(self)@.lines == final(self).text().lines,
            !r ==> (selection_known(old(self).text()) ==> key_typed(
                key.input,
                old(self).text(),
                final(self).text(),
            )),
            r == curl_popup_closes(key.input),
            final(self)@.focused == old(self)@.focused,
            r ==> final(self)@ == old(self)@,
    {
        match key.input {
            Input { key: Key::Esc, .. } => true,
            Input { key: Key::Enter, alt: true, .. } => true,
            _ => {
                textbox_input(&mut self.textarea, key.input);
                false
            },
        }
    }
}

} // verus!
