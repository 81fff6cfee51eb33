//! The screen's arithmetic: the widths of the three columns, which tab is
//! highlighted, the reply status line, and where the request's name sits.
use vstd::prelude::*;
use crate::text::{decimal, push_decimal, push_str, string_from};

verus! {

/// The percentages of the screen width given to the explorer, the request
/// and the reply: 18 for a shown explorer, half of the rest for a shown
/// reply (rounded down), the request takes what remains.
pub open spec fn column_widths(show_explorer: bool, show_response: bool) -> (u16, u16, u16) {
    let explorer: u16 = if show_explorer { 18 } else { 0 };
    let response: u16 = if show_response { ((100 - explorer) / 2) as u16 } else { 0 };
    (explorer, (100 - explorer - response) as u16, response)
}

/// The column percentages; see `column_widths`.
pub fn app_columns(show_explorer: bool, show_response: bool) -> (r: (u16, u16, u16))
    ensures
        r == column_widths(show_explorer, show_response),
        r.0 + r.1 + r.2 == 100,
{
    let explorer: u16 = if show_explorer { 18 } else { 0 };
    let response: u16 = if show_response { (100 - explorer) / 2 } else { 0 };
    (explorer, 100 - explorer - response, response)
}

/// One tab title and whether it is the selected tab.
pub struct Tab {
    pub label: String,
    pub selected: bool,
}

/// The titles of the request tabs.
pub open spec fn request_labels() -> Seq<Seq<char>> {
    seq!["Params"@, "Headers"@, "Body"@]
}

/// The titles of the reply tabs.
pub open spec fn response_labels() -> Seq<Seq<char>> {
    seq!["Response"@, "Headers"@, "Cookies"@]
}

/// The tabs with the given titles, tab `selected` highlighted.
pub open spec fn tabs_shown(labels: Seq<Seq<char>>, tabs: Seq<Tab>, selected: usize) -> bool {
    &&& tabs.len() == labels.len()
    &&& forall|i: int| 0 <= i < tabs.len() ==> (#[trigger] tabs[i]).label@ == labels[i] && tabs[i].selected == (i
        == selected)
}

fn three_tabs(a: &str, b: &str, c: &str, selected: usize) -> (r: Vec<Tab>)
    ensures
        tabs_shown(seq![a@, b@, c@], r@, selected),
{
    let mut r: Vec<Tab> = Vec::new();
    r.push(Tab { label: string_from(a), selected: selected == 0 });
    r.push(Tab { label: string_from(b), selected: selected == 1 });
    r.push(Tab { label: string_from(c), selected: selected == 2 });
    r
}

/// The request tabs, the one of editor `current_focus` highlighted.
pub fn request_tabs(current_focus: usize) -> (r: Vec<Tab>)
    ensures
        tabs_shown(request_labels(), r@, current_focus),
{
    three_tabs("Params", "Headers", "Body", current_focus)
}

/// The reply tabs, the one of pane `current_focus` highlighted.
pub fn response_tabs(current_focus: usize) -> (r: Vec<Tab>)
    ensures
        tabs_shown(response_labels(), r@, current_focus),
{
    three_tabs("Response", "Headers", "Cookies", current_focus)
}

/// The spinner's frames.
pub open spec fn spinner_frame(i: usize) -> char {
    if i == 0 { '⠋' }
    else if i == 1 { '⠙' }
    else if i == 2 { '⠹' }
    else if i == 3 { '⠸' }
    else if i == 4 { '⠼' }
    else if i == 5 { '⠴' }
    else if i == 6 { '⠦' }
    else if i == 7 { '⠧' }
    else if i == 8 { '⠇' }
    else { '⠏' }
}

/// The status line of the reply: the spinner's frame while a request runs;
/// otherwise the status and the time in milliseconds, two spaces apart,
/// each where there is one.
pub open spec fn status_line(
    is_loading: bool,
    spinner_state: usize,
    status: Option<Seq<char>>,
    time: Option<u128>,
) -> Seq<char> {
    if is_loading {
        seq![spinner_frame(spinner_state)]
    } else {
        let s = match status {
            Some(t) => t,
            None => Seq::<char>::empty(),
        };
        match time {
            Some(ms) => (if s.len() > 0 { s + "  "@ } else { s }) + decimal(ms as nat) + "ms"@,
            None => s,
        }
    }
}

/// The reply's status line; see `status_line`.
pub fn status_text(is_loading: bool, spinner_state: usize, status: &Option<String>, time: Option<u128>) -> (r: String)
    requires
        is_loading ==> spinner_state < 10,
    ensures
        r@ == status_line(is_loading, spinner_state, crate::text::option_view(*status), time),
{
    let mut text = String::new();
    if is_loading {
        let c = if spinner_state == 0 { '⠋' }
            else if spinner_state == 1 { '⠙' }
            else if spinner_state == 2 { '⠹' }
            else if spinner_state == 3 { '⠸' }
            else if spinner_state == 4 { '⠼' }
            else if spinner_state == 5 { '⠴' }
            else if spinner_state == 6 { '⠦' }
            else if spinner_state == 7 { '⠧' }
            else if spinner_state == 8 { '⠇' }
            else { '⠏' };
        crate::text::push_char(&mut text, c);
        return text;
    }
    match status {
        Some(t) => push_str(&mut text, t.as_str()),
        None => {},
    }
    match time {
        Some(ms) => {
            if !text.as_str().is_empty() {
                push_str(&mut text, "  ");
            }
            push_decimal(&mut text, ms);
            push_str(&mut text, "ms");
        },
        None => {},
    }
    text
}

/// Where the request's name is drawn on the title row at `x`, `width`
/// wide: at least 20 columns wide (more for a longer name), centred, and
/// no wider than the row.
pub open spec fn name_span(x: u16, width: u16, text_width: u16) -> (u16, u16) {
    let actual: u16 = if text_width > 20 { text_width } else { 20 };
    let start: u16 = if actual < width { (x + (width - actual) / 2) as u16 } else { x };
    (start, if actual < width { actual } else { width })
}

/// The name's column and width on the title row; see `name_span`.
pub fn name_area(x: u16, width: u16, text_width: u16) -> (r: (u16, u16))
    requires
        x + width <= u16::MAX,
    ensures
        r == name_span(x, width, text_width),
        r.0 + r.1 <= x + width,
{
    let actual: u16 = if text_width > 20 { text_width } else { 20 };
    let start: u16 = if actual < width { x + (width - actual) / 2 } else { x };
    (start, if actual < width { actual } else { width })
}

} // verus!
