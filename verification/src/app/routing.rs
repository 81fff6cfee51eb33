//! Key presses: which command a key names, and what each command does to
//! the application.
use vstd::prelude::*;
use crate::app::{lemma_same_parts, untitled, App, AppAction, AppEvent, AppState, Contents, Part};
use crate::app::requests::{
    cleared_contents, cleared_state, lemma_focus_flags, loaded_contents, renamed_state, renames_file, saved_command,
};
use crate::components::collections::{can_expand, collapsed, next_selection, previous_selection, CollectionsModel};
use crate::components::curl_popup::curl_popup_closes;
use crate::components::directory_picker::{row_above, row_below, selected_row};
use crate::components::method_input::method_accepts;
use crate::components::save_popup::SaveModel;
use crate::components::search_popup::{moves_down, moves_up, result_above, result_below, SearchModel};
use crate::components::url_input::url_accepts;
use crate::curl::parsed_command;
use crate::http::planned_request;
use crate::paths::{join_fact, parent_fact};
use crate::keys::{Key, KeyCode, KeyPress};
use crate::text::{ends_with, join, trim};

verus! {

/// Control and the character, with no other modifier.
pub open spec fn ctrl(key: KeyPress, c: char) -> bool {
    key.code == KeyCode::Char(c) && key.modifiers.is_control()
}

/// Alt and the character, with no other modifier.
pub open spec fn alt(key: KeyPress, c: char) -> bool {
    key.code == KeyCode::Char(c) && key.modifiers.is_alt()
}

/// The commands that keys name.
#[derive(Clone, Copy, Debug, PartialEq, Eq, Structural)]
pub enum Route {
    DismissError,
    Quit,
    Increment,
    Decrement,
    StartRename,
    FinishRename,
    CancelRename,
    ToggleResponse,
    BodyEditor,
    MethodField,
    UrlField,
    ToggleCurl,
    ToggleSearch,
    ToggleSave,
    ToggleExplorer,
    FocusLeft,
    FocusRight,
    NewRequest,
    SendRequest,
    FocusDown,
    FocusUp,
    NextTab,
    ToggleImages,
    Other,
}

/// The command that a key names, given whether an error is shown and
/// whether the rename prompt is open; the first that matches wins.
pub open spec fn route(s: AppState, key: KeyPress) -> Route {
    if s.save_error.is_some() && (key.code == KeyCode::Esc || key.code == KeyCode::Enter) {
        Route::DismissError
    } else if ctrl(key, 'c') || ctrl(key, 'C') {
        Route::Quit
    } else if key.code == KeyCode::Right {
        Route::Increment
    } else if key.code == KeyCode::Left {
        Route::Decrement
    } else if alt(key, 'r') {
        Route::StartRename
    } else if key.code == KeyCode::Enter && s.is_renaming {
        Route::FinishRename
    } else if key.code == KeyCode::Esc && s.is_renaming {
        Route::CancelRename
    } else if ctrl(key, 'r') {
        Route::ToggleResponse
    } else if ctrl(key, 'b') {
        Route::BodyEditor
    } else if ctrl(key, 'g') {
        Route::MethodField
    } else if ctrl(key, 'u') {
        Route::UrlField
    } else if ctrl(key, 'o') {
        Route::ToggleCurl
    } else if ctrl(key, 'f') {
        Route::ToggleSearch
    } else if ctrl(key, 's') {
        Route::ToggleSave
    } else if ctrl(key, 'e') {
        Route::ToggleExplorer
    } else if ctrl(key, 'h') {
        Route::FocusLeft
    } else if ctrl(key, 'l') {
        Route::FocusRight
    } else if ctrl(key, 'n') {
        Route::NewRequest
    } else if alt(key, 't') {
        Route::SendRequest
    } else if ctrl(key, 'j') {
        Route::FocusDown
    } else if ctrl(key, 'k') {
        Route::FocusUp
    } else if ctrl(key, 'i') {
        Route::ToggleImages
    } else if key.code == KeyCode::Tab {
        Route::NextTab
    } else {
        Route::Other
    }
}

/// Only the state changes, to `s`; the parts and the focus stay.
pub open spec fn keeps(a: App, b: App, s: AppState) -> bool {
    &&& b.state() == s
    &&& b.contents() == a.contents()
    &&& b.same_focus(&a)
}

/// The state becomes `s` and the focus goes to `p` alone; the parts'
/// contents stay.
pub open spec fn focuses(a: App, b: App, s: AppState, p: Part) -> bool {
    &&& b.state() == s
    &&& b.contents() == a.contents()
    &&& b.only_focused(p)
}

/// One of the reply panes has the focus.
pub open spec fn response_focused(a: App) -> bool {
    a.part_focused(Part::Response) || a.part_focused(Part::ResponseHeaders) || a.part_focused(Part::ResponseCookies)
}

/// One of the request editors has the focus.
pub open spec fn editor_focused(a: App) -> bool {
    a.part_focused(Part::Editor(0)) || a.part_focused(Part::Editor(1)) || a.part_focused(Part::Editor(2))
        || a.part_focused(Part::Editor(3)) || a.part_focused(Part::Editor(4))
}

/// The reply pane of tab `i`.
pub open spec fn response_pane(i: usize) -> Part {
    if i == 0 {
        Part::Response
    } else if i == 1 {
        Part::ResponseHeaders
    } else {
        Part::ResponseCookies
    }
}

/// The file name offered for saving a request named `name`: the name with
/// `.curl`, or a random 36-character name with `.curl` for a request never
/// named.
pub open spec fn offered_name(name: Seq<char>, file: Seq<char>) -> bool {
    if name != untitled() {
        file == name + ".curl"@
    } else {
        file.len() == 41 && file.skip(36) == ".curl"@
    }
}

/// What the commands other than `Other` do.
#[verifier::opaque]
pub open spec fn command_effect(route: Route, a: App, b: App, r: AppAction) -> bool {
    let s = a.state();
    match route {
        Route::DismissError => keeps(a, b, AppState { save_error: None, ..s }) && r is Nothing,
        Route::Quit => keeps(a, b, s) && (r matches AppAction::Send(AppEvent::Quit)),
        Route::Increment => keeps(a, b, s) && (r matches AppAction::Send(AppEvent::Increment)),
        Route::Decrement => keeps(a, b, s) && (r matches AppAction::Send(AppEvent::Decrement)),
        Route::StartRename => r is Nothing && keeps(
            a,
            b,
            if s.is_renaming { s } else { AppState { is_renaming: true, rename_input: s.request_name, ..s } },
        ),
        Route::FinishRename => {
            &&& b.contents() == a.contents()
            &&& b.same_focus(&a)
            &&& trim(s.rename_input).len() == 0 ==> r is Nothing && b.state() == (AppState { is_renaming: false, ..s })
            &&& trim(s.rename_input).len() > 0 && renames_file(s) ==> b.state() == s && (r matches AppAction::RenameFile {
                from,
                to,
            } && from@ == s.request_name + ".curl"@ && to@ == trim(s.rename_input) + ".curl"@)
            &&& trim(s.rename_input).len() > 0 && !renames_file(s) ==> r is RefreshCollections && b.state()
                == renamed_state(s)
        },
        Route::CancelRename => r is Nothing && keeps(
            a,
            b,
            AppState { is_renaming: false, rename_input: Seq::<char>::empty(), ..s },
        ),
        Route::ToggleResponse => r is Nothing && if !s.show_response {
            focuses(a, b, AppState { show_response: true, ..s }, Part::Response)
        } else {
            keeps(a, b, AppState { show_response: false, ..s })
        },
        Route::BodyEditor => r is Nothing && focuses(a, b, AppState { current_focus: 2, ..s }, Part::Editor(2)),
        Route::MethodField => r is Nothing && focuses(a, b, s, Part::Method),
        Route::UrlField => r is Nothing && focuses(a, b, s, Part::Url),
        Route::ToggleCurl => r is Nothing && if !s.show_curl_popup {
            focuses(a, b, AppState { show_curl_popup: true, ..s }, Part::CurlPopup)
        } else {
            keeps(a, b, AppState { show_curl_popup: false, ..s })
        },
        Route::ToggleSearch => if !s.show_search_popup {
            focuses(a, b, AppState { show_search_popup: true, ..s }, Part::SearchPopup)
                && (r matches AppAction::Search(q) && q@.len() == 0)
        } else {
            keeps(a, b, AppState { show_search_popup: false, ..s }) && r is Nothing
        },
        Route::ToggleSave => r is Nothing && if !s.show_save_popup {
            &&& b.state() == (AppState { show_save_popup: true, ..s })
            &&& b.contents() == (Contents {
                save: SaveModel { filename: b.save_popup@.filename, ..a.contents().save },
                ..a.contents()
            })
            &&& offered_name(s.request_name, b.save_popup@.filename)
            &&& b.only_focused(Part::SavePopup)
        } else {
            keeps(a, b, AppState { show_save_popup: false, ..s })
        },
        Route::ToggleExplorer => r is Nothing && focuses(
            a,
            b,
            AppState { show_explorer: !s.show_explorer, ..s },
            Part::Explorer,
        ),
        Route::FocusLeft => r is Nothing && if response_focused(a) {
            focuses(a, b, s, Part::Url)
        } else if s.show_explorer {
            focuses(a, b, s, Part::Explorer)
        } else {
            keeps(a, b, s)
        },
        Route::FocusRight => r is Nothing && if a.part_focused(Part::Explorer) {
            focuses(a, b, s, Part::Url)
        } else if s.show_response && !response_focused(a) {
            focuses(a, b, AppState { current_response_focus: 0, ..s }, Part::Response)
        } else {
            keeps(a, b, s)
        },
        Route::NewRequest => {
            &&& r is Nothing
            &&& b.state() == (AppState { request_name: untitled(), ..cleared_state(s) })
            &&& b.contents() == cleared_contents(a.contents())
            &&& b.only_focused(Part::Url)
        },
        Route::SendRequest => {
            &&& b.same_focus(&a)
            &&& a.url_input@.lines[0].len() == 0 ==> {
                &&& r is Nothing
                &&& b.state() == (AppState {
                    show_response: true,
                    response_status: Some("Error"@),
                    response_time: None,
                    is_loading: false,
                    ..s
                })
                &&& b.contents() == (Contents {
                    response: crate::components::editor::text_rows("Error: URL is required"@),
                    ..a.contents()
                })
            }
            &&& a.url_input@.lines[0].len() > 0 ==> {
                &&& (r matches AppAction::SendRequest(plan) && plan@ == planned_request(
                    a.method_input@.lines[0],
                    a.url_input@.lines[0],
                    crate::components::editor::rows_text(a.editor_rows(2)),
                    crate::components::editor::rows_text(a.editor_rows(1)),
                ))
                &&& b.state() == (AppState { show_response: true, is_loading: true, ..s })
                &&& b.contents() == a.contents()
            }
        },
        Route::FocusDown => r is Nothing && if a.part_focused(Part::Method) || a.part_focused(Part::Url) {
            focuses(a, b, s, Part::Editor(s.current_focus))
        } else {
            keeps(a, b, s)
        },
        Route::FocusUp => r is Nothing && if editor_focused(a) {
            focuses(a, b, s, Part::Url)
        } else {
            keeps(a, b, s)
        },
        Route::NextTab => r is Nothing && if a.part_focused(Part::Method) {
            focuses(a, b, s, Part::Url)
        } else if a.part_focused(Part::Url) {
            focuses(a, b, s, Part::Method)
        } else if editor_focused(a) {
            let cf = ((s.current_focus + 1) % 3) as usize;
            focuses(a, b, AppState { current_focus: cf, ..s }, Part::Editor(cf))
        } else if response_focused(a) {
            let rf = ((s.current_response_focus + 1) % 3) as usize;
            focuses(a, b, AppState { current_response_focus: rf, ..s }, response_pane(rf))
        } else {
            keeps(a, b, s)
        },
        Route::ToggleImages => r is Nothing && keeps(
            a,
            b,
            AppState { image_display_enabled: !s.image_display_enabled, ..s },
        ),
        Route::Other => true,
    }
}

/// With at most one part focused, a focused part is the only one.
proof fn lemma_only(a: App, p: Part)
    requires
        a.at_most_one_focused(),
        a.part_focused(p),
    ensures
        a.only_focused(p),
{
}

impl App {
    /// The command that a key names; see `route`.
    pub fn route_of(&self, key: &KeyPress) -> (r: Route)
        ensures
            r == route(self.state(), *key),
    {
        let control = key.modifiers.only_control();
        let alt_held = key.modifiers.only_alt();
        let code = key.code;
        if self.save_error.is_some() && (code == KeyCode::Esc || code == KeyCode::Enter) {
            Route::DismissError
        } else if (code == KeyCode::Char('c') || code == KeyCode::Char('C')) && control {
            Route::Quit
        } else if code == KeyCode::Right {
            Route::Increment
        } else if code == KeyCode::Left {
            Route::Decrement
        } else if code == KeyCode::Char('r') && alt_held {
            Route::StartRename
        } else if code == KeyCode::Enter && self.is_renaming {
            Route::FinishRename
        } else if code == KeyCode::Esc && self.is_renaming {
            Route::CancelRename
        } else if code == KeyCode::Char('r') && control {
            Route::ToggleResponse
        } else if code == KeyCode::Char('b') && control {
            Route::BodyEditor
        } else if code == KeyCode::Char('g') && control {
            Route::MethodField
        } else if code == KeyCode::Char('u') && control {
            Route::UrlField
        } else if code == KeyCode::Char('o') && control {
            Route::ToggleCurl
        } else if code == KeyCode::Char('f') && control {
            Route::ToggleSearch
        } else if code == KeyCode::Char('s') && control {
            Route::ToggleSave
        } else if code == KeyCode::Char('e') && control {
            Route::ToggleExplorer
        } else if code == KeyCode::Char('h') && control {
            Route::FocusLeft
        } else if code == KeyCode::Char('l') && control {
            Route::FocusRight
        } else if code == KeyCode::Char('n') && control {
            Route::NewRequest
        } else if code == KeyCode::Char('t') && alt_held {
            Route::SendRequest
        } else if code == KeyCode::Char('j') && control {
            Route::FocusDown
        } else if code == KeyCode::Char('k') && control {
            Route::FocusUp
        } else if code == KeyCode::Char('i') && control {
            Route::ToggleImages
        } else if code == KeyCode::Tab {
            Route::NextTab
        } else {
            Route::Other
        }
    }

    /// Whether one of the reply panes has the focus.
    pub fn response_has_focus(&self) -> (r: bool)
        ensures
            r == response_focused(*self),
    {
        self.response.is_focused() || self.response_headers.is_focused() || self.response_cookies.is_focused()
    }

    /// Whether one of the request editors has the focus.
    pub fn editor_has_focus(&self) -> (r: bool)
        requires
            self.wf(),
        ensures
            r == editor_focused(*self),
    {
        let mut k: usize = 0;
        while k < self.editors.len()
            invariant
                k <= self.editors@.len() == 5,
                forall|i: int| 0 <= i < k ==> !(#[trigger] self.editors@[i])@.focused,
            decreases 5 - k,
        {
            if self.editors[k].is_focused() {
                assert(self.part_focused(Part::Editor(k)));
                return true;
            }
            k = k + 1;
        }
        assert(!self.editors@[0]@.focused && !self.editors@[1]@.focused && !self.editors@[2]@.focused
            && !self.editors@[3]@.focused && !self.editors@[4]@.focused);
        false
    }

    /// Moves the focus to `p` unless `p` has it already.
    fn focus_unless(&mut self, p: Part, already: bool)
        requires
            old(self).wf(),
            App::valid_part(p),
            already == old(self).part_focused(p),
        ensures
            final(self).wf(),
            final(self).only_focused(p),
            final(self).state() == old(self).state(),
            final(self).contents() == old(self).contents(),
    {
        if !already {
            self.focus_part(p);
        } else {
            proof {
                lemma_only(*self, p);
            }
        }
    }

    fn keep_state(&mut self)
        requires
            old(self).wf(),
        ensures
            final(self).wf(),
            keeps(*old(self), *final(self), old(self).state()),
    {
        proof {
            lemma_same_parts(*self, *self);
        }
    }

    fn dismiss_error(&mut self) -> (r: AppAction)
        requires
            old(self).wf(),
        ensures
            final(self).wf(),
            command_effect(Route::DismissError, *old(self), *final(self), r),
    {
        reveal(command_effect);
        let ghost before = *self;
        self.save_error = None;
        proof {
            lemma_same_parts(before, *self);
        }
        AppAction::Nothing
    }

    fn send_event(&mut self, route: Route) -> (r: AppAction)
        requires
            old(self).wf(),
            route == Route::Quit || route == Route::Increment || route == Route::Decrement,
        ensures
            final(self).wf(),
            command_effect(route, *old(self), *final(self), r),
    {
        reveal(command_effect);
        self.keep_state();
        match route {
            Route::Quit => AppAction::Send(AppEvent::Quit),
            Route::Increment => AppAction::Send(AppEvent::Increment),
            _ => AppAction::Send(AppEvent::Decrement),
        }
    }

    fn start_rename(&mut self) -> (r: AppAction)
        requires
            old(self).wf(),
        ensures
            final(self).wf(),
            command_effect(Route::StartRename, *old(self), *final(self), r),
    {
        reveal(command_effect);
        let ghost before = *self;
        if !self.is_renaming {
            self.is_renaming = true;
            self.rename_input = self.request_name.clone();
        }
        proof {
            lemma_same_parts(before, *self);
        }
        AppAction::Nothing
    }

    fn finish_rename_command(&mut self) -> (r: AppAction)
        requires
            old(self).wf(),
        ensures
            final(self).wf(),
            command_effect(Route::FinishRename, *old(self), *final(self), r),
    {
        reveal(command_effect);
        self.save_renamed_request()
    }

    fn cancel_rename(&mut self) -> (r: AppAction)
        requires
            old(self).wf(),
        ensures
            final(self).wf(),
            command_effect(Route::CancelRename, *old(self), *final(self), r),
    {
        reveal(command_effect);
        let ghost before = *self;
        self.is_renaming = false;
        self.rename_input = String::new();
        proof {
            lemma_same_parts(before, *self);
        }
        AppAction::Nothing
    }

    fn body_editor(&mut self) -> (r: AppAction)
        requires
            old(self).wf(),
        ensures
            final(self).wf(),
            command_effect(Route::BodyEditor, *old(self), *final(self), r),
    {
        reveal(command_effect);
        let ghost before = *self;
        self.current_focus = 2;
        proof {
            lemma_same_parts(before, *self);
        }
        let already = self.editors[2].is_focused();
        self.focus_unless(Part::Editor(2), already);
        AppAction::Nothing
    }

    fn field_focus(&mut self, route: Route) -> (r: AppAction)
        requires
            old(self).wf(),
            route == Route::MethodField || route == Route::UrlField,
        ensures
            final(self).wf(),
            command_effect(route, *old(self), *final(self), r),
    {
        reveal(command_effect);
        if route == Route::MethodField {
            let already = self.method_input.is_focused();
            self.focus_unless(Part::Method, already);
        } else {
            let already = self.url_input.is_focused();
            self.focus_unless(Part::Url, already);
        }
        AppAction::Nothing
    }

    fn new_request_command(&mut self) -> (r: AppAction)
        requires
            old(self).wf(),
        ensures
            final(self).wf(),
            command_effect(Route::NewRequest, *old(self), *final(self), r),
    {
        reveal(command_effect);
        self.new_request();
        AppAction::Nothing
    }

    fn send_request_command(&mut self) -> (r: AppAction)
        requires
            old(self).wf(),
        ensures
            final(self).wf(),
            command_effect(Route::SendRequest, *old(self), *final(self), r),
    {
        reveal(command_effect);
        match self.start_http_request() {
            Some(plan) => AppAction::SendRequest(plan),
            None => AppAction::Nothing,
        }
    }

    fn toggle_response(&mut self) -> (r: AppAction)
        requires
            old(self).wf(),
        ensures
            final(self).wf(),
            command_effect(Route::ToggleResponse, *old(self), *final(self), r),
    {
        reveal(command_effect);
        let ghost before = *self;
        self.show_response = !self.show_response;
        proof {
            lemma_same_parts(before, *self);
        }
        if self.show_response {
            self.focus_part(Part::Response);
        }
        AppAction::Nothing
    }

    fn toggle_curl(&mut self) -> (r: AppAction)
        requires
            old(self).wf(),
        ensures
            final(self).wf(),
            command_effect(Route::ToggleCurl, *old(self), *final(self), r),
    {
        reveal(command_effect);
        let ghost before = *self;
        self.show_curl_popup = !self.show_curl_popup;
        proof {
            lemma_same_parts(before, *self);
        }
        if self.show_curl_popup {
            self.unfocus();
            let ghost mid = *self;
            self.curl_popup.focus();
            proof {
                focused_after(mid, *self, Part::CurlPopup);
            }
        }
        AppAction::Nothing
    }

    fn toggle_search(&mut self) -> (r: AppAction)
        requires
            old(self).wf(),
        ensures
            final(self).wf(),
            command_effect(Route::ToggleSearch, *old(self), *final(self), r),
    {
        reveal(command_effect);
        let ghost before = *self;
        self.show_search_popup = !self.show_search_popup;
        proof {
            lemma_same_parts(before, *self);
        }
        if self.show_search_popup {
            self.unfocus();
            let ghost mid = *self;
            self.search_popup.focus();
            proof {
                focused_after(mid, *self, Part::SearchPopup);
            }
            return AppAction::Search(String::new());
        }
        AppAction::Nothing
    }

    fn toggle_save(&mut self) -> (r: AppAction)
        requires
            old(self).wf(),
        ensures
            final(self).wf(),
            command_effect(Route::ToggleSave, *old(self), *final(self), r),
    {
        reveal(command_effect);
        let ghost before = *self;
        self.show_save_popup = !self.show_save_popup;
        proof {
            lemma_same_parts(before, *self);
        }
        if self.show_save_popup {
            self.unfocus();
            let ghost mid = *self;
            self.save_popup.focus();
            let filename = self.save_filename();
            self.save_popup.set_filename(filename.as_str());
            proof {
                focused_after(mid, *self, Part::SavePopup);
            }
        }
        AppAction::Nothing
    }

    fn toggle_explorer(&mut self) -> (r: AppAction)
        requires
            old(self).wf(),
        ensures
            final(self).wf(),
            command_effect(Route::ToggleExplorer, *old(self), *final(self), r),
    {
        reveal(command_effect);
        let ghost before = *self;
        self.show_explorer = !self.show_explorer;
        proof {
            lemma_same_parts(before, *self);
        }
        let already = self.collections.is_focused();
        self.focus_unless(Part::Explorer, already);
        AppAction::Nothing
    }

    fn focus_left(&mut self) -> (r: AppAction)
        requires
            old(self).wf(),
        ensures
            final(self).wf(),
            command_effect(Route::FocusLeft, *old(self), *final(self), r),
    {
        reveal(command_effect);
        let in_response = self.response_has_focus();
        let in_request = self.url_input.is_focused() || self.method_input.is_focused() || self.editor_has_focus();
        let in_explorer = self.collections.is_focused();
        if in_response {
            self.focus_part(Part::Url);
        } else if in_request && self.show_explorer {
            self.focus_part(Part::Explorer);
        } else if self.show_explorer && !in_explorer {
            self.focus_part(Part::Explorer);
        } else {
            if self.show_explorer {
                proof {
                    lemma_only(*self, Part::Explorer);
                }
            }
            self.keep_state();
        }
        AppAction::Nothing
    }

    #[verifier::rlimit(40)]
    fn focus_right(&mut self) -> (r: AppAction)
        requires
            old(self).wf(),
        ensures
            final(self).wf(),
            command_effect(Route::FocusRight, *old(self), *final(self), r),
    {
        reveal(command_effect);
        let in_response = self.response_has_focus();
        let in_request = self.url_input.is_focused() || self.method_input.is_focused() || self.editor_has_focus();
        let in_explorer = self.collections.is_focused();
        if in_explorer {
            self.focus_part(Part::Url);
        } else if (in_request && self.show_response) || (self.show_response && !in_response) {
            proof {
                if in_request && in_response {
                    assert(false) by {
                        if self.part_focused(Part::Url) {
                            assert(self.only_focused(Part::Url));
                        } else if self.part_focused(Part::Method) {
                            assert(self.only_focused(Part::Method));
                        } else if self.part_focused(Part::Editor(0)) {
                            assert(self.only_focused(Part::Editor(0)));
                        } else if self.part_focused(Part::Editor(1)) {
                            assert(self.only_focused(Part::Editor(1)));
                        } else if self.part_focused(Part::Editor(2)) {
                            assert(self.only_focused(Part::Editor(2)));
                        } else if self.part_focused(Part::Editor(3)) {
                            assert(self.only_focused(Part::Editor(3)));
                        } else {
                            assert(self.only_focused(Part::Editor(4)));
                        }
                    }
                }
            }
            let ghost before = *self;
            self.current_response_focus = 0;
            proof {
                lemma_same_parts(before, *self);
            }
            self.focus_part(Part::Response);
        } else {
            self.keep_state();
        }
        AppAction::Nothing
    }

    fn focus_down(&mut self) -> (r: AppAction)
        requires
            old(self).wf(),
        ensures
            final(self).wf(),
            command_effect(Route::FocusDown, *old(self), *final(self), r),
    {
        reveal(command_effect);
        if self.method_input.is_focused() || self.url_input.is_focused() {
            let cf = self.current_focus;
            self.focus_part(Part::Editor(cf));
        } else {
            self.keep_state();
        }
        AppAction::Nothing
    }

    /// Ctrl+I: image replies are shown as images, or as text, from now on.
    fn toggle_images(&mut self) -> (r: AppAction)
        requires
            old(self).wf(),
        ensures
            final(self).wf(),
            command_effect(Route::ToggleImages, *old(self), *final(self), r),
    {
        reveal(command_effect);
        let ghost before = *self;
        self.image_display_enabled = !self.image_display_enabled;
        proof {
            lemma_same_parts(before, *self);
        }
        AppAction::Nothing
    }

    fn focus_up(&mut self) -> (r: AppAction)
        requires
            old(self).wf(),
        ensures
            final(self).wf(),
            command_effect(Route::FocusUp, *old(self), *final(self), r),
    {
        reveal(command_effect);
        if self.editor_has_focus() {
            self.focus_part(Part::Url);
        } else {
            self.keep_state();
        }
        AppAction::Nothing
    }

    #[verifier::rlimit(40)]
    fn next_tab(&mut self) -> (r: AppAction)
        requires
            old(self).wf(),
        ensures
            final(self).wf(),
            command_effect(Route::NextTab, *old(self), *final(self), r),
    {
        reveal(command_effect);
        if self.method_input.is_focused() {
            self.focus_part(Part::Url);
        } else if self.url_input.is_focused() {
            self.focus_part(Part::Method);
        } else if self.editor_has_focus() {
            let ghost before = *self;
            self.current_focus = (self.current_focus + 1) % 3;
            proof {
                lemma_same_parts(before, *self);
            }
            let cf = self.current_focus;
            self.focus_part(Part::Editor(cf));
        } else if self.response_has_focus() {
            let ghost before = *self;
            self.current_response_focus = (self.current_response_focus + 1) % 3;
            proof {
                lemma_same_parts(before, *self);
            }
            let p = if self.current_response_focus == 0 {
                Part::Response
            } else if self.current_response_focus == 1 {
                Part::ResponseHeaders
            } else {
                Part::ResponseCookies
            };
            self.focus_part(p);
        } else {
            self.keep_state();
        }
        AppAction::Nothing
    }
}

/// After `unfocus`, focusing part `p` leaves `p` alone focused.
proof fn focused_after(mid: App, after: App, p: Part)
    requires
        mid.wf(),
        mid.none_focused(),
        after.part_focused(p),
        crate::app::same_except(mid, after, p),
        after.state() == mid.state(),
        after.editors@.len() == 5,
    ensures
        after.only_focused(p),
        after.at_most_one_focused(),
{
    crate::app::lemma_same_except_pub(mid, after, p);
    crate::app::lemma_focus_one_pub(mid, after, p);
}

/// The explorer keys `j`, `k` and `h` (moving down, up, and closing a
/// folder); other keys leave the explorer as it is.
pub open spec fn explorer_keys(m: CollectionsModel, code: KeyCode) -> CollectionsModel {
    if code == KeyCode::Char('j') {
        CollectionsModel { selected: next_selection(m.selected, m.items.len()), ..m }
    } else if code == KeyCode::Char('k') {
        CollectionsModel { selected: previous_selection(m.selected, m.items.len()), ..m }
    } else if code == KeyCode::Char('h') {
        let c = collapsed(m.items, m.selected);
        CollectionsModel { items: c.0, selected: c.1, ..m }
    } else {
        m
    }
}

/// The selected explorer row's path, where it is a saved request: a file
/// whose name ends with `.curl`.
pub open spec fn file_to_load(m: CollectionsModel) -> Option<Seq<char>> {
    match m.selected {
        Some(s) => if s < m.items.len() && !m.items[s as int].is_dir && ends_with(m.items[s as int].name, ".curl"@) {
            Some(m.items[s as int].path)
        } else {
            None
        },
        None => None,
    }
}

/// Whether a key closes the search dialog: Esc, or Enter on a result.
pub open spec fn closes_search(m: SearchModel, key: KeyPress) -> bool {
    !moves_down(key) && !moves_up(key) && (key.input.key == Key::Esc || (key.input.key == Key::Enter
        && m.selected_index < m.results.len()))
}

/// Whether a key opens the highlighted search result: Enter on a result.
pub open spec fn opens_search(m: SearchModel, key: KeyPress) -> bool {
    !moves_down(key) && !moves_up(key) && key.input.key == Key::Enter && m.selected_index < m.results.len()
}

/// The highlighted search result's path, where it is a saved request.
pub open spec fn search_file_to_load(m: SearchModel) -> Option<Seq<char>> {
    if m.selected_index < m.results.len() && ends_with(m.results[m.selected_index as int].file_path, ".curl"@) {
        Some(m.results[m.selected_index as int].file_path)
    } else {
        None
    }
}

/// The search dialog after a key that moves the highlight.
pub open spec fn search_moved(m: SearchModel, key: KeyPress) -> SearchModel {
    if moves_down(key) {
        if m.results.len() > 0 {
            SearchModel {
                selected_index: result_below(m.selected_index, m.results.len()),
                list_selected: Some(result_below(m.selected_index, m.results.len())),
                ..m
            }
        } else {
            m
        }
    } else if m.results.len() > 0 && m.selected_index > 0 {
        SearchModel {
            selected_index: result_above(m.selected_index, m.results.len()),
            list_selected: Some(result_above(m.selected_index, m.results.len())),
            ..m
        }
    } else {
        m
    }
}

/// Whether a key closes the save dialog: Esc, or Enter with a name.
pub open spec fn closes_save(m: SaveModel, key: KeyPress) -> bool {
    key.input.key == Key::Esc || (key.input.key == Key::Enter && m.filename.len() > 0)
}

/// Whether a key saves: Enter with a name.
pub open spec fn saves(m: SaveModel, key: KeyPress) -> bool {
    key.input.key == Key::Enter && m.filename.len() > 0
}

/// The save dialog after a key that does not close it.
pub open spec fn save_moved(m: SaveModel, key: KeyPress) -> SaveModel {
    if key.input.key == Key::Up || key.input.key == Key::Char('k') {
        SaveModel { selected: row_above(m.selected), ..m }
    } else if key.input.key == Key::Down || key.input.key == Key::Char('j') {
        SaveModel { selected: row_below(m.selected, m.items.len()), ..m }
    } else {
        m
    }
}

/// The message kept when a cURL command does not parse.
pub open spec fn parse_error_message() -> Seq<char> {
    "Failed to parse curl command: "@ + "Not a curl command"@
}

/// What a key does in the explorer.
pub open spec fn explorer_effect(a: App, b: App, key: KeyPress, r: AppAction) -> bool {
    let s = a.state();
    if key.code == KeyCode::Enter {
        keeps(a, b, s) && match file_to_load(a.collections@) {
            Some(p) => r matches AppAction::LoadFile(x) && x@ == p,
            None => r is Nothing,
        }
    } else if key.code == KeyCode::Char('l') && can_expand(a.collections@) {
        keeps(a, b, s) && (r matches AppAction::ListFolder(x) && x@
            == a.collections@.items[a.collections@.selected->Some_0 as int].path)
    } else {
        &&& r is Nothing
        &&& b.state() == s
        &&& b.same_focus(&a)
        &&& b.collections@ == explorer_keys(a.collections@, key.code)
        &&& b.contents() == (Contents {
            explorer: b.collections@.items,
            explorer_selected: b.collections@.selected,
            ..a.contents()
        })
    }
}

/// What a closing key does in the cURL dialog: Alt+Enter reads the
/// command first; the dialog closes and empties.
pub open spec fn curl_closed(a: App, b: App, key: KeyPress) -> bool {
    let s = a.state();
    let empty_line = seq![Seq::<char>::empty()];
    if key.code == KeyCode::Enter && key.modifiers.is_alt() {
        match parsed_command(join(a.curl_popup@.lines, "\n"@)) {
            Ok(req) => {
                &&& b.state() == (AppState { show_curl_popup: false, ..cleared_state(s) })
                &&& b.contents() == (Contents { curl: empty_line, ..loaded_contents(a.contents(), req) })
                &&& b.only_focused(Part::Url)
            },
            Err(_) => {
                &&& b.state() == (AppState { show_curl_popup: false, save_error: Some(parse_error_message()), ..s })
                &&& b.contents() == (Contents { curl: empty_line, ..a.contents() })
                &&& b.none_focused()
            },
        }
    } else {
        &&& b.state() == (AppState { show_curl_popup: false, ..s })
        &&& b.contents() == (Contents { curl: empty_line, ..a.contents() })
        &&& b.none_focused()
    }
}

/// What a key does in the cURL dialog: Esc closes it; Alt+Enter reads the
/// command and closes it; other keys edit the command.
pub open spec fn curl_effect(a: App, b: App, key: KeyPress, r: AppAction) -> bool {
    let s = a.state();
    let empty_line = seq![Seq::<char>::empty()];
    &&& r is Nothing
    &&& if !curl_popup_closes(key.input) {
        &&& b.state() == s
        &&& b.same_focus(&a)
        &&& b.contents() == (Contents { curl: b.curl_popup@.lines, ..a.contents() })
    } else {
        curl_closed(a, b, key)
    }
}

/// What a key does in the search dialog: Esc closes it, Enter on a
/// result closes it and opens the result where it is a saved request; keys
/// that move the highlight move it; other keys search again.
pub open spec fn search_effect(a: App, b: App, key: KeyPress, r: AppAction) -> bool {
    let s = a.state();
    let m = a.search_popup@;
    if closes_search(m, key) {
        &&& b.state() == (AppState { show_search_popup: false, ..s })
        &&& b.contents() == (Contents {
            search: SearchModel {
                lines: seq![Seq::<char>::empty()],
                focused: false,
                results: Seq::<crate::components::search_popup::SearchResultView>::empty(),
                selected_index: 0,
                list_selected: None,
            },
            ..a.contents()
        })
        &&& b.none_focused()
        &&& if opens_search(m, key) {
            match search_file_to_load(m) {
                Some(p) => r matches AppAction::LoadFile(x) && x@ == p,
                None => r is Nothing,
            }
        } else {
            r is Nothing
        }
    } else {
        &&& b.state() == s
        &&& b.same_focus(&a)
        &&& b.contents() == (Contents { search: SearchModel { focused: false, ..b.search_popup@ }, ..a.contents() })
        &&& if moves_down(key) || moves_up(key) {
            b.search_popup@ == search_moved(m, key) && r is Nothing
        } else {
            &&& b.search_popup@ == (SearchModel { lines: b.search_popup@.lines, ..m })
            &&& (key.input.key == Key::Enter ==> b.search_popup@ == m)
            &&& (r matches AppAction::Search(q) && q@ == join(b.search_popup@.lines, "\n"@))
        }
    }
}

/// What a key does in the save dialog: Esc closes it, Enter with a name
/// closes it and saves the request; other keys walk the folders.
pub open spec fn save_effect(a: App, b: App, key: KeyPress, r: AppAction) -> bool {
    let s = a.state();
    let m = a.save_popup@;
    if closes_save(m, key) {
        &&& b.state() == (AppState { show_save_popup: false, ..s })
        &&& b.contents() == (Contents {
            save: SaveModel { filename: Seq::<char>::empty(), focused: false, ..m },
            ..a.contents()
        })
        &&& b.none_focused()
        &&& if saves(m, key) {
            r matches AppAction::SaveFile { path, contents } && join_fact(m.current_path, m.filename, path@)
                && contents@ == saved_command(
                a.method_input@.lines[0],
                a.url_input@.lines[0],
                crate::components::editor::rows_text(a.editor_rows(1)),
                crate::components::editor::rows_text(a.editor_rows(2)),
            )
        } else {
            r is Nothing
        }
    } else {
        &&& b.state() == s
        &&& b.same_focus(&a)
        &&& b.save_popup@ == save_moved(m, key)
        &&& b.contents() == (Contents { save: SaveModel { focused: false, ..save_moved(m, key) }, ..a.contents() })
        &&& if key.input.key == Key::Char('l') {
            match selected_row(m.items, m.selected) {
                Some(row) => r matches AppAction::ListSaveFolder(p) && p@ == row.path,
                None => r is Nothing,
            }
        } else if key.input.key == Key::Char('h') {
            &&& r is Nothing || r is ListSaveFolder
            &&& parent_fact(
                m.current_path,
                match r {
                    AppAction::ListSaveFolder(p) => Some(p@),
                    _ => None,
                },
            )
        } else {
            r is Nothing
        }
    }
}

/// A reply pane took the key (`i` is held back from it).
pub open spec fn pane_effect(a: App, b: App, key: KeyPress, r: AppAction, pane: Part) -> bool {
    &&& r is Nothing
    &&& b.state() == a.state()
    &&& b.same_focus(&a)
    &&& b.contents() == (Contents {
        response: if pane == Part::Response { b.response@.rows } else { a.response@.rows },
        response_headers: if pane == Part::ResponseHeaders { b.response_headers@.rows } else { a.response_headers@.rows },
        response_cookies: if pane == Part::ResponseCookies { b.response_cookies@.rows } else { a.response_cookies@.rows },
        ..a.contents()
    })
    &&& key.code == KeyCode::Char('i') ==> b.contents() == a.contents()
}

/// What a key that names no command does: it types into the rename
/// prompt when that is open, else goes to the part with the focus (a shown
/// dialog only), else to the selected request editor.
pub open spec fn other_effect(a: App, b: App, key: KeyPress, r: AppAction) -> bool {
    let s = a.state();
    if s.is_renaming {
        r is Nothing && keeps(
            a,
            b,
            match key.code {
                KeyCode::Char(c) => AppState { rename_input: s.rename_input.push(c), ..s },
                KeyCode::Backspace => AppState {
                    rename_input: if s.rename_input.len() > 0 { s.rename_input.drop_last() } else { s.rename_input },
                    ..s
                },
                _ => s,
            },
        )
    } else if a.part_focused(Part::Method) {
        &&& r is Nothing
        &&& b.state() == s
        &&& b.same_focus(&a)
        &&& b.contents() == (Contents { method: b.method_input@.lines, ..a.contents() })
        &&& !method_accepts(key.input) ==> b.contents() == a.contents()
    } else if a.part_focused(Part::Url) {
        &&& r is Nothing
        &&& b.state() == s
        &&& b.same_focus(&a)
        &&& b.contents() == (Contents { url: b.url_input@.lines, ..a.contents() })
        &&& !url_accepts(key.input.key) ==> b.contents() == a.contents()
    } else if a.part_focused(Part::Explorer) {
        explorer_effect(a, b, key, r)
    } else if a.part_focused(Part::Response) {
        pane_effect(a, b, key, r, Part::Response)
    } else if a.part_focused(Part::ResponseHeaders) {
        pane_effect(a, b, key, r, Part::ResponseHeaders)
    } else if a.part_focused(Part::ResponseCookies) {
        pane_effect(a, b, key, r, Part::ResponseCookies)
    } else if s.show_curl_popup && a.part_focused(Part::CurlPopup) {
        curl_effect(a, b, key, r)
    } else if s.show_search_popup && a.part_focused(Part::SearchPopup) {
        search_effect(a, b, key, r)
    } else if s.show_save_popup && a.part_focused(Part::SavePopup) {
        save_effect(a, b, key, r)
    } else {
        &&& r is Nothing
        &&& b.state() == s
        &&& b.same_focus(&a)
        &&& b.contents() == (Contents {
            editors: a.contents().editors.update(s.current_focus as int, b.editor_rows(s.current_focus as int)),
            ..a.contents()
        })
    }
}

/// Taking the focus from part `p`, which alone had it, leaves no part
/// focused.
proof fn lemma_drop_focus(a: App, b: App, p: Part)
    requires
        a.only_focused(p),
        crate::app::same_except(a, b, p),
        !b.part_focused(p),
    ensures
        b.none_focused(),
{
    crate::app::lemma_same_except_pub(a, b, p);
    assert forall|q: Part| !#[trigger] b.part_focused(q) by {
        if q != p {
            assert(b.part_focused(q) == a.part_focused(q));
        }
    }
}

/// Changing part `p`, which does not hold the focus, leaves part `q` alone
/// focused.
proof fn lemma_keep_only(a: App, b: App, p: Part, q: Part)
    requires
        a.only_focused(q),
        crate::app::same_except(a, b, p),
        p != q,
        !b.part_focused(p),
    ensures
        b.only_focused(q),
        b.at_most_one_focused(),
{
    crate::app::lemma_same_except_pub(a, b, p);
    assert forall|x: Part| #[trigger] b.part_focused(x) implies x == q by {
        if x != p {
            assert(b.part_focused(x) == a.part_focused(x));
        }
    }
}

impl App {
    fn rename_key(&mut self, key: &KeyPress) -> (r: AppAction)
        requires
            old(self).wf(),
            old(self).is_renaming,
        ensures
            final(self).wf(),
            other_effect(*old(self), *final(self), *key, r),
    {
        let ghost before = *self;
        match key.code {
            KeyCode::Char(c) => {
                crate::text::push_char(&mut self.rename_input, c);
            },
            KeyCode::Backspace => {
                let v = crate::text::chars_of(self.rename_input.as_str());
                if v.len() > 0 {
                    self.rename_input = crate::text::string_range(&v, 0, v.len() - 1);
                    assert(self.rename_input@ =~= before.rename_input@.drop_last());
                }
            },
            _ => {},
        }
        proof {
            lemma_same_parts(before, *self);
        }
        AppAction::Nothing
    }

    #[verifier::rlimit(40)]
    fn explorer_key(&mut self, key: &KeyPress) -> (r: AppAction)
        requires
            old(self).wf(),
        ensures
            final(self).wf(),
            explorer_effect(*old(self), *final(self), *key, r),
    {
        let ghost before = *self;
        if key.code == KeyCode::Enter {
            let r = match self.collections.get_selected_file() {
                Some(f) => if !f.is_dir && crate::text::str_ends_with(f.name.as_str(), ".curl") {
                    AppAction::LoadFile(f.path)
                } else {
                    AppAction::Nothing
                },
                None => AppAction::Nothing,
            };
            proof {
                lemma_same_parts(before, *self);
            }
            return r;
        }
        if key.code == KeyCode::Char('l') {
            match self.collections.folder_to_expand() {
                Some(p) => {
                    proof {
                        lemma_same_parts(before, *self);
                    }
                    return AppAction::ListFolder(p);
                },
                None => {},
            }
        }
        self.collections.handle_keys(key, None);
        proof {
            lemma_focus_flags(before, *self);
        }
        AppAction::Nothing
    }

    fn pane_key(&mut self, key: &KeyPress, pane: Part) -> (r: AppAction)
        requires
            old(self).wf(),
            pane == Part::Response || pane == Part::ResponseHeaders || pane == Part::ResponseCookies,
        ensures
            final(self).wf(),
            pane_effect(*old(self), *final(self), *key, r, pane),
    {
        let ghost before = *self;
        if key.code != KeyCode::Char('i') {
            match pane {
                Part::Response => self.response.handle_key(key),
                Part::ResponseHeaders => self.response_headers.handle_key(key),
                _ => self.response_cookies.handle_key(key),
            }
        }
        proof {
            lemma_focus_flags(before, *self);
        }
        AppAction::Nothing
    }

    #[verifier::rlimit(40)]
    fn close_curl(&mut self, key: &KeyPress)
        requires
            old(self).wf(),
            old(self).only_focused(Part::CurlPopup),
            curl_popup_closes(key.input),
        ensures
            final(self).wf(),
            curl_closed(*old(self), *final(self), *key),
    {
        let ghost before = *self;
        if key.code == KeyCode::Enter && key.modifiers.only_alt() {
            let input = self.curl_popup.get_input();
            self.parse_curl_command(input.as_str());
        }
        let ghost parsed = *self;
        self.show_curl_popup = false;
        self.curl_popup.unfocus();
        self.curl_popup.clear();
        proof {
            if parsed.only_focused(Part::Url) {
                lemma_keep_only(parsed, *self, Part::CurlPopup, Part::Url);
            } else {
                assert(parsed.same_focus(&before));
                assert(parsed.only_focused(Part::CurlPopup));
                lemma_drop_focus(parsed, *self, Part::CurlPopup);
            }
        }
    }

    #[verifier::rlimit(40)]
    fn curl_key(&mut self, key: &KeyPress) -> (r: AppAction)
        requires
            old(self).wf(),
            old(self).show_curl_popup,
            old(self).part_focused(Part::CurlPopup),
        ensures
            final(self).wf(),
            curl_effect(*old(self), *final(self), *key, r),
    {
        let ghost before = *self;
        proof {
            lemma_only(before, Part::CurlPopup);
        }
        let should_close = self.curl_popup.handle_key(key);
        proof {
            lemma_focus_flags(before, *self);
        }
        if should_close {
            let ghost mid = *self;
            proof {
                assert(mid.contents() == before.contents());
                assert(mid.only_focused(Part::CurlPopup));
            }
            self.close_curl(key);
            proof {
                assert(mid.curl_popup@ == before.curl_popup@);
                assert(mid.state() == before.state());
            }
        }
        AppAction::Nothing
    }

    fn search_key(&mut self, key: &KeyPress) -> (r: AppAction)
        requires
            old(self).wf(),
            old(self).show_search_popup,
            old(self).part_focused(Part::SearchPopup),
        ensures
            final(self).wf(),
            search_effect(*old(self), *final(self), *key, r),
    {
        let ghost before = *self;
        proof {
            lemma_only(before, Part::SearchPopup);
        }
        let k = self.search_popup.handle_key(key);
        proof {
            lemma_focus_flags(before, *self);
        }
        if k.should_close {
            let mut action = AppAction::Nothing;
            if k.should_open {
                match self.search_popup.get_selected_file() {
                    Some(f) => {
                        if crate::text::str_ends_with(f.as_str(), ".curl") {
                            action = AppAction::LoadFile(f);
                        }
                    },
                    None => {},
                }
            }
            let ghost closing = *self;
            self.show_search_popup = false;
            self.search_popup.unfocus();
            self.search_popup.clear();
            proof {
                assert(closing.only_focused(Part::SearchPopup));
                lemma_drop_focus(closing, *self, Part::SearchPopup);
            }
            return action;
        }
        match k.search {
            Some(q) => AppAction::Search(q),
            None => AppAction::Nothing,
        }
    }

    fn save_key(&mut self, key: &KeyPress) -> (r: AppAction)
        requires
            old(self).wf(),
            old(self).show_save_popup,
            old(self).part_focused(Part::SavePopup),
        ensures
            final(self).wf(),
            save_effect(*old(self), *final(self), *key, r),
    {
        let ghost before = *self;
        proof {
            lemma_only(before, Part::SavePopup);
        }
        let k = self.save_popup.handle_key(key);
        proof {
            lemma_focus_flags(before, *self);
        }
        if k.should_close {
            let mut action = AppAction::Nothing;
            if k.should_save {
                match self.save_popup.get_save_path() {
                    Some(path) => {
                        let contents = self.request_file_contents();
                        action = AppAction::SaveFile { path, contents };
                    },
                    None => {},
                }
            }
            let ghost closing = *self;
            self.show_save_popup = false;
            self.save_popup.unfocus();
            self.save_popup.clear();
            proof {
                assert(closing.only_focused(Part::SavePopup));
                lemma_drop_focus(closing, *self, Part::SavePopup);
            }
            return action;
        }
        match k.open {
            Some(d) => AppAction::ListSaveFolder(d),
            None => AppAction::Nothing,
        }
    }

    #[verifier::rlimit(40)]
    fn other_key(&mut self, key: &KeyPress) -> (r: AppAction)
        requires
            old(self).wf(),
        ensures
            final(self).wf(),
            other_effect(*old(self), *final(self), *key, r),
    {
        let ghost before = *self;
        if self.is_renaming {
            return self.rename_key(key);
        }
        if self.method_input.is_focused() {
            self.method_input.handle_key(key);
            proof {
                lemma_focus_flags(before, *self);
            }
            return AppAction::Nothing;
        }
        if self.url_input.is_focused() {
            self.url_input.handle_key(key);
            proof {
                lemma_focus_flags(before, *self);
            }
            return AppAction::Nothing;
        }
        if self.collections.is_focused() {
            return self.explorer_key(key);
        }
        if self.response.is_focused() {
            return self.pane_key(key, Part::Response);
        }
        if self.response_headers.is_focused() {
            return self.pane_key(key, Part::ResponseHeaders);
        }
        if self.response_cookies.is_focused() {
            return self.pane_key(key, Part::ResponseCookies);
        }
        if self.show_curl_popup && self.curl_popup.is_focused() {
            return self.curl_key(key);
        }
        if self.show_search_popup && self.search_popup.is_focused() {
            return self.search_key(key);
        }
        if self.show_save_popup && self.save_popup.is_focused() {
            return self.save_key(key);
        }
        let cf = self.current_focus;
        self.editors[cf].handle_key(key);
        proof {
            lemma_focus_flags(before, *self);
            assert(self.contents().editors =~= before.contents().editors.update(cf as int, self.editor_rows(cf as int)));
        }
        AppAction::Nothing
    }
}

impl App {
    /// Acts on a key press: the command that the key names (see `route`
    /// and `command_effect`), or, for any other key, what `other_effect`
    /// says. Returns the work left to the main loop.
    pub fn handle_key_events(&mut self, key: &KeyPress) -> (r: AppAction)
        requires
            old(self).wf(),
        ensures
            final(self).wf(),
            route(old(self).state(), *key) != Route::Other ==> command_effect(
                route(old(self).state(), *key),
                *old(self),
                *final(self),
                r,
            ),
            route(old(self).state(), *key) == Route::Other ==> other_effect(*old(self), *final(self), *key, r),
    {
        let route = self.route_of(key);
        match route {
            Route::DismissError => self.dismiss_error(),
            Route::Quit => self.send_event(route),
            Route::Increment => self.send_event(route),
            Route::Decrement => self.send_event(route),
            Route::StartRename => self.start_rename(),
            Route::FinishRename => self.finish_rename_command(),
            Route::CancelRename => self.cancel_rename(),
            Route::ToggleResponse => self.toggle_response(),
            Route::BodyEditor => self.body_editor(),
            Route::MethodField => self.field_focus(route),
            Route::UrlField => self.field_focus(route),
            Route::ToggleCurl => self.toggle_curl(),
            Route::ToggleSearch => self.toggle_search(),
            Route::ToggleSave => self.toggle_save(),
            Route::ToggleExplorer => self.toggle_explorer(),
            Route::FocusLeft => self.focus_left(),
            Route::FocusRight => self.focus_right(),
            Route::NewRequest => self.new_request_command(),
            Route::SendRequest => self.send_request_command(),
            Route::FocusDown => self.focus_down(),
            Route::FocusUp => self.focus_up(),
            Route::NextTab => self.next_tab(),
            Route::ToggleImages => self.toggle_images(),
            Route::Other => self.other_key(key),
        }
    }
}

/// Pressing Tab three times in the request editors comes back to the same
/// editor, with the parts' contents as they were.
#[verifier::rlimit(100)]
pub proof fn law_tab_cycle(a: App, b: App, c: App, d: App, r1: AppAction, r2: AppAction, r3: AppAction)
    requires
        a.wf(),
        editor_focused(a),
        command_effect(Route::NextTab, a, b, r1),
        command_effect(Route::NextTab, b, c, r2),
        command_effect(Route::NextTab, c, d, r3),
    ensures
        d.state().current_focus == a.state().current_focus,
        d.only_focused(Part::Editor(a.current_focus)),
        d.contents() == a.contents(),
{
    reveal(command_effect);
    assert(!a.part_focused(Part::Method) && !a.part_focused(Part::Url)) by {
        if a.part_focused(Part::Method) || a.part_focused(Part::Url) {
            let p = if a.part_focused(Part::Method) { Part::Method } else { Part::Url };
            if a.part_focused(Part::Editor(0)) {
                assert(a.part_focused(p) && a.part_focused(Part::Editor(0)));
            } else if a.part_focused(Part::Editor(1)) {
                assert(a.part_focused(p) && a.part_focused(Part::Editor(1)));
            } else if a.part_focused(Part::Editor(2)) {
                assert(a.part_focused(p) && a.part_focused(Part::Editor(2)));
            } else if a.part_focused(Part::Editor(3)) {
                assert(a.part_focused(p) && a.part_focused(Part::Editor(3)));
            } else {
                assert(a.part_focused(p) && a.part_focused(Part::Editor(4)));
            }
        }
    }
    let c1 = ((a.current_focus + 1) % 3) as usize;
    assert(b.only_focused(Part::Editor(c1)));
    assert(b.part_focused(Part::Editor(c1)));
    assert(!b.part_focused(Part::Method) && !b.part_focused(Part::Url));
    assert(editor_focused(b)) by {
        assert(c1 == 0 || c1 == 1 || c1 == 2);
    }
    let c2 = ((c1 + 1) % 3) as usize;
    assert(c.only_focused(Part::Editor(c2)));
    assert(c.part_focused(Part::Editor(c2)));
    assert(!c.part_focused(Part::Method) && !c.part_focused(Part::Url));
    assert(editor_focused(c)) by {
        assert(c2 == 0 || c2 == 1 || c2 == 2);
    }
}

} // verus!
