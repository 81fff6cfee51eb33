//! The application: which panes and dialogs show, which part has the
//! focus, the request being edited and the last reply.
use vstd::prelude::*;
use crate::components::collections::{Collections, FileItemView};
use crate::components::curl_popup::CurlPopup;
use crate::components::directory_picker::{DirectoryPicker, PickerModel};
use crate::components::method_input::MethodInput;
use crate::components::save_popup::{SaveModel, SavePopup};
use crate::components::search_popup::{SearchModel, SearchPopup};
use crate::components::url_input::UrlInput;
use crate::components::editor::{Editor, EditorModel};
use crate::http::{HttpResponseData, RequestPlan};
use crate::listing::{copy_listing, listing_view, DirEntry};
use crate::text::{option_view, string_from};
pub use crate::curl::ParsedRequest;

pub mod requests;
pub mod round_trip;
pub mod routing;

verus! {

/// The events that the main loop hands back to the application.
pub enum AppEvent {
    Increment,
    Decrement,
    Quit,
    HttpResponse(HttpResponseData),
}

/// The parts that can hold the focus.
#[derive(Clone, Copy, Debug, PartialEq, Eq, Structural)]
pub enum Part {
    Method,
    Url,
    Editor(usize),
    Response,
    ResponseHeaders,
    ResponseCookies,
    Explorer,
    CurlPopup,
    SearchPopup,
    SavePopup,
}

/// The work that a key press leaves to the main loop, which reports back
/// through the method named with each.
pub enum AppAction {
    /// Nothing to do.
    Nothing,
    /// Queue an event for the loop.
    Send(AppEvent),
    /// Send the request; the reply goes to `handle_http_response`.
    SendRequest(RequestPlan),
    /// Read a saved request; the content goes to `finish_load`.
    LoadFile(String),
    /// Write a request file; the outcome goes to `finish_save`.
    SaveFile { path: String, contents: String },
    /// Rename a request file where it exists; the outcome goes to `finish_rename`.
    RenameFile { from: String, to: String },
    /// Run the ripgrep searches of `search_commands`; the outputs go to `finish_search`.
    Search(String),
    /// List a folder of the explorer; the listing goes to `expand_folder`.
    ListFolder(String),
    /// List a folder for the save dialog; the listing goes to `open_save_folder`.
    ListSaveFolder(String),
    /// List the working directory; the listing goes to `refresh_collections`.
    RefreshCollections,
}

/// The application's own state, apart from its parts.
pub struct AppState {
    pub show_explorer: bool,
    pub show_response: bool,
    pub running: bool,
    pub counter: u8,
    pub current_focus: usize,
    pub show_popup: bool,
    pub show_curl_popup: bool,
    pub show_search_popup: bool,
    pub show_save_popup: bool,
    pub show_directory_picker: bool,
    pub current_response_focus: usize,
    pub response_status: Option<Seq<char>>,
    pub response_time: Option<u128>,
    pub is_loading: bool,
    pub spinner_state: usize,
    pub spinner_counter: usize,
    pub request_name: Seq<char>,
    pub is_renaming: bool,
    pub rename_input: Seq<char>,
    pub save_error: Option<Seq<char>>,
    pub image_display_enabled: bool,
    pub response_is_image: bool,
}

/// What the parts hold, apart from the focus.
pub struct Contents {
    pub method: Seq<Seq<char>>,
    pub url: Seq<Seq<char>>,
    pub editors: Seq<Seq<Seq<char>>>,
    pub response: Seq<Seq<char>>,
    pub response_headers: Seq<Seq<char>>,
    pub response_cookies: Seq<Seq<char>>,
    pub explorer: Seq<FileItemView>,
    pub explorer_selected: Option<usize>,
    pub curl: Seq<Seq<char>>,
    pub search: SearchModel,
    pub save: SaveModel,
    pub picker: PickerModel,
}

/// The counter after counting up: one more, staying at 255.
pub open spec fn counted_up(c: u8) -> u8 {
    if c < 255 { (c + 1) as u8 } else { 255 }
}

/// The counter after counting down: one less, staying at 0.
pub open spec fn counted_down(c: u8) -> u8 {
    if c > 0 { (c - 1) as u8 } else { 0 }
}

/// Counting up then down gives back the counter below 255; counting down
/// then up gives it back above 0.
pub proof fn law_counter_up_down(c: u8)
    ensures
        c < 255 ==> counted_down(counted_up(c)) == c,
        c > 0 ==> counted_up(counted_down(c)) == c,
{
}

/// The name of a request that was never saved or loaded.
pub open spec fn untitled() -> Seq<char> {
    "Untitled-Request"@
}

/// The application.
pub struct App {
    pub show_explorer: bool,
    pub show_response: bool,
    pub running: bool,
    pub counter: u8,
    pub method_input: MethodInput,
    pub url_input: UrlInput,
    pub collections: Collections,
    pub current_focus: usize,
    pub show_popup: bool,
    pub curl_popup: CurlPopup,
    pub show_curl_popup: bool,
    pub search_popup: SearchPopup,
    pub show_search_popup: bool,
    pub save_popup: SavePopup,
    pub show_save_popup: bool,
    pub directory_picker: DirectoryPicker,
    pub show_directory_picker: bool,
    pub editors: Vec<Editor>,
    pub response: Editor,
    pub response_headers: Editor,
    pub response_cookies: Editor,
    pub current_response_focus: usize,
    pub response_status: Option<String>,
    pub response_time: Option<u128>,
    pub is_loading: bool,
    pub spinner_state: usize,
    pub spinner_counter: usize,
    pub request_name: String,
    pub is_renaming: bool,
    pub rename_input: String,
    pub save_error: Option<String>,
    /// Whether an image reply is to be shown as an image (Ctrl+I toggles).
    pub image_display_enabled: bool,
    /// Whether the reply shown is an image, by its `Content-Type` header.
    pub response_is_image: bool,
}

impl App {
    /// Whether part `p` has the focus.
    pub open spec fn part_focused(&self, p: Part) -> bool {
        match p {
            Part::Method => self.method_input@.focused,
            Part::Url => self.url_input@.focused,
            Part::Editor(i) => i < 5 && i < self.editors@.len() && self.editors@[i as int]@.focused,
            Part::Response => self.response@.focused,
            Part::ResponseHeaders => self.response_headers@.focused,
            Part::ResponseCookies => self.response_cookies@.focused,
            Part::Explorer => self.collections@.focused,
            Part::CurlPopup => self.curl_popup@.focused,
            Part::SearchPopup => self.search_popup@.focused,
            Part::SavePopup => self.save_popup@.focused,
        }
    }

    /// A part that exists: the editors are numbered below five.
    pub open spec fn valid_part(p: Part) -> bool {
        match p {
            Part::Editor(i) => i < 5,
            _ => true,
        }
    }

    /// No two parts have the focus.
    pub open spec fn at_most_one_focused(&self) -> bool {
        forall|p: Part, q: Part| #[trigger] self.part_focused(p) && #[trigger] self.part_focused(q) ==> p == q
    }

    /// Exactly part `p` has the focus.
    pub open spec fn only_focused(&self, p: Part) -> bool {
        &&& self.part_focused(p)
        &&& forall|q: Part| #[trigger] self.part_focused(q) ==> q == p
    }

    /// No part has the focus.
    pub open spec fn none_focused(&self) -> bool {
        forall|q: Part| !#[trigger] self.part_focused(q)
    }

    /// The same parts have the focus in both.
    pub open spec fn same_focus(&self, other: &App) -> bool {
        forall|q: Part| #[trigger] self.part_focused(q) == other.part_focused(q)
    }

    /// The application is well formed: five editors, the request and reply
    /// tab indices and the spinner within their ranges, and at most one part
    /// focused.
    pub open spec fn wf(&self) -> bool {
        &&& self.editors@.len() == 5
        &&& self.current_focus < 3
        &&& self.current_response_focus < 3
        &&& self.spinner_state < 10
        &&& self.spinner_counter < 3
        &&& self.at_most_one_focused()
    }

    pub open spec fn state(&self) -> AppState {
        AppState {
            show_explorer: self.show_explorer,
            show_response: self.show_response,
            running: self.running,
            counter: self.counter,
            current_focus: self.current_focus,
            show_popup: self.show_popup,
            show_curl_popup: self.show_curl_popup,
            show_search_popup: self.show_search_popup,
            show_save_popup: self.show_save_popup,
            show_directory_picker: self.show_directory_picker,
            current_response_focus: self.current_response_focus,
            response_status: option_view(self.response_status),
            response_time: self.response_time,
            is_loading: self.is_loading,
            spinner_state: self.spinner_state,
            spinner_counter: self.spinner_counter,
            request_name: self.request_name@,
            is_renaming: self.is_renaming,
            rename_input: self.rename_input@,
            save_error: option_view(self.save_error),
            image_display_enabled: self.image_display_enabled,
            response_is_image: self.response_is_image,
        }
    }

    pub open spec fn contents(&self) -> Contents {
        Contents {
            method: self.method_input@.lines,
            url: self.url_input@.lines,
            editors: self.editors@.map_values(|e: Editor| e@.rows),
            response: self.response@.rows,
            response_headers: self.response_headers@.rows,
            response_cookies: self.response_cookies@.rows,
            explorer: self.collections@.items,
            explorer_selected: self.collections@.selected,
            curl: self.curl_popup@.lines,
            search: SearchModel { focused: false, ..self.search_popup@ },
            save: SaveModel { focused: false, ..self.save_popup@ },
            picker: self.directory_picker@,
        }
    }

    /// The text of request editor `i`.
    pub open spec fn editor_rows(&self, i: int) -> Seq<Seq<char>> {
        self.editors@[i]@.rows
    }
}

/// Five empty, unfocused editors.
fn five_editors() -> (r: Vec<Editor>)
    ensures
        r@.len() == 5,
        forall|i: int| 0 <= i < 5 ==> (#[trigger] r@[i])@ == (EditorModel { focused: false, rows: Seq::<Seq<char>>::empty() }),
{
    let mut editors: Vec<Editor> = Vec::new();
    let mut k: usize = 0;
    while k < 5
        invariant
            k <= 5,
            editors@.len() == k,
            forall|i: int| 0 <= i < k ==> (#[trigger] editors@[i])@ == (EditorModel { focused: false, rows: Seq::<Seq<char>>::empty() }),
        decreases 5 - k,
    {
        editors.push(Editor::default());
        k = k + 1;
    }
    editors
}

impl App {
    /// The application at start: the explorer over the working directory
    /// `cwd` (given its listing) has the focus, the method field holds GET,
    /// everything else is empty and hidden.
    pub fn new(cwd: String, listing: Option<Vec<DirEntry>>) -> (r: App)
        ensures
            r.wf(),
            r.only_focused(Part::Explorer),
            r.state() == (AppState {
                show_explorer: false,
                show_response: false,
                running: true,
                counter: 0,
                current_focus: 0,
                show_popup: false,
                show_curl_popup: false,
                show_search_popup: false,
                show_save_popup: false,
                show_directory_picker: false,
                current_response_focus: 0,
                response_status: None,
                response_time: None,
                is_loading: false,
                spinner_state: 0,
                spinner_counter: 0,
                request_name: untitled(),
                is_renaming: false,
                rename_input: Seq::<char>::empty(),
                save_error: None,
                image_display_enabled: true,
                response_is_image: false,
            }),
            r.method_input@.lines == seq!["GET"@],
            r.url_input@.lines == seq![Seq::<char>::empty()],
            forall|i: int| 0 <= i < 5 ==> #[trigger] r.editor_rows(i) == Seq::<Seq<char>>::empty(),
            r.response@.rows.len() == 0,
            r.response_headers@.rows.len() == 0,
            r.response_cookies@.rows.len() == 0,
            r.collections@.items == match listing_view(listing) {
                Some(es) => crate::components::collections::listing_items(es, 0),
                None => Seq::<FileItemView>::empty(),
            },
            r.collections@.selected == Some(0usize),
            r.curl_popup@.lines == seq![Seq::<char>::empty()],
            r.search_popup@ == (SearchModel {
                lines: seq![Seq::<char>::empty()],
                focused: false,
                results: Seq::<crate::components::search_popup::SearchResultView>::empty(),
                selected_index: 0,
                list_selected: None,
            }),
            crate::components::directory_picker::rows_of_folder(r.save_popup@.items, cwd@, listing_view(listing), false),
            r.save_popup@.current_path == cwd@,
            r.save_popup@.filename.len() == 0,
            r.save_popup@.selected == Some(0usize),
            crate::components::directory_picker::rows_of_folder(r.directory_picker@.items, cwd@, listing_view(listing), true),
            r.directory_picker@.current_path == cwd@,
            r.directory_picker@.selected_path.is_none(),
    {
        let for_save = copy_listing(&listing);
        let for_picker = copy_listing(&listing);
        let save_popup = SavePopup::new(cwd.clone(), for_save);
        let directory_picker = DirectoryPicker::new(cwd, for_picker);
        let app = App {
            running: true,
            counter: 0,
            method_input: MethodInput::new(),
            url_input: UrlInput::new(),
            collections: Collections::new(listing),
            show_explorer: false,
            show_response: false,
            current_focus: 0,
            show_popup: false,
            curl_popup: CurlPopup::new(),
            show_curl_popup: false,
            search_popup: SearchPopup::new(),
            show_search_popup: false,
            save_popup,
            show_save_popup: false,
            directory_picker,
            show_directory_picker: false,
            editors: five_editors(),
            response: Editor::default(),
            response_headers: Editor::default(),
            response_cookies: Editor::default(),
            current_response_focus: 0,
            response_status: None,
            response_time: None,
            is_loading: false,
            spinner_state: 0,
            spinner_counter: 0,
            request_name: string_from("Untitled-Request"),
            is_renaming: false,
            rename_input: String::new(),
            save_error: None,
            image_display_enabled: true,
            response_is_image: false,
        };
        assert forall|q: Part| #[trigger] app.part_focused(q) implies q == Part::Explorer by {
            match q {
                Part::Editor(i) => {
                    assert(!app.editors@[i as int]@.focused);
                },
                _ => {},
            }
        }
        app
    }

    /// Takes the focus from every part.
    pub fn unfocus(&mut self)
        requires
            old(self).wf(),
        ensures
            final(self).wf(),
            final(self).none_focused(),
            final(self).state() == old(self).state(),
            final(self).contents() == old(self).contents(),
    {
        let mut k: usize = 0;
        while k < self.editors.len()
            invariant
                k <= self.editors@.len() == old(self).editors@.len() == 5,
                forall|i: int| 0 <= i < k ==> !(#[trigger] self.editors@[i])@.focused,
                forall|i: int| 0 <= i < self.editors@.len() ==> (#[trigger] self.editors@[i])@.rows
                    == old(self).editors@[i]@.rows,
                forall|i: int| k <= i < self.editors@.len() ==> #[trigger] self.editors@[i] == old(self).editors@[i],
                self.state() == old(self).state(),
                self.method_input == old(self).method_input,
                self.url_input == old(self).url_input,
                self.response == old(self).response,
                self.response_headers == old(self).response_headers,
                self.response_cookies == old(self).response_cookies,
                self.collections == old(self).collections,
                self.curl_popup == old(self).curl_popup,
                self.search_popup == old(self).search_popup,
                self.save_popup == old(self).save_popup,
                self.directory_picker == old(self).directory_picker,
            decreases self.editors@.len() - k,
        {
            self.editors[k].unfocus();
            k = k + 1;
        }
        self.response.unfocus();
        self.response_headers.unfocus();
        self.response_cookies.unfocus();
        self.url_input.unfocus();
        self.method_input.unfocus();
        self.collections.unfocus();
        self.curl_popup.unfocus();
        self.search_popup.unfocus();
        self.save_popup.unfocus();
        proof {
            assert(self.contents().editors =~= old(self).contents().editors);
            assert forall|q: Part| !#[trigger] self.part_focused(q) by {
                match q {
                    Part::Editor(i) => {
                        if i < 5 {
                            assert(!self.editors@[i as int]@.focused);
                        }
                    },
                    _ => {},
                }
            }
        }
    }

    /// Gives the focus to part `p` alone.
    #[verifier::rlimit(80)]
    pub fn focus_part(&mut self, p: Part)
        requires
            old(self).wf(),
            App::valid_part(p),
        ensures
            final(self).wf(),
            final(self).only_focused(p),
            final(self).state() == old(self).state(),
            final(self).contents() == old(self).contents(),
    {
        self.unfocus();
        let ghost mid = *self;
        match p {
            Part::Method => self.method_input.focus(),
            Part::Url => self.url_input.focus(),
            Part::Editor(i) => {
                self.editors[i].focus();
            },
            Part::Response => self.response.focus(),
            Part::ResponseHeaders => self.response_headers.focus(),
            Part::ResponseCookies => self.response_cookies.focus(),
            Part::Explorer => self.collections.focus(),
            Part::CurlPopup => self.curl_popup.focus(),
            Part::SearchPopup => self.search_popup.focus(),
            Part::SavePopup => self.save_popup.focus(),
        }
        proof {
            assert(self.contents().editors =~= mid.contents().editors);
            lemma_same_except(mid, *self, p);
            lemma_focus_one(mid, *self, p);
        }
    }

    /// Counts a tick of the clock: while a request runs, the spinner
    /// advances one step every third tick.
    #[verifier::rlimit(40)]
    pub fn tick(&mut self)
        requires
            old(self).wf(),
        ensures
            final(self).wf(),
            final(self).state() == (if old(self).state().is_loading {
                if old(self).spinner_counter + 1 >= 3 {
                    AppState {
                        spinner_state: ((old(self).spinner_state + 1) % 10) as usize,
                        spinner_counter: 0,
                        ..old(self).state()
                    }
                } else {
                    AppState { spinner_counter: (old(self).spinner_counter + 1) as usize, ..old(self).state() }
                }
            } else {
                old(self).state()
            }),
            final(self).contents() == old(self).contents(),
            final(self).same_focus(old(self)),
    {
        let ghost before = *self;
        if self.is_loading {
            self.spinner_counter = self.spinner_counter + 1;
            if self.spinner_counter >= 3 {
                self.spinner_state = (self.spinner_state + 1) % 10;
                self.spinner_counter = 0;
            }
        }
        proof {
            lemma_same_parts(before, *self);
        }
    }

    /// Stops the main loop.
    pub fn quit(&mut self)
        requires
            old(self).wf(),
        ensures
            final(self).wf(),
            final(self).state() == (AppState { running: false, ..old(self).state() }),
            final(self).contents() == old(self).contents(),
            final(self).same_focus(old(self)),
    {
        let ghost before = *self;
        self.running = false;
        proof {
            lemma_same_parts(before, *self);
        }
    }

    /// Counts up, staying at 255.
    pub fn increment_counter(&mut self)
        requires
            old(self).wf(),
        ensures
            final(self).wf(),
            final(self).state() == (AppState {
                counter: counted_up(old(self).counter),
                ..old(self).state()
            }),
            final(self).contents() == old(self).contents(),
            final(self).same_focus(old(self)),
    {
        let ghost before = *self;
        self.counter = self.counter.saturating_add(1);
        proof {
            lemma_same_parts(before, *self);
        }
    }

    /// Counts down, staying at 0.
    pub fn decrement_counter(&mut self)
        requires
            old(self).wf(),
        ensures
            final(self).wf(),
            final(self).state() == (AppState {
                counter: counted_down(old(self).counter),
                ..old(self).state()
            }),
            final(self).contents() == old(self).contents(),
            final(self).same_focus(old(self)),
    {
        let ghost before = *self;
        self.counter = self.counter.saturating_sub(1);
        proof {
            lemma_same_parts(before, *self);
        }
    }
}

/// Every part but `p` is as it was.
pub open spec fn same_except(a: App, b: App, p: Part) -> bool {
    &&& (p != Part::Method ==> b.method_input == a.method_input)
    &&& (p != Part::Url ==> b.url_input == a.url_input)
    &&& b.editors@.len() == a.editors@.len()
    &&& (forall|j: usize| p != Part::Editor(j) && j < a.editors@.len() ==> #[trigger] b.editors@[j as int] == a.editors@[j as int])
    &&& (p != Part::Response ==> b.response == a.response)
    &&& (p != Part::ResponseHeaders ==> b.response_headers == a.response_headers)
    &&& (p != Part::ResponseCookies ==> b.response_cookies == a.response_cookies)
    &&& (p != Part::Explorer ==> b.collections == a.collections)
    &&& (p != Part::CurlPopup ==> b.curl_popup == a.curl_popup)
    &&& (p != Part::SearchPopup ==> b.search_popup == a.search_popup)
    &&& (p != Part::SavePopup ==> b.save_popup == a.save_popup)
}

/// Every part is as it was.
pub open spec fn same_parts(a: App, b: App) -> bool {
    &&& b.method_input == a.method_input
    &&& b.url_input == a.url_input
    &&& b.editors@ == a.editors@
    &&& b.response == a.response
    &&& b.response_headers == a.response_headers
    &&& b.response_cookies == a.response_cookies
    &&& b.collections == a.collections
    &&& b.curl_popup == a.curl_popup
    &&& b.search_popup == a.search_popup
    &&& b.save_popup == a.save_popup
}

proof fn lemma_same_except(a: App, b: App, p: Part)
    requires
        same_except(a, b, p),
    ensures
        forall|q: Part| q != p ==> #[trigger] b.part_focused(q) == a.part_focused(q),
{
    assert forall|q: Part| q != p implies #[trigger] b.part_focused(q) == a.part_focused(q) by {
        match q {
            Part::Editor(j) => {
                if j < a.editors@.len() {
                    assert(b.editors@[j as int] == a.editors@[j as int]);
                }
            },
            _ => {},
        }
    }
}

/// The parts of `b` are those of `a`, so the same ones have the focus.
pub proof fn lemma_same_parts(a: App, b: App)
    requires
        same_parts(a, b),
    ensures
        b.same_focus(&a),
        a.at_most_one_focused() ==> b.at_most_one_focused(),
{
    assert forall|q: Part| #[trigger] b.part_focused(q) == a.part_focused(q) by {
        match q {
            Part::Editor(j) => {
                if j < a.editors@.len() {
                    assert(b.editors@[j as int] == a.editors@[j as int]);
                }
            },
            _ => {},
        }
    }
}

proof fn lemma_focus_one(a: App, b: App, p: Part)
    requires
        a.none_focused(),
        b.part_focused(p),
        forall|q: Part| q != p ==> #[trigger] b.part_focused(q) == a.part_focused(q),
    ensures
        b.only_focused(p),
        b.at_most_one_focused(),
{
    assert forall|q: Part| #[trigger] b.part_focused(q) implies q == p by {
        if q != p {
            assert(b.part_focused(q) == a.part_focused(q));
        }
    }
}

/// Every part but `p` is as it was, so no other part's focus changed.
pub proof fn lemma_same_except_pub(a: App, b: App, p: Part)
    requires
        same_except(a, b, p),
    ensures
        forall|q: Part| q != p ==> #[trigger] b.part_focused(q) == a.part_focused(q),
{
    lemma_same_except(a, b, p);
}

/// From no focus, focusing `p` and nothing else leaves `p` alone focused.
pub proof fn lemma_focus_one_pub(a: App, b: App, p: Part)
    requires
        a.none_focused(),
        b.part_focused(p),
        forall|q: Part| q != p ==> #[trigger] b.part_focused(q) == a.part_focused(q),
    ensures
        b.only_focused(p),
        b.at_most_one_focused(),
{
    lemma_focus_one(a, b, p);
}

} // verus!
