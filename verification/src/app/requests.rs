//! The request being edited: clearing it, filling it from a cURL command,
//! sending it and showing the reply, and the files it is saved to, loaded
//! from and renamed in.
use vstd::prelude::*;
use crate::app::{lemma_same_parts, same_parts, untitled, App, AppAction, AppEvent, AppState, Contents, Part};
use crate::components::search_popup::SearchModel;
use crate::components::save_popup::SaveModel;
use crate::curl::{parse_curl_to_request, parsed_command, RequestModel};
use crate::components::editor::text_rows;
use crate::http::{plan_request, planned_request, HttpResponseData, RequestPlan};
use crate::listing::{listing_view, DirEntry};
use crate::paths::{path_file_stem, plain_path, stem_of, after_last_slash, is_infix};
use crate::text::{
    chars_of, has_char, join, join_strings, lemma_map_push, lines_chars, lines_of, option_view, push_char, push_str, str_eq,
    string_from, string_of, trim, trim_chars, trim_string,
};

verus! {

/// The request's name once it is named after the file `path`, from `old`:
/// on a plain path, the stem of its file name; on any path, either the old
/// name or a run of the path's characters holding no `/`.
pub open spec fn named_after(old: Seq<char>, path: Seq<char>, new: Seq<char>) -> bool {
    &&& plain_path(path) ==> new == stem_of(after_last_slash(path))
    &&& new == old || (!has_char(new, '/') && is_infix(new, path))
}


/// One header as a line of the headers pane.
pub open spec fn header_line_text(e: (Seq<char>, Seq<char>)) -> Seq<char> {
    e.0 + ": "@ + e.1
}

/// The headers pane's text for a request's headers: one line each.
pub open spec fn headers_pane_text(entries: Seq<(Seq<char>, Seq<char>)>) -> Seq<char> {
    join(entries.map_values(|e: (Seq<char>, Seq<char>)| header_line_text(e)), "\n"@)
}

/// The request editors after a request is loaded: the headers in the
/// second and the body in the third, each only where there is one.
pub open spec fn request_rows(req: RequestModel) -> Seq<Seq<Seq<char>>> {
    let empty = Seq::<Seq<char>>::empty();
    seq![
        empty,
        if req.headers.len() > 0 { text_rows(headers_pane_text(req.headers)) } else { empty },
        if req.body.len() > 0 { text_rows(req.body) } else { empty },
        empty,
        empty,
    ]
}

/// The parts' contents once the request is cleared: GET, no URL, empty
/// editors and reply panes.
pub open spec fn cleared_contents(c: Contents) -> Contents {
    let empty = Seq::<Seq<char>>::empty();
    Contents {
        method: seq!["GET"@],
        url: seq![Seq::<char>::empty()],
        editors: seq![empty, empty, empty, empty, empty],
        response: empty,
        response_headers: empty,
        response_cookies: empty,
        ..c
    }
}

/// The parts' contents once `req` is loaded.
pub open spec fn loaded_contents(c: Contents, req: RequestModel) -> Contents {
    Contents { method: seq![req.method], url: seq![req.url], editors: request_rows(req), ..cleared_contents(c) }
}

/// The application's state once the request is cleared.
pub open spec fn cleared_state(s: AppState) -> AppState {
    AppState { show_response: false, response_status: None, response_time: None, response_is_image: false, ..s }
}

/// What reading the cURL command `cmd` does, from the parts of `before`
/// and the state `st`: a request that parses replaces the one edited and
/// the URL field takes the focus; otherwise the error is kept for display.
pub open spec fn parse_outcome(before: App, st: AppState, after: App, cmd: Seq<char>) -> bool {
    match parsed_command(cmd) {
        Ok(req) => {
            &&& after.state() == cleared_state(st)
            &&& after.contents() == loaded_contents(before.contents(), req)
            &&& after.only_focused(Part::Url)
        },
        Err(_) => {
            &&& after.state() == (AppState {
                save_error: Some("Failed to parse curl command: "@ + "Not a curl command"@),
                ..st
            })
            &&& after.contents() == before.contents()
            &&& after.same_focus(&before)
        },
    }
}

/// `s` with each single quote written as `'\''`, as a shell reads it
/// inside single quotes.
pub open spec fn escape_quotes(s: Seq<char>) -> Seq<char>
    decreases s.len(),
{
    if s.len() == 0 {
        Seq::<char>::empty()
    } else {
        escape_quotes(s.drop_last()) + if s.last() == '\'' { "'\\''"@ } else { seq![s.last()] }
    }
}

/// The `-H` options for the lines of the headers pane that are not blank.
pub open spec fn header_options(lines: Seq<Seq<char>>) -> Seq<char>
    decreases lines.len(),
{
    if lines.len() == 0 {
        Seq::<char>::empty()
    } else {
        header_options(lines.drop_last()) + if trim(lines.last()).len() > 0 {
            " \\\n  -H '"@ + trim(lines.last()) + "'"@
        } else {
            Seq::<char>::empty()
        }
    }
}

/// The cURL command that a request is saved as.
pub open spec fn saved_command(method: Seq<char>, url: Seq<char>, headers: Seq<char>, body: Seq<char>) -> Seq<char> {
    "curl -X "@ + method + " '"@ + url + "'"@ + header_options(lines_of(headers)) + if body.len() > 0 {
        " \\\n  -d '"@ + escape_quotes(body) + "'"@
    } else {
        Seq::<char>::empty()
    }
}

fn escaped(body: &str) -> (r: String)
    ensures
        r@ == escape_quotes(body@),
{
    let v = chars_of(body);
    let mut r = String::new();
    let mut k: usize = 0;
    while k < v.len()
        invariant
            k <= v.len(),
            v@ == body@,
            r@ == escape_quotes(v@.take(k as int)),
        decreases v.len() - k,
    {
        let c = v[k];
        proof {
            assert(v@.take(k + 1).drop_last() =~= v@.take(k as int));
            assert(v@.take(k + 1).last() == c);
        }
        if c == '\'' {
            push_str(&mut r, "'\\''");
        } else {
            push_char(&mut r, c);
            assert(r@ =~= escape_quotes(v@.take(k as int)) + seq![c]);
        }
        k = k + 1;
    }
    assert(v@.take(v@.len() as int) =~= v@);
    r
}

fn header_option_text(headers: &str) -> (r: String)
    ensures
        r@ == header_options(lines_of(headers@)),
{
    let v = chars_of(headers);
    let ls = lines_chars(&v);
    let ghost lv = lines_of(v@);
    let mut r = String::new();
    let mut k: usize = 0;
    while k < ls.len()
        invariant
            k <= ls.len() == lv.len(),
            lv == lines_of(v@),
            v@ == headers@,
            forall|j: int| 0 <= j < ls@.len() ==> #[trigger] ls@[j]@ == lv[j],
            r@ == header_options(lv.take(k as int)),
        decreases ls.len() - k,
    {
        proof {
            assert(ls@[k as int]@ == lv[k as int]);
            assert(lv.take(k + 1).drop_last() =~= lv.take(k as int));
            assert(lv.take(k + 1).last() == lv[k as int]);
        }
        let t = trim_chars(&ls[k]);
        if t.len() > 0 {
            let ghost before = r@;
            push_str(&mut r, " \\\n  -H '");
            let line = string_of(&t);
            push_str(&mut r, line.as_str());
            push_str(&mut r, "'");
            assert(r@ =~= before + (" \\\n  -H '"@ + t@ + "'"@));
        } else {
            assert(r@ =~= r@ + Seq::<char>::empty());
        }
        k = k + 1;
    }
    assert(lv.take(ls@.len() as int) =~= lv);
    r
}

/// The cURL command that the request fields are saved as.
pub fn saved_command_text(method: &str, url: &str, headers: &str, body: &str) -> (r: String)
    ensures
        r@ == saved_command(method@, url@, headers@, body@),
{
    let mut r = string_from("curl -X ");
    push_str(&mut r, method);
    push_str(&mut r, " '");
    push_str(&mut r, url);
    push_str(&mut r, "'");
    let h = header_option_text(headers);
    push_str(&mut r, h.as_str());
    if !body.is_empty() {
        push_str(&mut r, " \\\n  -d '");
        let e = escaped(body);
        push_str(&mut r, e.as_str());
        push_str(&mut r, "'");
    }
    r
}

/// The headers pane's text for a request's headers.
fn headers_text_of(req: &crate::curl::ParsedRequest) -> (r: String)
    ensures
        r@ == headers_pane_text(req@.headers),
{
    let entries = req.headers.entries();
    let ghost ev = entries@.map_values(|e: (String, String)| (e.0@, e.1@));
    let mut lines: Vec<String> = Vec::new();
    let mut k: usize = 0;
    while k < entries.len()
        invariant
            k <= entries.len(),
            ev == entries@.map_values(|e: (String, String)| (e.0@, e.1@)),
            lines@.map_values(|l: String| l@)
                == ev.take(k as int).map_values(|e: (Seq<char>, Seq<char>)| header_line_text(e)),
        decreases entries.len() - k,
    {
        let mut line = entries[k].0.clone();
        push_str(&mut line, ": ");
        push_str(&mut line, entries[k].1.as_str());
        let ghost before = lines@;
        lines.push(line);
        proof {
            assert(ev[k as int] == (entries@[k as int].0@, entries@[k as int].1@));
            lemma_map_push(before, lines@.last(), |l: String| l@);
            assert(ev.take(k + 1).map_values(|e: (Seq<char>, Seq<char>)| header_line_text(e))
                =~= ev.take(k as int).map_values(|e: (Seq<char>, Seq<char>)| header_line_text(e)).push(
                header_line_text(ev[k as int]),
            ));
        }
        k = k + 1;
    }
    assert(ev.take(entries@.len() as int) =~= ev);
    join_strings(&lines, "\n")
}

impl App {
    /// Empties the request and the reply: GET, no URL, empty editors and
    /// panes, the reply hidden.
    #[verifier::rlimit(100)]
    pub fn clear_request_data(&mut self)
        requires
            old(self).wf(),
        ensures
            final(self).wf(),
            final(self).state() == cleared_state(old(self).state()),
            final(self).contents() == cleared_contents(old(self).contents()),
            final(self).same_focus(old(self)),
    {
        let ghost before = *self;
        self.url_input.clear();
        self.method_input.set_text(string_from("GET"));
        let mut k: usize = 0;
        while k < self.editors.len()
            invariant
                k <= self.editors@.len() == 5,
                forall|i: int| 0 <= i < k ==> (#[trigger] self.editors@[i])@.rows == Seq::<Seq<char>>::empty(),
                forall|i: int| 0 <= i < 5 ==> (#[trigger] self.editors@[i])@.focused == before.editors@[i]@.focused,
                self.state() == before.state(),
                self.url_input@ == (crate::components::url_input::FieldModel {
                    lines: seq![Seq::<char>::empty()],
                    ..before.url_input@
                }),
                self.method_input@ == (crate::components::url_input::FieldModel {
                    lines: seq!["GET"@],
                    ..before.method_input@
                }),
                self.response == before.response,
                self.response_headers == before.response_headers,
                self.response_cookies == before.response_cookies,
                self.collections == before.collections,
                self.curl_popup == before.curl_popup,
                self.search_popup == before.search_popup,
                self.save_popup == before.save_popup,
                self.directory_picker == before.directory_picker,
            decreases 5 - k,
        {
            self.editors[k].clear();
            k = k + 1;
        }
        self.response.clear();
        self.response_headers.clear();
        self.response_cookies.clear();
        self.response_status = None;
        self.response_time = None;
        self.response_is_image = false;
        self.show_response = false;
        proof {
            let empty = Seq::<Seq<char>>::empty();
            assert(self.contents().editors =~= seq![empty, empty, empty, empty, empty]);
            assert forall|q: Part| #[trigger] self.part_focused(q) == before.part_focused(q) by {
                match q {
                    Part::Editor(i) => {
                        if i < 5 {
                            assert(self.editors@[i as int]@.focused == before.editors@[i as int]@.focused);
                        }
                    },
                    _ => {},
                }
            }
            assert(self.at_most_one_focused());
        }
    }

    /// Starts a new request: everything is cleared, the name is reset, and
    /// the URL field takes the focus.
    pub fn new_request(&mut self)
        requires
            old(self).wf(),
        ensures
            final(self).wf(),
            final(self).state() == (AppState { request_name: untitled(), ..cleared_state(old(self).state()) }),
            final(self).contents() == cleared_contents(old(self).contents()),
            final(self).only_focused(Part::Url),
    {
        self.clear_request_data();
        let ghost cleared = *self;
        self.request_name = string_from("Untitled-Request");
        proof {
            lemma_same_parts(cleared, *self);
        }
        self.focus_part(Part::Url);
    }

    /// Reads a cURL command into the request fields; see `parse_outcome`.
    #[verifier::rlimit(40)]
    pub fn parse_curl_command(&mut self, curl_command: &str)
        requires
            old(self).wf(),
        ensures
            final(self).wf(),
            parse_outcome(*old(self), old(self).state(), *final(self), curl_command@),
    {
        let ghost before = *self;
        match parse_curl_to_request(curl_command) {
            Ok(req) => {
                let headers = headers_text_of(&req);
                let has_headers = !req.headers.is_empty();
                self.clear_request_data();
                let ghost cleared = *self;
                self.url_input.set_text(req.url);
                self.method_input.set_text(req.method);
                if has_headers {
                    self.editors[1].set_text(headers);
                }
                if !req.body.as_str().is_empty() {
                    self.editors[2].set_text(req.body);
                }
                proof {
                    lemma_focus_flags(cleared, *self);
                }
                let ghost filled = *self;
                self.focus_part(Part::Url);
                proof {
                    let empty = Seq::<Seq<char>>::empty();
                    assert(filled.contents().editors =~= request_rows(req@));
                }
            },
            Err(e) => {
                let mut msg = string_from("Failed to parse curl command: ");
                push_str(&mut msg, e.as_str());
                self.save_error = Some(msg);
                proof {
                    lemma_same_parts(before, *self);
                }
            },
        }
    }

    /// Sends the request: the reply pane shows and the spinner runs. With
    /// no URL the reply pane shows the error at once and nothing is sent;
    /// otherwise the request of the fields is returned, to be sent.
    pub fn start_http_request(&mut self) -> (r: Option<RequestPlan>)
        requires
            old(self).wf(),
        ensures
            final(self).wf(),
            final(self).same_focus(old(self)),
            old(self).url_input@.lines[0].len() == 0 ==> {
                &&& r.is_none()
                &&& final(self).state() == (AppState {
                    show_response: true,
                    response_status: Some("Error"@),
                    response_time: None,
                    is_loading: false,
                    ..old(self).state()
                })
                &&& final(self).contents() == (Contents {
                    response: text_rows("Error: URL is required"@),
                    ..old(self).contents()
                })
            },
            old(self).url_input@.lines[0].len() > 0 ==> {
                &&& r.is_some()
                &&& r->Some_0@ == planned_request(
                    old(self).method_input@.lines[0],
                    old(self).url_input@.lines[0],
                    crate::components::editor::rows_text(old(self).editor_rows(2)),
                    crate::components::editor::rows_text(old(self).editor_rows(1)),
                )
                &&& final(self).state() == (AppState { show_response: true, is_loading: true, ..old(self).state() })
                &&& final(self).contents() == old(self).contents()
            },
    {
        let ghost before = *self;
        self.is_loading = true;
        self.show_response = true;
        let url = self.url_input.get_text();
        let method = self.method_input.get_text();
        if url.as_str().is_empty() {
            self.response.set_text(string_from("Error: URL is required"));
            self.response_status = Some(string_from("Error"));
            self.response_time = None;
            self.is_loading = false;
            proof {
                lemma_focus_flags(before, *self);
            }
            return None;
        }
        let body = self.editors[2].get_text();
        let headers = self.editors[1].get_text();
        proof {
            lemma_same_parts(before, *self);
        }
        Some(plan_request(method.as_str(), url.as_str(), body.as_str(), headers.as_str()))
    }

    /// Shows a reply: its status, time, body and headers; the reply body
    /// pane takes the focus and the spinner stops.
    pub fn handle_http_response(&mut self, response_data: HttpResponseData)
        requires
            old(self).wf(),
        ensures
            final(self).wf(),
            final(self).state() == (AppState {
                is_loading: false,
                response_status: response_data@.status,
                response_time: response_data@.response_time,
                response_is_image: response_data@.is_image,
                current_response_focus: 0,
                ..old(self).state()
            }),
            final(self).contents() == (Contents {
                response: text_rows(response_data@.body),
                response_headers: text_rows(response_data@.headers),
                ..old(self).contents()
            }),
            final(self).only_focused(Part::Response),
    {
        let ghost before = *self;
        self.is_loading = false;
        self.response_status = response_data.status;
        self.response_time = response_data.response_time;
        self.response_is_image = response_data.is_image;
        self.response.set_text(response_data.body);
        self.response_headers.set_text(response_data.headers);
        self.current_response_focus = 0;
        proof {
            lemma_focus_flags(before, *self);
        }
        self.focus_part(Part::Response);
    }

    /// The cURL command that the request is saved as.
    pub fn request_file_contents(&self) -> (r: String)
        requires
            self.wf(),
        ensures
            r@ == saved_command(
                self.method_input@.lines[0],
                self.url_input@.lines[0],
                crate::components::editor::rows_text(self.editor_rows(1)),
                crate::components::editor::rows_text(self.editor_rows(2)),
            ),
    {
        let url = self.url_input.get_text();
        let method = self.method_input.get_text();
        let headers = self.editors[1].get_text();
        let body = self.editors[2].get_text();
        saved_command_text(method.as_str(), url.as_str(), headers.as_str(), body.as_str())
    }
}

/// A fresh random identifier (uuid's `Uuid::new_v4`), written in its
/// hyphenated form, which has 36 characters; which identifier comes out is
/// left open.
#[verifier::external_body]
fn random_id() -> (r: String)
    ensures
        r@.len() == 36,
{
    uuid::Uuid::new_v4().to_string()
}

/// The state once a rename is done: the trimmed new name is the request's
/// name, and the rename prompt is closed and emptied.
pub open spec fn renamed_state(s: AppState) -> AppState {
    AppState {
        request_name: trim(s.rename_input),
        is_renaming: false,
        rename_input: Seq::<char>::empty(),
        save_error: None,
        ..s
    }
}

/// A rename needs the request file to be renamed: the request has been
/// named before, and the new name differs.
pub open spec fn renames_file(s: AppState) -> bool {
    s.request_name != untitled() && s.request_name != trim(s.rename_input)
}

impl App {
    /// The file name offered in the save dialog: the request's name with
    /// `.curl`, or a fresh random name for a request never named.
    pub fn save_filename(&self) -> (r: String)
        ensures
            self.request_name@ != untitled() ==> r@ == self.request_name@ + ".curl"@,
            self.request_name@ == untitled() ==> r@.len() == 41 && r@.skip(36) == ".curl"@,
    {
        let mut name = if str_eq(self.request_name.as_str(), "Untitled-Request") {
            random_id()
        } else {
            self.request_name.clone()
        };
        let ghost stem = name@;
        push_str(&mut name, ".curl");
        proof {
            reveal_strlit(".curl");
            assert(name@.skip(stem.len() as int) =~= ".curl"@);
        }
        name
    }

    /// Names the request after the file `path` (its stem, by the platform's
    /// path rules), where the path has one.
    fn name_after(&mut self, path: &str)
        requires
            old(self).wf(),
        ensures
            final(self).wf(),
            named_after(old(self).request_name@, path@, final(self).request_name@),
            final(self).state() == (AppState { request_name: final(self).request_name@, ..old(self).state() }),
            same_parts(*old(self), *final(self)),
            final(self).directory_picker == old(self).directory_picker,
            final(self).contents() == old(self).contents(),
            final(self).same_focus(old(self)),
    {
        let ghost before = *self;
        match path_file_stem(path) {
            Some(n) => self.request_name = n,
            None => {},
        }
        proof {
            lemma_same_parts(before, *self);
        }
    }

    /// Takes the content of a saved request, read from `path` (or the error
    /// that reading gave): the request is named after the file, then the
    /// content is read as a cURL command (see `parse_outcome`), or the error
    /// is kept for display.
    pub fn finish_load(&mut self, path: &str, content: Result<String, String>)
        requires
            old(self).wf(),
        ensures
            final(self).wf(),
            match content {
                Ok(c) => parse_outcome(
                    *old(self),
                    AppState { request_name: final(self).request_name@, ..old(self).state() },
                    *final(self),
                    c@,
                ) && named_after(old(self).request_name@, path@, final(self).request_name@),
                Err(e) => {
                    &&& named_after(old(self).request_name@, path@, final(self).request_name@)
                    &&& final(self).state() == (AppState {
                        request_name: final(self).request_name@,
                        save_error: Some("Failed to load file: "@ + e@),
                        ..old(self).state()
                    })
                    &&& final(self).contents() == old(self).contents()
                    &&& final(self).same_focus(old(self))
                },
            },
    {
        self.name_after(path);
        let ghost named = *self;
        match content {
            Ok(c) => {
                self.parse_curl_command(c.as_str());
                proof {
                    assert(self.state().request_name == named.state().request_name);
                    assert(named.state() == AppState { request_name: self.request_name@, ..old(self).state() });
                    lemma_parse_outcome_from(named, *old(self), named.state(), *self, c@);
                }
            },
            Err(e) => {
                let mut msg = string_from("Failed to load file: ");
                push_str(&mut msg, e.as_str());
                self.save_error = Some(msg);
                proof {
                    lemma_same_parts(named, *self);
                }
            },
        }
    }

    /// Takes the outcome of writing the request to `path`: on success the
    /// request is named after the file and the explorer is to be listed
    /// again; otherwise the error is kept for display.
    pub fn finish_save(&mut self, path: &str, result: Result<(), String>) -> (r: AppAction)
        requires
            old(self).wf(),
        ensures
            final(self).wf(),
            final(self).contents() == old(self).contents(),
            final(self).same_focus(old(self)),
            match result {
                Ok(_) => r is RefreshCollections && final(self).state() == (AppState {
                    request_name: final(self).request_name@,
                    ..old(self).state()
                }) && named_after(old(self).request_name@, path@, final(self).request_name@),
                Err(e) => r is Nothing && final(self).state() == (AppState {
                    save_error: Some("Failed to save file: "@ + e@),
                    ..old(self).state()
                }),
            },
    {
        let ghost before = *self;
        let r = match result {
            Ok(_) => {
                self.name_after(path);
                AppAction::RefreshCollections
            },
            Err(e) => {
                let mut msg = string_from("Failed to save file: ");
                push_str(&mut msg, e.as_str());
                self.save_error = Some(msg);
                AppAction::Nothing
            },
        };
        proof {
            lemma_same_parts(before, *self);
        }
        r
    }

    fn apply_rename(&mut self) -> (r: AppAction)
        requires
            old(self).wf(),
        ensures
            final(self).wf(),
            final(self).state() == renamed_state(old(self).state()),
            final(self).contents() == old(self).contents(),
            final(self).same_focus(old(self)),
            r is RefreshCollections,
    {
        let ghost before = *self;
        self.request_name = trim_string(self.rename_input.as_str());
        self.is_renaming = false;
        self.rename_input = String::new();
        self.save_error = None;
        proof {
            lemma_same_parts(before, *self);
        }
        AppAction::RefreshCollections
    }

    /// Ends the rename prompt with its (trimmed) text: a blank name closes
    /// the prompt; a new name for a named request asks for its file to be
    /// renamed first; otherwise the name is taken at once.
    pub fn save_renamed_request(&mut self) -> (r: AppAction)
        requires
            old(self).wf(),
        ensures
            final(self).wf(),
            final(self).contents() == old(self).contents(),
            final(self).same_focus(old(self)),
            trim(old(self).rename_input@).len() == 0 ==> r is Nothing
                && final(self).state() == (AppState { is_renaming: false, ..old(self).state() }),
            trim(old(self).rename_input@).len() > 0 && renames_file(old(self).state()) ==> final(self).state()
                == old(self).state() && (r matches AppAction::RenameFile { from, to } && from@
                == old(self).request_name@ + ".curl"@ && to@ == trim(old(self).rename_input@) + ".curl"@),
            trim(old(self).rename_input@).len() > 0 && !renames_file(old(self).state()) ==> r is RefreshCollections
                && final(self).state() == renamed_state(old(self).state()),
    {
        let ghost before = *self;
        let new_name = trim_string(self.rename_input.as_str());
        if new_name.as_str().is_empty() {
            self.is_renaming = false;
            proof {
                lemma_same_parts(before, *self);
            }
            return AppAction::Nothing;
        }
        if !str_eq(self.request_name.as_str(), "Untitled-Request") && !str_eq(
            self.request_name.as_str(),
            new_name.as_str(),
        ) {
            let mut from = self.request_name.clone();
            push_str(&mut from, ".curl");
            let mut to = new_name;
            push_str(&mut to, ".curl");
            proof {
                lemma_same_parts(before, *self);
            }
            return AppAction::RenameFile { from, to };
        }
        self.apply_rename()
    }

    /// Takes the outcome of renaming the request file: on success the new
    /// name is taken (see `save_renamed_request`); otherwise the error is
    /// kept for display and the prompt closes.
    pub fn finish_rename(&mut self, result: Result<(), String>) -> (r: AppAction)
        requires
            old(self).wf(),
        ensures
            final(self).wf(),
            final(self).contents() == old(self).contents(),
            final(self).same_focus(old(self)),
            match result {
                Ok(_) => r is RefreshCollections && final(self).state() == renamed_state(old(self).state()),
                Err(e) => r is Nothing && final(self).state() == (AppState {
                    save_error: Some("Failed to rename file: "@ + e@),
                    is_renaming: false,
                    ..old(self).state()
                }),
            },
    {
        match result {
            Ok(_) => self.apply_rename(),
            Err(e) => {
                let ghost before = *self;
                let mut msg = string_from("Failed to rename file: ");
                push_str(&mut msg, e.as_str());
                self.save_error = Some(msg);
                self.is_renaming = false;
                proof {
                    lemma_same_parts(before, *self);
                }
                AppAction::Nothing
            },
        }
    }

    /// Takes the working directory's listing again (`None` when it could
    /// not be read).
    pub fn refresh_collections(&mut self, listing: Option<Vec<DirEntry>>)
        requires
            old(self).wf(),
        ensures
            final(self).wf(),
            final(self).state() == old(self).state(),
            final(self).contents() == (Contents {
                explorer: match listing_view(listing) {
                    Some(es) => crate::components::collections::listing_items(es, 0),
                    None => old(self).contents().explorer,
                },
                ..old(self).contents()
            }),
            final(self).same_focus(old(self)),
    {
        let ghost before = *self;
        self.collections.refresh(listing);
        proof {
            lemma_focus_flags(before, *self);
        }
    }

    /// Opens the selected explorer folder with its listing (`None` when it
    /// could not be read).
    pub fn expand_folder(&mut self, listing: Option<Vec<DirEntry>>)
        requires
            old(self).wf(),
            crate::components::collections::can_expand(old(self).collections@) ==> old(self).collections@.items[old(
                self,
            ).collections@.selected->Some_0 as int].depth < usize::MAX,
        ensures
            final(self).wf(),
            final(self).state() == old(self).state(),
            final(self).contents() == (Contents {
                explorer: if crate::components::collections::can_expand(old(self).collections@) {
                    crate::components::collections::expanded_items(old(self).collections@, listing_view(listing))
                } else {
                    old(self).contents().explorer
                },
                ..old(self).contents()
            }),
            final(self).same_focus(old(self)),
    {
        let ghost before = *self;
        self.collections.expand_folder(listing);
        proof {
            lemma_focus_flags(before, *self);
        }
    }

    /// Opens the folder `path` in the save dialog, with its listing.
    pub fn open_save_folder(&mut self, path: String, listing: Option<Vec<DirEntry>>)
        requires
            old(self).wf(),
        ensures
            final(self).wf(),
            final(self).state() == old(self).state(),
            crate::components::directory_picker::rows_of_folder(
                final(self).save_popup@.items,
                path@,
                listing_view(listing),
                false,
            ),
            final(self).save_popup@.current_path == path@,
            final(self).save_popup@.filename == old(self).save_popup@.filename,
            final(self).save_popup@.selected == (if final(self).save_popup@.items.len() > 0 {
                Some(0usize)
            } else {
                old(self).save_popup@.selected
            }),
            final(self).contents() == (Contents {
                save: SaveModel { focused: false, ..final(self).save_popup@ },
                ..old(self).contents()
            }),
            final(self).same_focus(old(self)),
    {
        let ghost before = *self;
        self.save_popup.open_directory(path, listing);
        proof {
            lemma_focus_flags(before, *self);
        }
    }

    /// Shows the results of a search for `query`, given what the ripgrep
    /// runs of `search_commands(query)` printed.
    pub fn finish_search(&mut self, query: &str, names: &Option<String>, contents: &Option<String>)
        requires
            old(self).wf(),
        ensures
            final(self).wf(),
            final(self).state() == old(self).state(),
            final(self).contents() == (Contents {
                search: SearchModel {
                    results: crate::components::search_popup::found_files(
                        query@,
                        option_view(*names),
                        option_view(*contents),
                    ),
                    selected_index: 0,
                    list_selected: if crate::components::search_popup::found_files(
                        query@,
                        option_view(*names),
                        option_view(*contents),
                    ).len() > 0 {
                        Some(0usize)
                    } else {
                        None
                    },
                    ..old(self).contents().search
                },
                ..old(self).contents()
            }),
            final(self).same_focus(old(self)),
    {
        let ghost before = *self;
        self.search_popup.search_files(query, names, contents);
        proof {
            lemma_focus_flags(before, *self);
        }
    }

    /// Acts on an event of the main loop: the counter, quitting, or a reply.
    #[verifier::rlimit(40)]
    pub fn handle_app_event(&mut self, event: AppEvent)
        requires
            old(self).wf(),
        ensures
            final(self).wf(),
            match event {
                AppEvent::Increment => final(self).state() == (AppState {
                    counter: crate::app::counted_up(old(self).counter),
                    ..old(self).state()
                }) && final(self).contents() == old(self).contents() && final(self).same_focus(old(self)),
                AppEvent::Decrement => final(self).state() == (AppState {
                    counter: crate::app::counted_down(old(self).counter),
                    ..old(self).state()
                }) && final(self).contents() == old(self).contents() && final(self).same_focus(old(self)),
                AppEvent::Quit => final(self).state() == (AppState { running: false, ..old(self).state() })
                    && final(self).contents() == old(self).contents() && final(self).same_focus(old(self)),
                AppEvent::HttpResponse(d) => {
                    &&& final(self).state() == (AppState {
                        is_loading: false,
                        response_status: d@.status,
                        response_time: d@.response_time,
                        response_is_image: d@.is_image,
                        current_response_focus: 0,
                        ..old(self).state()
                    })
                    &&& final(self).contents() == (Contents {
                        response: text_rows(d@.body),
                        response_headers: text_rows(d@.headers),
                        ..old(self).contents()
                    })
                    &&& final(self).only_focused(Part::Response)
                },
            },
    {
        match event {
            AppEvent::Increment => self.increment_counter(),
            AppEvent::Decrement => self.decrement_counter(),
            AppEvent::Quit => self.quit(),
            AppEvent::HttpResponse(d) => self.handle_http_response(d),
        }
    }
}

/// The outcome of a parse depends on the parts only through their
/// contents and focus.
proof fn lemma_parse_outcome_from(a: App, b: App, st: AppState, after: App, cmd: Seq<char>)
    requires
        parse_outcome(a, st, after, cmd),
        a.contents() == b.contents(),
        a.same_focus(&b),
    ensures
        parse_outcome(b, st, after, cmd),
{
    match parsed_command(cmd) {
        Ok(_) => {},
        Err(_) => {
            assert forall|q: Part| #[trigger] after.part_focused(q) == b.part_focused(q) by {
                assert(after.part_focused(q) == a.part_focused(q));
                assert(a.part_focused(q) == b.part_focused(q));
            }
        },
    }
}

/// Every part's focus flag is as it was.
pub open spec fn same_flags(a: App, b: App) -> bool {
    &&& b.editors@.len() == a.editors@.len() == 5
    &&& forall|i: int| 0 <= i < 5 ==> (#[trigger] b.editors@[i])@.focused == a.editors@[i]@.focused
    &&& b.method_input@.focused == a.method_input@.focused
    &&& b.url_input@.focused == a.url_input@.focused
    &&& b.response@.focused == a.response@.focused
    &&& b.response_headers@.focused == a.response_headers@.focused
    &&& b.response_cookies@.focused == a.response_cookies@.focused
    &&& b.collections@.focused == a.collections@.focused
    &&& b.curl_popup@.focused == a.curl_popup@.focused
    &&& b.search_popup@.focused == a.search_popup@.focused
    &&& b.save_popup@.focused == a.save_popup@.focused
}

/// With every focus flag as it was, the same parts have the focus.
pub proof fn lemma_focus_flags(a: App, b: App)
    requires
        same_flags(a, b),
    ensures
        b.same_focus(&a),
        a.at_most_one_focused() ==> b.at_most_one_focused(),
{
    assert forall|q: Part| #[trigger] b.part_focused(q) == a.part_focused(q) by {
        match q {
            Part::Editor(i) => {
                if i < 5 {
                    assert(b.editors@[i as int]@.focused == a.editors@[i as int]@.focused);
                }
            },
            _ => {},
        }
    }
}

} // verus!
