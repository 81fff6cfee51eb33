//! HTTP requests as plain values: the request that the editor's fields
//! describe, and the text that the response panes show of a reply.
use vstd::prelude::*;
use crate::text::{
    chars_of, find_char, find_first, lemma_map_push, lines_chars, lines_of, option_view, push_decimal, push_str,
    slice_range, string_from, string_of, trim, trim_chars, decimal, starts_with, str_starts_with, trim_string,
};

verus! {

/// std's `str::to_uppercase`: the Unicode uppercase mapping of a string.
pub uninterp spec fn uppercase(s: Seq<char>) -> Seq<char>;

/// Calls std's `str::to_uppercase`; the contract names its result.
#[verifier::external_body]
fn to_uppercase(s: &str) -> (r: String)
    ensures
        r@ == uppercase(s@),
{
    s.to_uppercase()
}

/// The methods that a request is sent with.
#[derive(Clone, Copy, Debug, PartialEq, Eq, Structural)]
pub enum Method {
    Get,
    Post,
    Put,
    Delete,
    Patch,
}

/// The method that the method field names, read without regard to case;
/// an unknown method is sent as GET.
pub open spec fn method_of(upper: Seq<char>) -> Method {
    if upper == "POST"@ {
        Method::Post
    } else if upper == "PUT"@ {
        Method::Put
    } else if upper == "DELETE"@ {
        Method::Delete
    } else if upper == "PATCH"@ {
        Method::Patch
    } else {
        Method::Get
    }
}

/// POST, PUT and PATCH carry the body, when there is one.
pub open spec fn sends_body(m: Method) -> bool {
    m == Method::Post || m == Method::Put || m == Method::Patch
}

/// One line of the headers pane as a header: the trimmed text before the
/// first colon and the trimmed text after it; nothing for a line without a
/// colon.
pub open spec fn header_of_line(line: Seq<char>) -> Option<(Seq<char>, Seq<char>)> {
    match find_first(line, ':') {
        Some(i) => Some((trim(line.take(i)), trim(line.skip(i + 1)))),
        None => None,
    }
}

/// The headers that the lines give, in order.
pub open spec fn headers_of_lines(lines: Seq<Seq<char>>) -> Seq<(Seq<char>, Seq<char>)>
    decreases lines.len(),
{
    if lines.len() == 0 {
        Seq::<(Seq<char>, Seq<char>)>::empty()
    } else {
        let rest = headers_of_lines(lines.drop_last());
        match header_of_line(lines.last()) {
            Some(h) => rest.push(h),
            None => rest,
        }
    }
}

/// The headers that the headers pane's text gives.
pub open spec fn headers_of_text(text: Seq<char>) -> Seq<(Seq<char>, Seq<char>)> {
    headers_of_lines(lines_of(text))
}

/// A request to send, as plain values.
pub struct PlanModel {
    pub method: Method,
    pub url: Seq<char>,
    pub body: Option<Seq<char>>,
    pub headers: Seq<(Seq<char>, Seq<char>)>,
}

/// A request to send: method, URL, the body where one is sent, headers.
pub struct RequestPlan {
    pub method: Method,
    pub url: String,
    pub body: Option<String>,
    pub headers: Vec<(String, String)>,
}

/// A pair of strings as character sequences.
pub open spec fn pair_view(p: (String, String)) -> (Seq<char>, Seq<char>) {
    (p.0@, p.1@)
}

impl View for RequestPlan {
    type V = PlanModel;

    open spec fn view(&self) -> PlanModel {
        PlanModel {
            method: self.method,
            url: self.url@,
            body: option_view(self.body),
            headers: self.headers@.map_values(|p: (String, String)| pair_view(p)),
        }
    }
}

/// The request that the fields describe: the method named in the method
/// field, the URL, the body for a method that carries one when it is not
/// empty, and the headers of the headers pane.
pub open spec fn planned_request(method: Seq<char>, url: Seq<char>, body: Seq<char>, headers: Seq<char>) -> PlanModel {
    let m = method_of(uppercase(method));
    PlanModel {
        method: m,
        url: url,
        body: if sends_body(m) && body.len() > 0 { Some(body) } else { None },
        headers: headers_of_text(headers),
    }
}

fn method_from(upper: &str) -> (r: Method)
    ensures
        r == method_of(upper@),
{
    if crate::text::str_eq(upper, "POST") {
        Method::Post
    } else if crate::text::str_eq(upper, "PUT") {
        Method::Put
    } else if crate::text::str_eq(upper, "DELETE") {
        Method::Delete
    } else if crate::text::str_eq(upper, "PATCH") {
        Method::Patch
    } else {
        Method::Get
    }
}

fn header_line(line: &Vec<char>) -> (r: Option<(String, String)>)
    ensures
        match r {
            Some(p) => header_of_line(line@) == Some(pair_view(p)),
            None => header_of_line(line@).is_none(),
        },
{
    match find_char(line, ':') {
        Some(i) => {
            let key = slice_range(line, 0, i);
            let value = slice_range(line, i + 1, line.len());
            assert(key@ =~= line@.take(i as int));
            assert(value@ =~= line@.skip(i + 1));
            let k = trim_chars(&key);
            let v = trim_chars(&value);
            Some((string_of(&k), string_of(&v)))
        },
        None => None,
    }
}

/// The headers that the headers pane's text gives.
pub fn request_headers(text: &str) -> (r: Vec<(String, String)>)
    ensures
        r@.map_values(|p: (String, String)| pair_view(p)) == headers_of_text(text@),
{
    let v = chars_of(text);
    let ls = lines_chars(&v);
    let ghost lv = lines_of(v@);
    let mut r: Vec<(String, String)> = Vec::new();
    let mut k: usize = 0;
    while k < ls.len()
        invariant
            k <= ls.len() == lv.len(),
            lv == lines_of(v@),
            v@ == text@,
            forall|j: int| 0 <= j < ls@.len() ==> #[trigger] ls@[j]@ == lv[j],
            r@.map_values(|p: (String, String)| pair_view(p)) == headers_of_lines(lv.take(k as int)),
        decreases ls.len() - k,
    {
        proof {
            assert(ls@[k as int]@ == lv[k as int]);
            assert(lv.take(k + 1).drop_last() =~= lv.take(k as int));
            assert(lv.take(k + 1).last() == lv[k as int]);
        }
        match header_line(&ls[k]) {
            Some(p) => {
                let ghost before = r@;
                r.push(p);
                proof {
                    lemma_map_push(before, r@.last(), |p: (String, String)| pair_view(p));
                }
            },
            None => {},
        }
        k = k + 1;
    }
    proof {
        assert(lv.take(ls@.len() as int) =~= lv);
    }
    r
}

/// The request that the method field, URL field, body pane and headers
/// pane describe.
pub fn plan_request(method: &str, url: &str, body: &str, headers: &str) -> (r: RequestPlan)
    ensures
        r@ == planned_request(method@, url@, body@, headers@),
{
    let upper = to_uppercase(method);
    let m = method_from(upper.as_str());
    let carries = m == Method::Post || m == Method::Put || m == Method::Patch;
    let b = if carries && !body.is_empty() { Some(string_from(body)) } else { None };
    RequestPlan { method: m, url: string_from(url), body: b, headers: request_headers(headers) }
}

/// A reply as the response panes show it.
pub struct HttpResponseData {
    pub status: Option<String>,
    pub response_time: Option<u128>,
    pub body: String,
    pub headers: String,
    pub is_image: bool,
}

/// A reply as plain values.
pub struct ResponseModel {
    pub status: Option<Seq<char>>,
    pub response_time: Option<u128>,
    pub body: Seq<char>,
    pub headers: Seq<char>,
    pub is_image: bool,
}

impl View for HttpResponseData {
    type V = ResponseModel;

    open spec fn view(&self) -> ResponseModel {
        ResponseModel {
            status: option_view(self.status),
            response_time: self.response_time,
            body: self.body@,
            headers: self.headers@,
            is_image: self.is_image,
        }
    }
}

/// The pretty-printed form of a JSON document, `None` where the text is
/// not JSON.
pub uninterp spec fn json_pretty(text: Seq<char>) -> Option<Seq<char>>;

/// serde_json's `from_str` into a `serde_json::Value`, then
/// `to_string_pretty` of that value; the contract names the result,
/// `None` where either step fails.
#[verifier::external_body]
fn pretty_json(text: &str) -> (r: Option<String>)
    ensures
        option_view(r) == json_pretty(text@),
{
    match serde_json::from_str::<serde_json::Value>(text) {
        Ok(v) => serde_json::to_string_pretty(&v).ok(),
        Err(_) => None,
    }
}

/// A reply's body as shown: pretty-printed where it is JSON.
pub open spec fn shown_body(body: Seq<char>) -> Seq<char> {
    match json_pretty(body) {
        Some(p) => p,
        None => body,
    }
}

/// One response header as a line of the headers pane; a value that is
/// not visible ASCII shows as empty.
pub open spec fn header_text(h: (Seq<char>, Option<Seq<char>>)) -> Seq<char> {
    h.0 + ": "@ + match h.1 {
        Some(v) => v,
        None => Seq::<char>::empty(),
    } + "\n"@
}

/// The headers pane's text for a reply's headers.
pub open spec fn headers_text(hs: Seq<(Seq<char>, Option<Seq<char>>)>) -> Seq<char>
    decreases hs.len(),
{
    if hs.len() == 0 {
        Seq::<char>::empty()
    } else {
        headers_text(hs.drop_last()) + header_text(hs.last())
    }
}

pub open spec fn reply_header_view(h: (String, Option<String>)) -> (Seq<char>, Option<Seq<char>>) {
    (h.0@, option_view(h.1))
}

/// `n` is the header name `Content-Type`, letters in either case.
pub open spec fn names_content_type(n: Seq<char>) -> bool {
    &&& n.len() == 12
    &&& forall|i: int| 0 <= i < 12 ==> (#[trigger] n[i] == "content-type"@[i] || n[i] == "CONTENT-TYPE"@[i])
}

/// A reply is an image where a `Content-Type` header gives a type that
/// starts with `image/`.
pub open spec fn image_reply(headers: Seq<(Seq<char>, Option<Seq<char>>)>) -> bool {
    exists|k: int| 0 <= k < headers.len() && names_content_type(#[trigger] headers[k].0) && (headers[k].1 matches Some(
        v,
    ) && starts_with(trim(v), "image/"@))
}

fn is_content_type(n: &str) -> (r: bool)
    ensures
        r == names_content_type(n@),
{
    let v = chars_of(n);
    let lower = chars_of("content-type");
    let upper = chars_of("CONTENT-TYPE");
    proof {
        reveal_strlit("content-type");
        reveal_strlit("CONTENT-TYPE");
    }
    if v.len() != 12 {
        return false;
    }
    let mut i: usize = 0;
    while i < 12
        invariant
            v@ == n@,
            lower@ == "content-type"@,
            upper@ == "CONTENT-TYPE"@,
            v.len() == 12,
            lower.len() == 12,
            upper.len() == 12,
            i <= 12,
            forall|j: int| 0 <= j < i ==> (#[trigger] v@[j] == lower@[j] || v@[j] == upper@[j]),
        decreases 12 - i,
    {
        if v[i] != lower[i] && v[i] != upper[i] {
            return false;
        }
        i = i + 1;
    }
    true
}

/// Whether the reply's headers mark it as an image; see `image_reply`.
pub fn is_image_reply(headers: &Vec<(String, Option<String>)>) -> (r: bool)
    ensures
        r == image_reply(headers@.map_values(|h: (String, Option<String>)| reply_header_view(h))),
{
    let ghost hv = headers@.map_values(|h: (String, Option<String>)| reply_header_view(h));
    let mut k: usize = 0;
    while k < headers.len()
        invariant
            k <= headers.len(),
            hv == headers@.map_values(|h: (String, Option<String>)| reply_header_view(h)),
            forall|j: int| 0 <= j < k ==> !(names_content_type(#[trigger] hv[j].0) && (hv[j].1 matches Some(v)
                && starts_with(trim(v), "image/"@))),
        decreases headers.len() - k,
    {
        let h = &headers[k];
        assert(hv[k as int] == reply_header_view(*h));
        if is_content_type(h.0.as_str()) {
            match &h.1 {
                Some(v) => {
                    let t = trim_string(v.as_str());
                    if str_starts_with(t.as_str(), "image/") {
                        assert(hv[k as int].1 == Some(v@));
                        assert(names_content_type(hv[k as int].0) && (hv[k as int].1 matches Some(x) && starts_with(
                            trim(x),
                            "image/"@,
                        )));
                        return true;
                    }
                },
                None => {},
            }
        }
        k = k + 1;
    }
    false
}

/// What the panes show of a reply with the given status code, elapsed
/// milliseconds, headers (name, and value where it is visible ASCII) and
/// body (or the error that reading it gave).
pub open spec fn reply_shown(
    status: u16,
    millis: u128,
    headers: Seq<(Seq<char>, Option<Seq<char>>)>,
    body: Result<Seq<char>, Seq<char>>,
) -> ResponseModel {
    ResponseModel {
        status: Some(decimal(status as nat)),
        response_time: Some(millis),
        body: match body {
            Ok(b) => shown_body(b),
            Err(e) => "Error reading response body: "@ + e,
        },
        headers: headers_text(headers),
        is_image: image_reply(headers),
    }
}

/// What the panes show of a reply; see `reply_shown`.
pub fn response_from_reply(
    status: u16,
    millis: u128,
    headers: &Vec<(String, Option<String>)>,
    body: Result<String, String>,
) -> (r: HttpResponseData)
    ensures
        r@ == reply_shown(
            status,
            millis,
            headers@.map_values(|h: (String, Option<String>)| reply_header_view(h)),
            match body {
                Ok(b) => Ok::<Seq<char>, Seq<char>>(b@),
                Err(e) => Err::<Seq<char>, Seq<char>>(e@),
            },
        ),
{
    let mut code = String::new();
    push_decimal(&mut code, status as u128);
    assert(code@ =~= decimal(status as nat));
    let ghost hv = headers@.map_values(|h: (String, Option<String>)| reply_header_view(h));
    let mut text = String::new();
    let mut k: usize = 0;
    while k < headers.len()
        invariant
            k <= headers.len(),
            hv == headers@.map_values(|h: (String, Option<String>)| reply_header_view(h)),
            text@ == headers_text(hv.take(k as int)),
        decreases headers.len() - k,
    {
        let h = &headers[k];
        let ghost before = text@;
        push_str(&mut text, h.0.as_str());
        push_str(&mut text, ": ");
        match &h.1 {
            Some(v) => push_str(&mut text, v.as_str()),
            None => {},
        }
        push_str(&mut text, "\n");
        proof {
            assert(hv[k as int] == reply_header_view(*h));
            assert(hv.take(k + 1).drop_last() =~= hv.take(k as int));
            assert(hv.take(k + 1).last() == hv[k as int]);
            let hs: Seq<char> = match option_view(h.1) {
                Some(v) => v,
                None => Seq::<char>::empty(),
            };
            assert(text@ =~= before + (h.0@ + ": "@ + hs + "\n"@));
        }
        k = k + 1;
    }
    proof {
        assert(hv.take(headers@.len() as int) =~= hv);
    }
    let shown = match body {
        Ok(b) => match pretty_json(b.as_str()) {
            Some(p) => p,
            None => b,
        },
        Err(e) => {
            let mut m = string_from("Error reading response body: ");
            push_str(&mut m, e.as_str());
            m
        },
    };
    let is_image = is_image_reply(headers);
    HttpResponseData { status: Some(code), response_time: Some(millis), body: shown, headers: text, is_image }
}

/// What the panes show when a request could not be sent.
pub fn response_from_error(millis: u128, error: &str) -> (r: HttpResponseData)
    ensures
        r@ == (ResponseModel {
            status: Some("Error"@),
            response_time: Some(millis),
            body: "Request failed: "@ + error@,
            headers: Seq::<char>::empty(),
            is_image: false,
        }),
{
    let mut body = string_from("Request failed: ");
    push_str(&mut body, error);
    HttpResponseData {
        status: Some(string_from("Error")),
        response_time: Some(millis),
        body,
        headers: String::new(),
        is_image: false,
    }
}

} // verus!
