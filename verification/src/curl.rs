//! Reading cURL command lines: quoting, URL decoding, tokenizing and the
//! request that a token list describes; and writing a request back out as a
//! cURL command.
use vstd::prelude::*;
use crate::string_map::{assoc_insert, StringMap};
use crate::text::{
    chars_of, find_char, find_first, slice_range, split_chars, split_on, starts_with, str_eq, string_from,
    string_of, string_range, trim, trim_chars, trim_start,
};

verus! {

// ---------------------------------------------------------------------------
// Quotes

/// Replaces each non-overlapping occurrence of the two characters `a b`,
/// scanning from the left, by `to` (std `str::replace` with a two-character
/// pattern and a one-character replacement).
pub open spec fn replace2(s: Seq<char>, a: char, b: char, to: char) -> Seq<char>
    decreases s.len(),
{
    if s.len() < 2 {
        s
    } else if s[0] == a && s[1] == b {
        seq![to] + replace2(s.skip(2), a, b, to)
    } else {
        seq![s[0]] + replace2(s.skip(1), a, b, to)
    }
}

/// The escapes that a quoted argument may hold: `\"`, then `\'`, then `\\`.
pub open spec fn unescape(s: Seq<char>) -> Seq<char> {
    replace2(replace2(replace2(s, '\\', '"', '"'), '\\', '\'', '\''), '\\', '\\', '\\')
}

/// Whether `s` is wrapped in a matching pair of single or double quotes.
pub open spec fn is_quoted(s: Seq<char>) -> bool {
    s.len() >= 2 && ((s[0] == '"' && s.last() == '"') || (s[0] == '\'' && s.last() == '\''))
}

/// An argument without its surrounding quotes, unescaped; other arguments
/// are kept as they are.
pub open spec fn unquote(s: Seq<char>) -> Seq<char> {
    if is_quoted(s) {
        unescape(s.subrange(1, s.len() - 1))
    } else {
        s
    }
}

proof fn lemma_skip_skip(s: Seq<char>, i: int, k: int)
    requires
        0 <= i,
        0 <= k,
        i + k <= s.len(),
    ensures
        s.skip(i).skip(k) == s.skip(i + k),
{
    assert(s.skip(i).skip(k) =~= s.skip(i + k));
}

fn replace_pair(v: &Vec<char>, a: char, b: char, to: char) -> (r: Vec<char>)
    ensures
        r@ == replace2(v@, a, b, to),
{
    let mut out: Vec<char> = Vec::new();
    let mut i: usize = 0;
    proof {
        assert(v@.skip(0) == v@);
    }
    while i < v.len()
        invariant
            i <= v.len(),
            replace2(v@, a, b, to) == out@ + replace2(v@.skip(i as int), a, b, to),
        decreases v.len() - i,
    {
        let ghost rest = v@.skip(i as int);
        let ghost prev = out@;
        if i + 1 < v.len() && v[i] == a && v[i + 1] == b {
            proof {
                lemma_skip_skip(v@, i as int, 2);
                assert(rest[0] == v@[i as int] && rest[1] == v@[i + 1]);
            }
            out.push(to);
            i = i + 2;
            proof {
                assert(prev + (seq![to] + replace2(v@.skip(i as int), a, b, to)) == out@ + replace2(v@.skip(i as int), a, b, to));
            }
        } else {
            proof {
                lemma_skip_skip(v@, i as int, 1);
                if i + 1 < v.len() {
                    assert(rest[0] == v@[i as int] && rest[1] == v@[i + 1]);
                } else {
                    assert(rest.len() == 1);
                    assert(rest.skip(1).len() == 0);
                    assert(replace2(rest.skip(1), a, b, to) == rest.skip(1));
                    assert(rest == seq![rest[0]] + rest.skip(1));
                }
                assert(rest[0] == v@[i as int]);
            }
            out.push(v[i]);
            i = i + 1;
            proof {
                assert(prev + (seq![rest[0]] + replace2(v@.skip(i as int), a, b, to)) == out@ + replace2(v@.skip(i as int), a, b, to));
            }
        }
    }
    assert(v@.skip(i as int).len() == 0);
    assert(out@ + Seq::<char>::empty() == out@);
    out
}

/// An argument without its surrounding quotes, unescaped.
pub fn remove_quotes(s: &str) -> (r: String)
    ensures
        r@ == unquote(s@),
{
    let v = chars_of(s);
    let n = v.len();
    if n >= 2 && ((v[0] == '"' && v[n - 1] == '"') || (v[0] == '\'' && v[n - 1] == '\'')) {
        let inner = slice_range(&v, 1, n - 1);
        let r1 = replace_pair(&inner, '\\', '"', '"');
        let r2 = replace_pair(&r1, '\\', '\'', '\'');
        let r3 = replace_pair(&r2, '\\', '\\', '\\');
        string_of(&r3)
    } else {
        string_from(s)
    }
}

// ---------------------------------------------------------------------------
// Percent-decoding

/// The value of a hexadecimal digit.
pub open spec fn hex_digit(c: char) -> Option<nat> {
    if '0' <= c && c <= '9' {
        Some((c as nat - '0' as nat) as nat)
    } else if 'a' <= c && c <= 'f' {
        Some((c as nat - 'a' as nat + 10) as nat)
    } else if 'A' <= c && c <= 'F' {
        Some((c as nat - 'A' as nat + 10) as nat)
    } else {
        None
    }
}

/// The byte that the two characters after a `%` spell in base 16, as
/// `u8::from_str_radix` reads them: an optional leading `+`, then hex digits.
pub open spec fn hex_pair(h1: char, h2: char) -> Option<nat> {
    if h1 == '+' {
        hex_digit(h2)
    } else {
        match (hex_digit(h1), hex_digit(h2)) {
            (Some(x), Some(y)) => Some(x * 16 + y),
            _ => None,
        }
    }
}

/// Percent-decoding: `%` and two characters that spell a byte become the
/// character with that code; two that do not are kept with the `%`; a `%`
/// with fewer than two characters after it is kept and what follows it is
/// dropped.
pub open spec fn url_decoded(s: Seq<char>) -> Seq<char>
    decreases s.len(),
{
    if s.len() == 0 {
        Seq::<char>::empty()
    } else if s[0] == '%' {
        if s.len() >= 3 {
            match hex_pair(s[1], s[2]) {
                Some(b) => seq![(b as u8) as char] + url_decoded(s.skip(3)),
                None => seq!['%', s[1], s[2]] + url_decoded(s.skip(3)),
            }
        } else {
            seq!['%']
        }
    } else {
        seq![s[0]] + url_decoded(s.skip(1))
    }
}

fn hex_digit_exec(c: char) -> (r: Option<u8>)
    ensures
        match hex_digit(c) {
            Some(d) => r == Some(d as u8) && d < 16,
            None => r is None,
        },
{
    if '0' <= c && c <= '9' {
        Some(((c as u32) - ('0' as u32)) as u8)
    } else if 'a' <= c && c <= 'f' {
        Some(((c as u32) - ('a' as u32) + 10) as u8)
    } else if 'A' <= c && c <= 'F' {
        Some(((c as u32) - ('A' as u32) + 10) as u8)
    } else {
        None
    }
}

fn hex_pair_exec(h1: char, h2: char) -> (r: Option<u8>)
    ensures
        match hex_pair(h1, h2) {
            Some(b) => r == Some(b as u8) && b < 256,
            None => r is None,
        },
{
    if h1 == '+' {
        hex_digit_exec(h2)
    } else {
        let a = hex_digit_exec(h1);
        let b = hex_digit_exec(h2);
        match (a, b) {
            (Some(x), Some(y)) => {
                assert(hex_digit(h1) is Some && hex_digit(h2) is Some);
                assert(x < 16 && y < 16);
                let v: u16 = (x as u16) * 16 + (y as u16);
                assert(v < 256);
                Some(v as u8)
            },
            _ => None,
        }
    }
}

/// Percent-decodes a query-string key or value.
pub fn url_decode(s: &str) -> (r: String)
    ensures
        r@ == url_decoded(s@),
{
    let v = chars_of(s);
    url_decode_chars(&v)
}

fn url_decode_chars(v: &Vec<char>) -> (r: String)
    ensures
        r@ == url_decoded(v@),
{
    let ghost s = v@;
    let mut out = String::new();
    let mut i: usize = 0;
    proof {
        assert(v@.skip(0) == v@);
    }
    while i < v.len()
        invariant
            i <= v.len(),
            v@ == s,
            url_decoded(s) == out@ + url_decoded(v@.skip(i as int)),
        decreases v.len() - i,
    {
        let ghost rest = v@.skip(i as int);
        let ghost prev = out@;
        assert(rest[0] == v@[i as int]);
        if v[i] == '%' {
            if v.len() - i > 2 {
                let h1 = v[i + 1];
                let h2 = v[i + 2];
                proof {
                    assert(rest[1] == h1 && rest[2] == h2);
                    lemma_skip_skip(v@, i as int, 3);
                }
                match hex_pair_exec(h1, h2) {
                    Some(b) => {
                        crate::text::push_char(&mut out, b as char);
                    },
                    None => {
                        crate::text::push_char(&mut out, '%');
                        crate::text::push_char(&mut out, h1);
                        crate::text::push_char(&mut out, h2);
                    },
                }
                i = i + 3;
                proof {
                    let tail = url_decoded(v@.skip(i as int));
                    match hex_pair(h1, h2) {
                        Some(b) => {
                            assert(prev + (seq![(b as u8) as char] + tail) == out@ + tail);
                        },
                        None => {
                            assert(prev + (seq!['%', h1, h2] + tail) == out@ + tail);
                        },
                    }
                }
            } else {
                crate::text::push_char(&mut out, '%');
                i = v.len();
                proof {
                    assert(v@.skip(i as int).len() == 0);
                    assert(prev + seq!['%'] == out@ + url_decoded(v@.skip(i as int)));
                }
            }
        } else {
            crate::text::push_char(&mut out, v[i]);
            i = i + 1;
            proof {
                lemma_skip_skip(v@, (i - 1) as int, 1);
                assert(prev + (seq![rest[0]] + url_decoded(v@.skip(i as int))) == out@ + url_decoded(v@.skip(i as int)));
            }
        }
    }
    proof {
        assert(v@.skip(i as int).len() == 0);
        assert(out@ + Seq::<char>::empty() == out@);
    }
    out
}

// ---------------------------------------------------------------------------
// Tokenizing

/// The first pass over a command: outside quotes, a backslash before a
/// newline and the newline become one space, another backslash escapes the
/// next character (which is kept, the backslash is not), and a bare newline
/// or carriage return becomes a space; quotes are kept and toggle the
/// quoting state.
pub open spec fn normalized(s: Seq<char>, sq: bool, dq: bool, esc: bool) -> Seq<char>
    decreases s.len(),
{
    if s.len() == 0 {
        Seq::<char>::empty()
    } else {
        let c = s[0];
        let rest = s.skip(1);
        if esc {
            seq![c] + normalized(rest, sq, dq, false)
        } else if c == '\\' {
            if sq || dq {
                seq![c] + normalized(rest, sq, dq, false)
            } else if rest.len() > 0 && rest[0] == '\n' {
                seq![' '] + normalized(rest.skip(1), sq, dq, false)
            } else {
                normalized(rest, sq, dq, true)
            }
        } else if c == '\'' && !dq {
            seq![c] + normalized(rest, !sq, dq, false)
        } else if c == '"' && !sq {
            seq![c] + normalized(rest, sq, !dq, false)
        } else if c == '\n' || c == '\r' {
            seq![if sq || dq { c } else { ' ' }] + normalized(rest, sq, dq, false)
        } else {
            seq![c] + normalized(rest, sq, dq, false)
        }
    }
}

/// The command with `curl ` put in front when it does not already start
/// with it (after leading whitespace); the added form is trimmed.
pub open spec fn with_curl_prefix(t: Seq<char>) -> Seq<char> {
    if starts_with(trim_start(t), "curl "@) {
        t
    } else {
        "curl "@ + trim(t)
    }
}

/// The second pass: tokens are split at spaces and tabs outside quotes;
/// quotes and backslashes are kept in the tokens, a backslash protects the
/// next character, and empty tokens are not produced.
pub open spec fn tokens_of(s: Seq<char>, cur: Seq<char>, sq: bool, dq: bool, esc: bool) -> Seq<Seq<char>>
    decreases s.len(),
{
    if s.len() == 0 {
        if cur.len() > 0 {
            seq![cur]
        } else {
            Seq::<Seq<char>>::empty()
        }
    } else {
        let c = s[0];
        let rest = s.skip(1);
        if esc {
            tokens_of(rest, cur.push(c), sq, dq, false)
        } else if c == '\\' {
            tokens_of(rest, cur.push(c), sq, dq, true)
        } else if c == '\'' && !dq {
            tokens_of(rest, cur.push(c), !sq, dq, false)
        } else if c == '"' && !sq {
            tokens_of(rest, cur.push(c), sq, !dq, false)
        } else if (c == ' ' || c == '\t') && !sq && !dq {
            if cur.len() > 0 {
                seq![cur] + tokens_of(rest, Seq::<char>::empty(), sq, dq, esc)
            } else {
                tokens_of(rest, Seq::<char>::empty(), sq, dq, esc)
            }
        } else {
            tokens_of(rest, cur.push(c), sq, dq, false)
        }
    }
}

/// The tokens of a cURL command.
pub open spec fn tokenized(cmd: Seq<char>) -> Seq<Seq<char>> {
    tokens_of(with_curl_prefix(normalized(cmd, false, false, false)), Seq::<char>::empty(), false, false, false)
}

fn normalize(v: &Vec<char>) -> (r: Vec<char>)
    ensures
        r@ == normalized(v@, false, false, false),
{
    let mut out: Vec<char> = Vec::new();
    let mut sq = false;
    let mut dq = false;
    let mut esc = false;
    let mut i: usize = 0;
    proof {
        assert(v@.skip(0) == v@);
    }
    while i < v.len()
        invariant
            i <= v.len(),
            normalized(v@, false, false, false) == out@ + normalized(v@.skip(i as int), sq, dq, esc),
        decreases v.len() - i,
    {
        let ghost rest = v@.skip(i as int);
        let ghost prev = out@;
        let ghost (sq0, dq0, esc0) = (sq, dq, esc);
        let c = v[i];
        assert(rest[0] == c);
        proof {
            lemma_skip_skip(v@, i as int, 1);
        }
        if esc {
            out.push(c);
            esc = false;
            i = i + 1;
        } else if c == '\\' {
            if sq || dq {
                out.push(c);
                i = i + 1;
            } else if i + 1 < v.len() && v[i + 1] == '\n' {
                proof {
                    lemma_skip_skip(v@, i as int, 2);
                    assert(rest.skip(1)[0] == v@[i + 1]);
                    lemma_skip_skip(rest, 1, 1);
                }
                out.push(' ');
                i = i + 2;
            } else {
                proof {
                    if i + 1 < v.len() {
                        assert(rest.skip(1)[0] == v@[i + 1]);
                    }
                }
                esc = true;
                i = i + 1;
            }
        } else if c == '\'' && !dq {
            out.push(c);
            sq = !sq;
            i = i + 1;
        } else if c == '"' && !sq {
            out.push(c);
            dq = !dq;
            i = i + 1;
        } else if c == '\n' || c == '\r' {
            if sq || dq {
                out.push(c);
            } else {
                out.push(' ');
            }
            i = i + 1;
        } else {
            out.push(c);
            i = i + 1;
        }
        proof {
            let tail = normalized(v@.skip(i as int), sq, dq, esc);
            assert(normalized(rest, sq0, dq0, esc0) == (out@.subrange(prev.len() as int, out@.len() as int)) + tail);
            assert(out@ == prev + out@.subrange(prev.len() as int, out@.len() as int));
        }
    }
    proof {
        assert(v@.skip(i as int).len() == 0);
        assert(out@ + Seq::<char>::empty() == out@);
    }
    out
}

fn split_tokens(v: &Vec<char>) -> (r: Vec<String>)
    ensures
        r@.map_values(|t: String| t@) == tokens_of(v@, Seq::<char>::empty(), false, false, false),
{
    let mut tokens: Vec<String> = Vec::new();
    let mut cur = String::new();
    let mut sq = false;
    let mut dq = false;
    let mut esc = false;
    let mut i: usize = 0;
    proof {
        assert(v@.skip(0) == v@);
        assert(tokens@.map_values(|t: String| t@) == Seq::<Seq<char>>::empty());
    }
    while i < v.len()
        invariant
            i <= v.len(),
            tokens_of(v@, Seq::<char>::empty(), false, false, false)
                == tokens@.map_values(|t: String| t@) + tokens_of(v@.skip(i as int), cur@, sq, dq, esc),
        decreases v.len() - i,
    {
        let ghost rest = v@.skip(i as int);
        let ghost prev = tokens@.map_values(|t: String| t@);
        let ghost cur0 = cur@;
        let c = v[i];
        assert(rest[0] == c);
        proof {
            lemma_skip_skip(v@, i as int, 1);
        }
        if esc {
            crate::text::push_char(&mut cur, c);
            esc = false;
        } else if c == '\\' {
            crate::text::push_char(&mut cur, c);
            esc = true;
        } else if c == '\'' && !dq {
            crate::text::push_char(&mut cur, c);
            sq = !sq;
        } else if c == '"' && !sq {
            crate::text::push_char(&mut cur, c);
            dq = !dq;
        } else if (c == ' ' || c == '\t') && !sq && !dq {
            if !cur.as_str().is_empty() {
                let mut done = String::new();
                std::mem::swap(&mut done, &mut cur);
                tokens.push(done);
                proof {
                    assert(tokens@.map_values(|t: String| t@) == prev.push(cur0));
                    assert(prev + (seq![cur0] + tokens_of(v@.skip(i + 1), cur@, sq, dq, esc))
                        == tokens@.map_values(|t: String| t@) + tokens_of(v@.skip(i + 1), cur@, sq, dq, esc));
                }
            } else {
                cur = String::new();
            }
        } else {
            crate::text::push_char(&mut cur, c);
        }
        i = i + 1;
    }
    proof {
        assert(v@.skip(i as int).len() == 0);
    }
    if !cur.as_str().is_empty() {
        let ghost prev = tokens@.map_values(|t: String| t@);
        let ghost cur0 = cur@;
        tokens.push(cur);
        proof {
            assert(tokens@.map_values(|t: String| t@) == prev + seq![cur0]);
        }
    } else {
        proof {
            let tv = tokens@.map_values(|t: String| t@);
            assert(tv + Seq::<Seq<char>>::empty() == tv);
        }
    }
    tokens
}

/// Splits a cURL command into its tokens.
pub fn tokenize_curl_command(cmd: &str) -> (r: Vec<String>)
    ensures
        r@.map_values(|t: String| t@) == tokenized(cmd@),
{
    let v = chars_of(cmd);
    let norm = normalize(&v);
    let (a, b) = crate::text::trim_bounds(&norm);
    let prefix = chars_of("curl ");
    let start = slice_range(&norm, a, norm.len());
    proof {
        assert(norm@.subrange(a as int, norm@.len() as int) == norm@.skip(a as int));
    }
    if crate::text::chars_start_with(&start, &prefix) {
        split_tokens(&norm)
    } else {
        let mut full = prefix;
        let mut j: usize = a;
        while j < b
            invariant
                a <= j <= b <= norm.len(),
                full@ == "curl "@ + norm@.subrange(a as int, j as int),
            decreases b - j,
        {
            full.push(norm[j]);
            assert(norm@.subrange(a as int, j + 1) == norm@.subrange(a as int, j as int).push(norm@[j as int]));
            j = j + 1;
        }
        split_tokens(&full)
    }
}

// ---------------------------------------------------------------------------
// The request that a token list describes

/// The request that a cURL command describes, as plain values.
pub struct RequestModel {
    pub method: Seq<char>,
    pub url: Seq<char>,
    pub headers: Seq<(Seq<char>, Seq<char>)>,
    pub query_params: Seq<(Seq<char>, Seq<char>)>,
    pub body: Seq<char>,
    pub content_type: Seq<char>,
}

/// A request read from a cURL command.
pub struct ParsedRequest {
    pub method: String,
    pub url: String,
    pub headers: StringMap,
    pub query_params: StringMap,
    pub body: String,
    pub content_type: String,
}

impl View for ParsedRequest {
    type V = RequestModel;

    open spec fn view(&self) -> RequestModel {
        RequestModel {
            method: self.method@,
            url: self.url@,
            headers: self.headers.view_entries(),
            query_params: self.query_params.view_entries(),
            body: self.body@,
            content_type: self.content_type@,
        }
    }
}

/// std's `str::to_lowercase`: the Unicode lowercase mapping of a string.
pub uninterp spec fn lowercase(s: Seq<char>) -> Seq<char>;

/// Calls std's `str::to_lowercase`; the contract names its result.
#[verifier::external_body]
fn to_lowercase(s: &str) -> (r: String)
    ensures
        r@ == lowercase(s@),
{
    s.to_lowercase()
}

/// Whether `needle` occurs in `s`.
pub open spec fn contains(s: Seq<char>, needle: Seq<char>) -> bool {
    exists|i: int| 0 <= i && i + needle.len() <= s.len() && #[trigger] s.subrange(i, i + needle.len()) == needle
}

/// The request a parse starts from.
pub open spec fn initial_request() -> RequestModel {
    RequestModel {
        method: "GET"@,
        url: Seq::<char>::empty(),
        headers: Seq::<(Seq<char>, Seq<char>)>::empty(),
        query_params: Seq::<(Seq<char>, Seq<char>)>::empty(),
        body: Seq::<char>::empty(),
        content_type: Seq::<char>::empty(),
    }
}

/// One `key=value` pair of a query string, decoded; a pair without `=`
/// is skipped.
pub open spec fn insert_query_pair(m: Seq<(Seq<char>, Seq<char>)>, pair: Seq<char>) -> Seq<(Seq<char>, Seq<char>)> {
    match find_first(pair, '=') {
        Some(e) => assoc_insert(m, url_decoded(pair.take(e)), url_decoded(pair.skip(e + 1))),
        None => m,
    }
}

/// The pairs of a query string, inserted from left to right.
pub open spec fn insert_query_pairs(m: Seq<(Seq<char>, Seq<char>)>, pairs: Seq<Seq<char>>) -> Seq<(Seq<char>, Seq<char>)>
    decreases pairs.len(),
{
    if pairs.len() == 0 {
        m
    } else {
        insert_query_pair(insert_query_pairs(m, pairs.drop_last()), pairs.last())
    }
}

/// A URL argument: the part before the first `?` becomes the URL and the
/// `&`-separated pairs after it become query parameters.
pub open spec fn with_url(r: RequestModel, url: Seq<char>) -> RequestModel {
    match find_first(url, '?') {
        Some(q) => RequestModel {
            url: url.take(q),
            query_params: insert_query_pairs(r.query_params, split_on(url.skip(q + 1), '&')),
            ..r
        },
        None => RequestModel { url: url, ..r },
    }
}

/// A header argument `Key: Value`: both sides trimmed; a `Content-Type`
/// header (in any case) also sets the content type; a line without `:` is
/// skipped.
pub open spec fn with_header(r: RequestModel, line: Seq<char>) -> RequestModel {
    match find_first(line, ':') {
        Some(c) => {
            let key = trim(line.take(c));
            let value = trim(line.skip(c + 1));
            RequestModel {
                content_type: if lowercase(key) == "content-type"@ { value } else { r.content_type },
                headers: assoc_insert(r.headers, key, value),
                ..r
            }
        },
        None => r,
    }
}

/// A `GET` request turns into a `POST` when it gets a body.
pub open spec fn post_if_get(method: Seq<char>) -> Seq<char> {
    if method == "GET"@ { "POST"@ } else { method }
}

/// The content type and its header, set only when no content type is set yet.
pub open spec fn default_content_type(r: RequestModel, ct: Seq<char>) -> RequestModel {
    if r.content_type.len() == 0 {
        RequestModel { content_type: ct, headers: assoc_insert(r.headers, "Content-Type"@, ct), ..r }
    } else {
        r
    }
}

/// A `-d` / `--data` / `--data-raw` argument.
pub open spec fn with_data(r: RequestModel, body: Seq<char>) -> RequestModel {
    default_content_type(
        RequestModel { body: body, method: post_if_get(r.method), ..r },
        "application/x-www-form-urlencoded"@,
    )
}

/// A `--json` argument.
pub open spec fn with_json(r: RequestModel, body: Seq<char>) -> RequestModel {
    RequestModel {
        body: body,
        content_type: "application/json"@,
        headers: assoc_insert(r.headers, "Content-Type"@, "application/json"@),
        method: post_if_get(r.method),
        ..r
    }
}

/// A `-F` / `--form` argument (its value is not kept).
pub open spec fn with_form(r: RequestModel) -> RequestModel {
    let r1 = default_content_type(r, "multipart/form-data"@);
    RequestModel { method: post_if_get(r1.method), ..r1 }
}

pub open spec fn is_url_arg(arg: Seq<char>) -> bool {
    !starts_with(arg, "-"@) && (starts_with(arg, "http"@) || contains(arg, "http"@))
}

/// The request described by `args[i..]`, starting from `r`.
pub open spec fn parse_from(args: Seq<Seq<char>>, i: int, r: RequestModel) -> RequestModel
    decreases args.len() - i,
{
    if i < 1 || i >= args.len() {
        r
    } else {
        let arg = args[i];
        let has_value = i + 1 < args.len();
        if is_url_arg(arg) {
            parse_from(args, i + 1, with_url(r, unquote(arg)))
        } else if (arg == "-X"@ || arg == "--request"@) && has_value {
            parse_from(args, i + 2, RequestModel { method: args[i + 1], ..r })
        } else if (arg == "-H"@ || arg == "--header"@) && has_value {
            parse_from(args, i + 2, with_header(r, unquote(args[i + 1])))
        } else if (arg == "-d"@ || arg == "--data"@ || arg == "--data-raw"@) && has_value {
            parse_from(args, i + 2, with_data(r, unquote(args[i + 1])))
        } else if arg == "--json"@ && has_value {
            parse_from(args, i + 2, with_json(r, unquote(args[i + 1])))
        } else if (arg == "-F"@ || arg == "--form"@) && has_value {
            parse_from(args, i + 2, with_form(r))
        } else {
            parse_from(args, i + 1, r)
        }
    }
}

/// The request that a token list describes, or `Err` when it does not start
/// with `curl`.
pub open spec fn parsed_tokens(args: Seq<Seq<char>>) -> Result<RequestModel, ()> {
    if args.len() == 0 || args[0] != "curl"@ {
        Err(())
    } else {
        Ok(parse_from(args, 1, initial_request()))
    }
}

/// The request that a cURL command describes.
pub open spec fn parsed_command(cmd: Seq<char>) -> Result<RequestModel, ()> {
    parsed_tokens(tokenized(cmd))
}

fn contains_exec(v: &Vec<char>, needle: &Vec<char>) -> (r: bool)
    ensures
        r == contains(v@, needle@),
{
    if needle.len() > v.len() {
        return false;
    }
    let mut i: usize = 0;
    while i <= v.len() - needle.len()
        invariant
            needle.len() <= v.len(),
            i <= v.len() - needle.len() + 1,
            forall|j: int| 0 <= j < i ==> #[trigger] v@.subrange(j, j + needle@.len()) != needle@,
        decreases v.len() - needle.len() + 1 - i,
    {
        let mut k: usize = 0;
        let mut ok = true;
        while k < needle.len()
            invariant
                needle.len() <= v.len(),
                i + needle.len() <= v.len(),
                k <= needle.len(),
                ok == (forall|m: int| 0 <= m < k ==> v@[i + m] == needle@[m]),
            decreases needle.len() - k,
        {
            if v[i + k] != needle[k] {
                ok = false;
            }
            k = k + 1;
        }
        if ok {
            assert(v@.subrange(i as int, i + needle@.len()) == needle@);
            return true;
        }
        proof {
            let m = choose|m: int| 0 <= m < needle.len() && v@[i + m] != needle@[m];
            assert(v@.subrange(i as int, i + needle@.len())[m] != needle@[m]);
        }
        i = i + 1;
    }
    proof {
        assert forall|j: int| 0 <= j && j + needle@.len() <= v@.len() implies #[trigger] v@.subrange(j, j + needle@.len()) != needle@ by {
            assert(j < i);
        }
    }
    false
}

fn post_if_get_exec(method: &String) -> (r: String)
    ensures
        r@ == post_if_get(method@),
{
    if str_eq(method.as_str(), "GET") {
        string_from("POST")
    } else {
        method.clone()
    }
}

fn apply_url(req: &mut ParsedRequest, url: String)
    ensures
        final(req)@ == with_url(old(req)@, url@),
{
    let v = chars_of(url.as_str());
    match find_char(&v, '?') {
        Some(q) => {
            req.url = string_range(&v, 0, q);
            assert(v@.subrange(0, q as int) == v@.take(q as int));
            let query = slice_range(&v, q + 1, v.len());
            assert(v@.subrange(q + 1, v@.len() as int) == v@.skip(q + 1));
            let pairs = split_chars(&query, '&');
            let ghost pv = split_on(query@, '&');
            let ghost m0 = req.query_params.view_entries();
            let ghost r0 = req@;
            let mut j: usize = 0;
            proof {
                assert(pv.take(0) == Seq::<Seq<char>>::empty());
            }
            while j < pairs.len()
                invariant
                    j <= pairs.len() == pv.len(),
                    forall|k: int| 0 <= k < pairs@.len() ==> #[trigger] pairs@[k]@ == pv[k],
                    req.query_params.view_entries() == insert_query_pairs(m0, pv.take(j as int)),
                    req@ == (RequestModel { query_params: req.query_params.view_entries(), ..r0 }),
                decreases pairs.len() - j,
            {
                let pair = &pairs[j];
                proof {
                    assert(pv.take(j + 1).drop_last() == pv.take(j as int));
                    assert(pv.take(j + 1).last() == pair@);
                }
                match find_char(pair, '=') {
                    Some(e) => {
                        let key_chars = slice_range(pair, 0, e);
                        let value_chars = slice_range(pair, e + 1, pair.len());
                        assert(pair@.subrange(0, e as int) == pair@.take(e as int));
                        assert(pair@.subrange(e + 1, pair@.len() as int) == pair@.skip(e + 1));
                        let key = url_decode_chars(&key_chars);
                        let value = url_decode_chars(&value_chars);
                        req.query_params.insert(key, value);
                    },
                    None => {},
                }
                j = j + 1;
            }
            proof {
                assert(pv.take(pairs.len() as int) == pv);
            }
        },
        None => {
            req.url = url;
        },
    }
}

fn apply_header(req: &mut ParsedRequest, line: String)
    ensures
        final(req)@ == with_header(old(req)@, line@),
{
    let v = chars_of(line.as_str());
    match find_char(&v, ':') {
        Some(c) => {
            let left = slice_range(&v, 0, c);
            let right = slice_range(&v, c + 1, v.len());
            assert(v@.subrange(0, c as int) == v@.take(c as int));
            assert(v@.subrange(c + 1, v@.len() as int) == v@.skip(c + 1));
            let key = string_of(&trim_chars(&left));
            let value = string_of(&trim_chars(&right));
            let lower = to_lowercase(key.as_str());
            if str_eq(lower.as_str(), "content-type") {
                req.content_type = value.clone();
            }
            req.headers.insert(key, value);
        },
        None => {},
    }
}

fn apply_default_content_type(req: &mut ParsedRequest, ct: &str)
    ensures
        final(req)@ == default_content_type(old(req)@, ct@),
{
    if req.content_type.as_str().is_empty() {
        req.content_type = string_from(ct);
        req.headers.insert(string_from("Content-Type"), string_from(ct));
    }
}

fn apply_data(req: &mut ParsedRequest, body: String)
    ensures
        final(req)@ == with_data(old(req)@, body@),
{
    req.body = body;
    req.method = post_if_get_exec(&req.method);
    apply_default_content_type(req, "application/x-www-form-urlencoded");
}

fn apply_json(req: &mut ParsedRequest, body: String)
    ensures
        final(req)@ == with_json(old(req)@, body@),
{
    req.body = body;
    req.content_type = string_from("application/json");
    req.headers.insert(string_from("Content-Type"), string_from("application/json"));
    req.method = post_if_get_exec(&req.method);
}

fn apply_form(req: &mut ParsedRequest)
    ensures
        final(req)@ == with_form(old(req)@),
{
    apply_default_content_type(req, "multipart/form-data");
    req.method = post_if_get_exec(&req.method);
}

/// The request that a token list describes; `Err` when the list does not
/// start with `curl`.
pub fn parse_curl_tokens(args: Vec<String>) -> (r: Result<ParsedRequest, String>)
    ensures
        match r {
            Ok(req) => parsed_tokens(args@.map_values(|a: String| a@)) == Ok::<RequestModel, ()>(req@),
            Err(e) => parsed_tokens(args@.map_values(|a: String| a@)) is Err && e@ == "Not a curl command"@,
        },
{
    let ghost av = args@.map_values(|a: String| a@);
    if args.len() == 0 || !str_eq(args[0].as_str(), "curl") {
        return Err(string_from("Not a curl command"));
    }
    let mut req = ParsedRequest {
        method: string_from("GET"),
        url: String::new(),
        headers: StringMap::new(),
        query_params: StringMap::new(),
        body: String::new(),
        content_type: String::new(),
    };
    assert(req@ == initial_request());
    let dash = chars_of("-");
    let http = chars_of("http");
    let mut i: usize = 1;
    while i < args.len()
        invariant
            1 <= i <= args.len(),
            av == args@.map_values(|a: String| a@),
            dash@ == "-"@,
            http@ == "http"@,
            parse_from(av, 1, initial_request()) == parse_from(av, i as int, req@),
        decreases args.len() - i,
    {
        let arg = &args[i];
        assert(av[i as int] == arg@);
        let has_value = i + 1 < args.len();
        if has_value {
            assert(av[i + 1] == args@[i + 1]@);
        }
        let a = chars_of(arg.as_str());
        let is_url = !crate::text::chars_start_with(&a, &dash)
            && (crate::text::chars_start_with(&a, &http) || contains_exec(&a, &http));
        if is_url {
            let url = remove_quotes(arg.as_str());
            apply_url(&mut req, url);
            i = i + 1;
        } else if (str_eq(arg.as_str(), "-X") || str_eq(arg.as_str(), "--request")) && has_value {
            req.method = args[i + 1].clone();
            i = i + 2;
        } else if (str_eq(arg.as_str(), "-H") || str_eq(arg.as_str(), "--header")) && has_value {
            let line = remove_quotes(args[i + 1].as_str());
            apply_header(&mut req, line);
            i = i + 2;
        } else if (str_eq(arg.as_str(), "-d") || str_eq(arg.as_str(), "--data") || str_eq(arg.as_str(), "--data-raw"))
            && has_value {
            let body = remove_quotes(args[i + 1].as_str());
            apply_data(&mut req, body);
            i = i + 2;
        } else if str_eq(arg.as_str(), "--json") && has_value {
            let body = remove_quotes(args[i + 1].as_str());
            apply_json(&mut req, body);
            i = i + 2;
        } else if (str_eq(arg.as_str(), "-F") || str_eq(arg.as_str(), "--form")) && has_value {
            apply_form(&mut req);
            i = i + 2;
        } else {
            i = i + 1;
        }
    }
    Ok(req)
}

/// The request that a cURL command describes.
pub fn parse_curl_to_request(cmd: &str) -> (r: Result<ParsedRequest, String>)
    ensures
        match r {
            Ok(req) => parsed_command(cmd@) == Ok::<RequestModel, ()>(req@),
            Err(e) => parsed_command(cmd@) is Err && e@ == "Not a curl command"@,
        },
{
    let tokens = tokenize_curl_command(cmd);
    parse_curl_tokens(tokens)
}

// ---------------------------------------------------------------------------
// What tokenizing keeps together

/// `p` holds no backslash, quote, newline or carriage return.
pub open spec fn plain_text(p: Seq<char>) -> bool {
    forall|i: int|
        0 <= i < p.len() ==> p[i] != '\\' && p[i] != '\'' && p[i] != '"' && p[i] != '\n' && p[i] != '\r'
}

/// `w` can stand between the quotes `qc` as it is: no such quote,
/// backslash, newline or carriage return.
pub open spec fn quote_safe(w: Seq<char>, qc: char) -> bool {
    forall|i: int| 0 <= i < w.len() ==> w[i] != '\\' && w[i] != qc && w[i] != '\n' && w[i] != '\r'
}

/// The first pass leaves alone text with no backslash, line break or
/// quote that would open or close a quoted span.
proof fn lemma_normalized_keeps(p: Seq<char>, s: Seq<char>, sq: bool, dq: bool)
    requires
        forall|i: int|
            0 <= i < p.len() ==> p[i] != '\\' && p[i] != '\n' && p[i] != '\r' && !(p[i] == '\'' && !dq) && !(p[i]
                == '"' && !sq),
    ensures
        normalized(p + s, sq, dq, false) == p + normalized(s, sq, dq, false),
    decreases p.len(),
{
    if p.len() == 0 {
        assert(p + s =~= s);
        assert(p + normalized(s, sq, dq, false) =~= normalized(s, sq, dq, false));
    } else {
        let t = p + s;
        assert(t[0] == p[0]);
        assert(t.skip(1) =~= p.skip(1) + s);
        lemma_normalized_keeps(p.skip(1), s, sq, dq);
        assert(seq![p[0]] + (p.skip(1) + normalized(s, sq, dq, false)) =~= p + normalized(s, sq, dq, false));
    }
}

/// Outside quotes, a space after text without quotes or backslashes ends
/// the tokens of that text: what follows is tokenized afresh.
proof fn lemma_tokens_split(x: Seq<char>, y: Seq<char>, cur: Seq<char>)
    requires
        plain_text(x),
    ensures
        tokens_of(x + seq![' '] + y, cur, false, false, false) == tokens_of(x, cur, false, false, false) + tokens_of(
            y,
            Seq::<char>::empty(),
            false,
            false,
            false,
        ),
    decreases x.len(),
{
    let e = Seq::<char>::empty();
    let t = x + seq![' '] + y;
    if x.len() == 0 {
        assert(t[0] == ' ');
        assert(t.skip(1) =~= y);
        if cur.len() > 0 {
            assert(tokens_of(x, cur, false, false, false) == seq![cur]);
        } else {
            assert(tokens_of(x, cur, false, false, false) == Seq::<Seq<char>>::empty());
            assert(Seq::<Seq<char>>::empty() + tokens_of(y, e, false, false, false) =~= tokens_of(y, e, false, false, false));
        }
    } else {
        let c = x[0];
        assert(t[0] == c);
        assert(t.skip(1) =~= x.skip(1) + seq![' '] + y);
        assert(plain_text(x.skip(1))) by {
            assert forall|i: int| 0 <= i < x.skip(1).len() implies x.skip(1)[i] != '\\' && x.skip(1)[i] != '\''
                && x.skip(1)[i] != '"' && x.skip(1)[i] != '\n' && x.skip(1)[i] != '\r' by {
                assert(x.skip(1)[i] == x[i + 1]);
            }
        }
        if c == ' ' || c == '\t' {
            lemma_tokens_split(x.skip(1), y, e);
            if cur.len() > 0 {
                assert(seq![cur] + (tokens_of(x.skip(1), e, false, false, false) + tokens_of(y, e, false, false, false))
                    =~= (seq![cur] + tokens_of(x.skip(1), e, false, false, false)) + tokens_of(y, e, false, false, false));
            }
        } else {
            lemma_tokens_split(x.skip(1), y, cur.push(c));
        }
    }
}

/// Inside quotes, text without that quote or a backslash joins the token
/// being built, spaces and all.
proof fn lemma_tokens_quoted(w: Seq<char>, s: Seq<char>, cur: Seq<char>, sq: bool)
    requires
        quote_safe(w, if sq { '\'' } else { '"' }),
    ensures
        tokens_of(w + s, cur, sq, !sq, false) == tokens_of(s, cur + w, sq, !sq, false),
    decreases w.len(),
{
    let qc = if sq { '\'' } else { '"' };
    if w.len() == 0 {
        assert(w + s =~= s);
        assert(cur + w =~= cur);
    } else {
        let t = w + s;
        assert(t[0] == w[0]);
        assert(t.skip(1) =~= w.skip(1) + s);
        assert(quote_safe(w.skip(1), qc)) by {
            assert forall|i: int| 0 <= i < w.skip(1).len() implies w.skip(1)[i] != '\\' && w.skip(1)[i] != qc
                && w.skip(1)[i] != '\n' && w.skip(1)[i] != '\r' by {
                assert(w.skip(1)[i] == w[i + 1]);
            }
        }
        lemma_tokens_quoted(w.skip(1), s, cur.push(w[0]), sq);
        assert(cur.push(w[0]) + w.skip(1) =~= cur + w);
    }
}

/// A quoted argument is one token, spaces and tabs inside it included: in
/// a command that starts with `curl ` and some words without quotes or
/// backslashes, then a space, a text between double or single quotes, a
/// space and anything at all, the tokens are those of the first part, then
/// the quoted text with its quotes as one token, then the rest.
pub proof fn law_quoted_argument_is_one_token(a: Seq<char>, qc: char, w: Seq<char>, b: Seq<char>)
    requires
        starts_with(a, "curl "@),
        plain_text(a),
        qc == '"' || qc == '\'',
        quote_safe(w, qc),
    ensures
        ({
            let cmd = a + seq![' ', qc] + w + seq![qc, ' '] + b;
            let q = seq![qc] + w + seq![qc];
            &&& tokenized(cmd).len() > tokenized(a).len()
            &&& tokenized(cmd).take(tokenized(a).len() as int) == tokenized(a)
            &&& tokenized(cmd)[tokenized(a).len() as int] == q
        }),
{
    reveal_strlit("curl ");
    let sq = qc == '\'';
    let e = Seq::<char>::empty();
    let cmd = a + seq![' ', qc] + w + seq![qc, ' '] + b;
    let q = seq![qc] + w + seq![qc];
    let nb = normalized(b, false, false, false);
    // The first pass leaves the command as it is, up to the rest.
    let p1 = a + seq![' '];
    assert(plain_text(p1)) by {
        assert forall|i: int| 0 <= i < p1.len() implies p1[i] != '\\' && p1[i] != '\'' && p1[i] != '"' && p1[i]
            != '\n' && p1[i] != '\r' by {
            if i < a.len() {
                assert(p1[i] == a[i]);
            }
        }
    }
    let r1 = seq![qc] + w + seq![qc, ' '] + b;
    assert(cmd =~= p1 + r1);
    lemma_normalized_keeps(p1, r1, false, false);
    assert(r1[0] == qc);
    let r3 = seq![qc, ' '] + b;
    assert(r1.skip(1) =~= w + r3);
    lemma_normalized_keeps(w, r3, sq, !sq);
    assert(r3[0] == qc);
    assert(r3.skip(1) =~= seq![' '] + b);
    assert((seq![' '] + b)[0] == ' ');
    assert((seq![' '] + b).skip(1) =~= b);
    assert(normalized(seq![' '] + b, false, false, false) == seq![' '] + nb);
    assert(normalized(r3, sq, !sq, false) == seq![qc] + (seq![' '] + nb));
    assert(normalized(r1, false, false, false) == seq![qc] + (w + (seq![qc] + (seq![' '] + nb))));
    let n = a + seq![' '] + q + seq![' '] + nb;
    assert(normalized(cmd, false, false, false) =~= n);
    lemma_normalized_keeps(a, e, false, false);
    assert(a + e =~= a);
    assert(normalized(e, false, false, false) == e);
    assert(normalized(a, false, false, false) == a);
    // Both start with `curl `, so nothing is put in front.
    assert(n.take(5) =~= a.take(5));
    assert(a.take(5)[0] == a[0]);
    assert("curl "@[0] == 'c');
    assert(n[0] == a[0]);
    assert(n[0] == 'c');
    assert(trim_start(n) == n);
    assert(trim_start(a) == a);
    assert(with_curl_prefix(n) == n);
    assert(with_curl_prefix(a) == a);
    assert(tokenized(cmd) == tokens_of(n, e, false, false, false));
    assert(tokenized(a) == tokens_of(a, e, false, false, false));
    // Tokens: those of `a`, then the quoted text, then the rest.
    let y = q + seq![' '] + nb;
    assert(n =~= a + seq![' '] + y);
    lemma_tokens_split(a, y, e);
    assert(y[0] == qc);
    let z = seq![qc, ' '] + nb;
    assert(y.skip(1) =~= w + z);
    assert(tokens_of(y, e, false, false, false) == tokens_of(w + z, e.push(qc), sq, !sq, false));
    lemma_tokens_quoted(w, z, e.push(qc), sq);
    assert(z[0] == qc);
    assert(z.skip(1) =~= seq![' '] + nb);
    assert((e.push(qc) + w).push(qc) =~= q);
    assert(tokens_of(z, e.push(qc) + w, sq, !sq, false) == tokens_of(seq![' '] + nb, q, false, false, false));
    assert((seq![' '] + nb)[0] == ' ');
    assert((seq![' '] + nb).skip(1) =~= nb);
    assert(tokens_of(seq![' '] + nb, q, false, false, false) == seq![q] + tokens_of(nb, e, false, false, false));
    let ta = tokens_of(a, e, false, false, false);
    let all = ta + (seq![q] + tokens_of(nb, e, false, false, false));
    assert(tokenized(cmd) == all);
    assert(all.take(ta.len() as int) =~= ta);
    assert(all[ta.len() as int] == q);
}

/// `t` holds no space or tab.
pub open spec fn unbroken(t: Seq<char>) -> bool {
    forall|i: int| 0 <= i < t.len() ==> t[i] != ' ' && t[i] != '\t'
}

/// `x` with its spaces and tabs taken out.
pub open spec fn without_blanks(x: Seq<char>) -> Seq<char>
    decreases x.len(),
{
    if x.len() == 0 {
        x
    } else if x.last() == ' ' || x.last() == '\t' {
        without_blanks(x.drop_last())
    } else {
        without_blanks(x.drop_last()).push(x.last())
    }
}

/// The tokens one after another.
pub open spec fn joined(ts: Seq<Seq<char>>) -> Seq<char>
    decreases ts.len(),
{
    if ts.len() == 0 {
        Seq::<char>::empty()
    } else {
        ts[0] + joined(ts.skip(1))
    }
}

proof fn lemma_without_blanks_front(c: char, x: Seq<char>)
    ensures
        without_blanks(seq![c] + x) == if c == ' ' || c == '\t' {
            without_blanks(x)
        } else {
            seq![c] + without_blanks(x)
        },
    decreases x.len(),
{
    let t = seq![c] + x;
    if x.len() == 0 {
        assert(t.drop_last() =~= Seq::<char>::empty());
        assert(without_blanks(Seq::<char>::empty()) == Seq::<char>::empty());
        assert(Seq::<char>::empty().push(c) =~= seq![c] + Seq::<char>::empty());
    } else {
        assert(t.drop_last() =~= seq![c] + x.drop_last());
        assert(t.last() == x.last());
        lemma_without_blanks_front(c, x.drop_last());
        if !(c == ' ' || c == '\t') {
            assert((seq![c] + without_blanks(x.drop_last())).push(x.last()) =~= seq![c] + without_blanks(
                x.drop_last(),
            ).push(x.last()));
        }
    }
}

proof fn lemma_joined_front(t: Seq<char>, ts: Seq<Seq<char>>)
    ensures
        joined(seq![t] + ts) == t + joined(ts),
{
    assert((seq![t] + ts).skip(1) =~= ts);
}

/// Splitting text without quotes or backslashes: every token is a run of
/// characters with no space or tab, and the tokens one after another give
/// the text (after the part `cur` already read) without its spaces and
/// tabs.
proof fn lemma_plain_tokens(x: Seq<char>, cur: Seq<char>)
    requires
        plain_text(x),
        unbroken(cur),
    ensures
        forall|k: int|
            0 <= k < tokens_of(x, cur, false, false, false).len() ==> #[trigger] tokens_of(x, cur, false, false, false)[k].len()
                > 0 && unbroken(tokens_of(x, cur, false, false, false)[k]),
        joined(tokens_of(x, cur, false, false, false)) == cur + without_blanks(x),
    decreases x.len(),
{
    let e = Seq::<char>::empty();
    if x.len() == 0 {
        assert(without_blanks(x) == x);
        assert(cur + x =~= cur);
        if cur.len() > 0 {
            lemma_joined_front(cur, Seq::<Seq<char>>::empty());
            assert(cur + Seq::<char>::empty() =~= cur);
        }
    } else {
        let c = x[0];
        let rest = x.skip(1);
        assert(x =~= seq![c] + rest);
        lemma_without_blanks_front(c, rest);
        assert(plain_text(rest)) by {
            assert forall|i: int| 0 <= i < rest.len() implies rest[i] != '\\' && rest[i] != '\'' && rest[i] != '"'
                && rest[i] != '\n' && rest[i] != '\r' by {
                assert(rest[i] == x[i + 1]);
            }
        }
        if c == ' ' || c == '\t' {
            lemma_plain_tokens(rest, e);
            assert(e + without_blanks(rest) =~= without_blanks(rest));
            if cur.len() > 0 {
                lemma_joined_front(cur, tokens_of(rest, e, false, false, false));
                let ts = seq![cur] + tokens_of(rest, e, false, false, false);
                assert forall|k: int| 0 <= k < ts.len() implies #[trigger] ts[k].len() > 0 && unbroken(ts[k]) by {
                    if k > 0 {
                        assert(ts[k] == tokens_of(rest, e, false, false, false)[k - 1]);
                    }
                }
            }
        } else {
            assert(unbroken(cur.push(c))) by {
                assert forall|i: int| 0 <= i < cur.push(c).len() implies cur.push(c)[i] != ' ' && cur.push(c)[i]
                    != '\t' by {
                    if i < cur.len() {
                        assert(cur.push(c)[i] == cur[i]);
                    }
                }
            }
            lemma_plain_tokens(rest, cur.push(c));
            assert(cur.push(c) + without_blanks(rest) =~= cur + (seq![c] + without_blanks(rest)));
        }
    }
}

/// A command without quotes or backslashes that starts with `curl ` is
/// split at its spaces and tabs and nowhere else: no token is empty or
/// holds a space or tab, and the tokens one after another give the
/// command without its spaces and tabs.
pub proof fn law_plain_command_splits_at_blanks(a: Seq<char>)
    requires
        starts_with(a, "curl "@),
        plain_text(a),
    ensures
        forall|k: int| 0 <= k < tokenized(a).len() ==> #[trigger] tokenized(a)[k].len() > 0 && unbroken(tokenized(a)[k]),
        joined(tokenized(a)) == without_blanks(a),
{
    reveal_strlit("curl ");
    let e = Seq::<char>::empty();
    lemma_normalized_keeps(a, e, false, false);
    assert(a + e =~= a);
    assert(normalized(e, false, false, false) == e);
    assert(a.take(5)[0] == a[0]);
    assert("curl "@[0] == 'c');
    assert(trim_start(a) == a);
    assert(with_curl_prefix(a) == a);
    lemma_plain_tokens(a, e);
    assert(e + without_blanks(a) =~= without_blanks(a));
}

} // verus!
