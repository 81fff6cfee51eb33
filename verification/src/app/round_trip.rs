//! Reading a saved request back: the cURL command that a request is saved
//! as gives, when it is read again, the request's method, URL, headers and
//! body.
use vstd::prelude::*;
use crate::app::requests::{escape_quotes, header_options, loaded_contents, parse_outcome, request_rows, saved_command};
use crate::app::{App, AppState, Part};
use crate::components::editor::text_rows;
use crate::curl::{
    contains, initial_request, is_quoted, is_url_arg, normalized, parse_from, parsed_command, parsed_tokens,
    post_if_get, replace2, tokenized, tokens_of, unquote, with_curl_prefix, with_data, with_header,
    with_url, RequestModel,
};
use crate::text::{has_char, lines_of, starts_with, trim, trim_start};

verus! {

// ---------------------------------------------------------------------------
// The first pass over a command, piece by piece

/// The quoting and escape state that the first pass is left in.
pub open spec fn norm_state(s: Seq<char>, sq: bool, dq: bool, esc: bool) -> (bool, bool, bool)
    decreases s.len(),
{
    if s.len() == 0 {
        (sq, dq, esc)
    } else {
        let c = s[0];
        let rest = s.skip(1);
        if esc {
            norm_state(rest, sq, dq, false)
        } else if c == '\\' {
            if sq || dq {
                norm_state(rest, sq, dq, false)
            } else if rest.len() > 0 && rest[0] == '\n' {
                norm_state(rest.skip(1), sq, dq, false)
            } else {
                norm_state(rest, sq, dq, true)
            }
        } else if c == '\'' && !dq {
            norm_state(rest, !sq, dq, false)
        } else if c == '"' && !sq {
            norm_state(rest, sq, !dq, false)
        } else {
            norm_state(rest, sq, dq, false)
        }
    }
}

/// The first pass over `x + y` is the pass over `x`, then the pass over
/// `y` from where `x` left it, unless `x` ends on an open backslash and `y`
/// starts a new line.
#[verifier::rlimit(40)]
proof fn lemma_norm_concat(x: Seq<char>, y: Seq<char>, sq: bool, dq: bool, esc: bool)
    requires
        x.len() > 0 && norm_state(x, sq, dq, esc).2 ==> !(y.len() > 0 && y[0] == '\n'),
    ensures
        normalized(x + y, sq, dq, esc) == normalized(x, sq, dq, esc) + normalized(
            y,
            norm_state(x, sq, dq, esc).0,
            norm_state(x, sq, dq, esc).1,
            norm_state(x, sq, dq, esc).2,
        ),
        norm_state(x + y, sq, dq, esc) == norm_state(
            y,
            norm_state(x, sq, dq, esc).0,
            norm_state(x, sq, dq, esc).1,
            norm_state(x, sq, dq, esc).2,
        ),
    decreases x.len(),
{
    let xy = x + y;
    let f = norm_state(x, sq, dq, esc);
    if x.len() == 0 {
        assert(xy =~= y);
        assert(normalized(x, sq, dq, esc) == Seq::<char>::empty());
        assert(f == (sq, dq, esc));
        assert(Seq::<char>::empty() + normalized(y, sq, dq, esc) =~= normalized(y, sq, dq, esc));
    } else {
        let c = x[0];
        let x1 = x.skip(1);
        assert(xy[0] == c);
        assert(xy.skip(1) =~= x1 + y);
        assert(xy.len() > 0);
        if esc {
            lemma_norm_concat(x1, y, sq, dq, false);
            assert(normalized(xy, sq, dq, esc) == seq![c] + normalized(x1 + y, sq, dq, false));
            assert(normalized(x, sq, dq, esc) == seq![c] + normalized(x1, sq, dq, false));
            assert(f == norm_state(x1, sq, dq, false));
            assert(norm_state(xy, sq, dq, esc) == norm_state(x1 + y, sq, dq, false));
        } else if c == '\\' {
            if sq || dq {
                lemma_norm_concat(x1, y, sq, dq, false);
                assert(normalized(xy, sq, dq, esc) == seq![c] + normalized(x1 + y, sq, dq, false));
                assert(normalized(x, sq, dq, esc) == seq![c] + normalized(x1, sq, dq, false));
                assert(f == norm_state(x1, sq, dq, false));
                assert(norm_state(xy, sq, dq, esc) == norm_state(x1 + y, sq, dq, false));
            } else if x.len() >= 2 {
                assert((x1 + y)[0] == x[1]);
                assert(x1[0] == x[1]);
                if x[1] == '\n' {
                    let x2 = x.skip(2);
                    assert((x1 + y).skip(1) =~= x2 + y);
                    assert(x1.skip(1) =~= x2);
                    lemma_norm_concat(x2, y, sq, dq, false);
                    assert(normalized(xy, sq, dq, esc) == seq![' '] + normalized(x2 + y, sq, dq, false));
                    assert(normalized(x, sq, dq, esc) == seq![' '] + normalized(x2, sq, dq, false));
                    assert(f == norm_state(x2, sq, dq, false));
                    assert(norm_state(xy, sq, dq, esc) == norm_state(x2 + y, sq, dq, false));
                } else {
                    lemma_norm_concat(x1, y, sq, dq, true);
                    assert(normalized(xy, sq, dq, esc) == normalized(x1 + y, sq, dq, true));
                    assert(normalized(x, sq, dq, esc) == normalized(x1, sq, dq, true));
                    assert(f == norm_state(x1, sq, dq, true));
                    assert(norm_state(xy, sq, dq, esc) == norm_state(x1 + y, sq, dq, true));
                }
            } else {
                assert(x1 =~= Seq::<char>::empty());
                assert(x1 + y =~= y);
                assert(normalized(x, sq, dq, esc) == normalized(x1, sq, dq, true));
                assert(normalized(x1, sq, dq, true) == Seq::<char>::empty());
                assert(f == norm_state(x1, sq, dq, true));
                assert(f == (sq, dq, true));
                assert(normalized(xy, sq, dq, esc) == normalized(y, sq, dq, true));
                assert(norm_state(xy, sq, dq, esc) == norm_state(y, sq, dq, true));
                assert(Seq::<char>::empty() + normalized(y, sq, dq, true) =~= normalized(y, sq, dq, true));
            }
        } else if c == '\'' && !dq {
            lemma_norm_concat(x1, y, !sq, dq, false);
            assert(normalized(xy, sq, dq, esc) == seq![c] + normalized(x1 + y, !sq, dq, false));
            assert(normalized(x, sq, dq, esc) == seq![c] + normalized(x1, !sq, dq, false));
            assert(f == norm_state(x1, !sq, dq, false));
            assert(norm_state(xy, sq, dq, esc) == norm_state(x1 + y, !sq, dq, false));
        } else if c == '"' && !sq {
            lemma_norm_concat(x1, y, sq, !dq, false);
            assert(normalized(xy, sq, dq, esc) == seq![c] + normalized(x1 + y, sq, !dq, false));
            assert(normalized(x, sq, dq, esc) == seq![c] + normalized(x1, sq, !dq, false));
            assert(f == norm_state(x1, sq, !dq, false));
            assert(norm_state(xy, sq, dq, esc) == norm_state(x1 + y, sq, !dq, false));
        } else {
            lemma_norm_concat(x1, y, sq, dq, false);
            let d = if c == '\n' || c == '\r' { if sq || dq { c } else { ' ' } } else { c };
            assert(normalized(xy, sq, dq, esc) == seq![d] + normalized(x1 + y, sq, dq, false));
            assert(normalized(x, sq, dq, esc) == seq![d] + normalized(x1, sq, dq, false));
            assert(f == norm_state(x1, sq, dq, false));
            assert(norm_state(xy, sq, dq, esc) == norm_state(x1 + y, sq, dq, false));
        }
    }
}

/// No character that the first pass treats specially outside quotes.
pub open spec fn plain_text(p: Seq<char>) -> bool {
    forall|i: int| 0 <= i < p.len() ==> {
        let c = #[trigger] p[i];
        c != '\\' && c != '\'' && c != '"' && c != '\n' && c != '\r'
    }
}

proof fn lemma_norm_plain(p: Seq<char>)
    requires
        plain_text(p),
    ensures
        normalized(p, false, false, false) == p,
        norm_state(p, false, false, false) == (false, false, false),
    decreases p.len(),
{
    if p.len() > 0 {
        assert(plain_text(p.skip(1))) by {
            assert forall|i: int| 0 <= i < p.skip(1).len() implies {
                let c = #[trigger] p.skip(1)[i];
                c != '\\' && c != '\'' && c != '"' && c != '\n' && c != '\r'
            } by {
                assert(p.skip(1)[i] == p[i + 1]);
            }
        }
        lemma_norm_plain(p.skip(1));
        assert(p[0] != '\\' && p[0] != '\'' && p[0] != '"' && p[0] != '\n' && p[0] != '\r');
        assert(seq![p[0]] + p.skip(1) =~= p);
    }
}

/// No single quote: the text stays inside a single-quoted argument.
pub open spec fn no_single_quote(q: Seq<char>) -> bool {
    forall|i: int| 0 <= i < q.len() ==> #[trigger] q[i] != '\''
}

proof fn lemma_norm_in_quotes(q: Seq<char>)
    requires
        no_single_quote(q),
    ensures
        normalized(q, true, false, false) == q,
        norm_state(q, true, false, false) == (true, false, false),
    decreases q.len(),
{
    if q.len() > 0 {
        assert(no_single_quote(q.skip(1))) by {
            assert forall|i: int| 0 <= i < q.skip(1).len() implies #[trigger] q.skip(1)[i] != '\'' by {
                assert(q.skip(1)[i] == q[i + 1]);
            }
        }
        lemma_norm_in_quotes(q.skip(1));
        assert(q[0] != '\'');
        assert(seq![q[0]] + q.skip(1) =~= q);
    }
}

/// `'q'`: a single-quoted argument.
pub open spec fn single_quoted(q: Seq<char>) -> Seq<char> {
    seq!['\''] + q + seq!['\'']
}

proof fn lemma_norm_quoted(q: Seq<char>)
    requires
        no_single_quote(q),
    ensures
        normalized(single_quoted(q), false, false, false) == single_quoted(q),
        norm_state(single_quoted(q), false, false, false) == (false, false, false),
{
    lemma_norm_in_quotes(q);
    let open_q = seq!['\''];
    assert(normalized(open_q, false, false, false) == seq!['\''] + normalized(open_q.skip(1), true, false, false));
    assert(open_q.skip(1) =~= Seq::<char>::empty());
    assert(norm_state(open_q, false, false, false) == norm_state(open_q.skip(1), true, false, false));
    assert(normalized(open_q, false, false, false) =~= open_q);
    assert(normalized(open_q, true, false, false) == seq!['\''] + normalized(open_q.skip(1), false, false, false));
    assert(normalized(open_q, true, false, false) =~= open_q);
    assert(norm_state(open_q, true, false, false) == norm_state(open_q.skip(1), false, false, false));
    lemma_norm_concat(q, open_q, true, false, false);
    assert(single_quoted(q) =~= open_q + (q + open_q));
    lemma_norm_concat(open_q, q + open_q, false, false, false);
}

/// Two neutral pieces: the pass over both is the passes over each.
proof fn lemma_norm_join(x: Seq<char>, y: Seq<char>, nx: Seq<char>, ny: Seq<char>)
    requires
        normalized(x, false, false, false) == nx,
        norm_state(x, false, false, false) == (false, false, false),
        normalized(y, false, false, false) == ny,
        norm_state(y, false, false, false) == (false, false, false),
    ensures
        normalized(x + y, false, false, false) == nx + ny,
        norm_state(x + y, false, false, false) == (false, false, false),
{
    lemma_norm_concat(x, y, false, false, false);
}

/// The pieces of a saved command after the first pass: each non-blank
/// header line, trimmed and quoted, after `-H` and four spaces (the line
/// break of the saved command reads as one of them).
pub open spec fn header_pieces(lines: Seq<Seq<char>>) -> Seq<char>
    decreases lines.len(),
{
    if lines.len() == 0 {
        Seq::<char>::empty()
    } else {
        header_pieces(lines.drop_last()) + if trim(lines.last()).len() > 0 {
            seq![' ', ' ', ' ', ' ', '-', 'H', ' '] + single_quoted(trim(lines.last()))
        } else {
            Seq::<char>::empty()
        }
    }
}

/// Every header line that is not blank holds, trimmed, no single quote and
/// no backslash.
pub open spec fn plain_header_lines(lines: Seq<Seq<char>>) -> bool {
    forall|i: int| 0 <= i < lines.len() && trim(#[trigger] lines[i]).len() > 0 ==> no_single_quote(trim(lines[i]))
        && no_backslash(trim(lines[i]))
}

/// No backslash.
pub open spec fn no_backslash(q: Seq<char>) -> bool {
    forall|i: int| 0 <= i < q.len() ==> #[trigger] q[i] != '\\'
}

proof fn lemma_plain_concat(a: Seq<char>, b: Seq<char>)
    requires
        plain_text(a),
        plain_text(b),
    ensures
        plain_text(a + b),
{
    assert forall|i: int| 0 <= i < (a + b).len() implies {
        let c = #[trigger] (a + b)[i];
        c != '\\' && c != '\'' && c != '"' && c != '\n' && c != '\r'
    } by {
        if i < a.len() {
            assert((a + b)[i] == a[i]);
        } else {
            assert((a + b)[i] == b[i - a.len()]);
        }
    }
}

/// A line break in a saved command and the option after it: two spaces,
/// then `-H ` or `-d `.
proof fn lemma_norm_continuation(flag: Seq<char>, q: Seq<char>)
    requires
        flag == seq!['-', 'H', ' '] || flag == seq!['-', 'd', ' '],
        no_single_quote(q),
    ensures
        normalized(seq![' ', '\\', '\n', ' ', ' '] + flag + single_quoted(q), false, false, false) == seq![
            ' ',
            ' ',
            ' ',
            ' ',
        ] + flag + single_quoted(q),
        norm_state(seq![' ', '\\', '\n', ' ', ' '] + flag + single_quoted(q), false, false, false) == (false, false, false),
{
    let head = seq![' ', '\\', '\n'];
    let tail = seq![' ', ' '] + flag;
    assert(plain_text(tail));
    lemma_norm_plain(tail);
    lemma_norm_quoted(q);
    lemma_norm_join(tail, single_quoted(q), tail, single_quoted(q));
    let rest = tail + single_quoted(q);
    let all = head + rest;
    assert(seq![' ', '\\', '\n', ' ', ' '] + flag + single_quoted(q) =~= all);
    assert(all[0] == ' ');
    assert(all.skip(1) =~= seq!['\\', '\n'] + rest);
    let a1 = all.skip(1);
    assert(a1[0] == '\\');
    assert(a1.skip(1)[0] == '\n');
    assert(a1.skip(1).skip(1) =~= rest);
    assert(normalized(a1, false, false, false) == seq![' '] + normalized(rest, false, false, false));
    assert(norm_state(a1, false, false, false) == norm_state(rest, false, false, false));
    assert(normalized(all, false, false, false) == seq![' '] + normalized(a1, false, false, false));
    assert(norm_state(all, false, false, false) == norm_state(a1, false, false, false));
    assert(seq![' '] + (seq![' '] + (tail + single_quoted(q))) =~= seq![' ', ' ', ' ', ' '] + flag + single_quoted(q));
}

proof fn lemma_norm_headers(lines: Seq<Seq<char>>)
    requires
        plain_header_lines(lines),
    ensures
        normalized(header_options(lines), false, false, false) == header_pieces(lines),
        norm_state(header_options(lines), false, false, false) == (false, false, false),
    decreases lines.len(),
{
    if lines.len() == 0 {
        assert(header_options(lines) == Seq::<char>::empty());
    } else {
        let init = lines.drop_last();
        assert(plain_header_lines(init)) by {
            assert forall|i: int| 0 <= i < init.len() && trim(#[trigger] init[i]).len() > 0 implies no_single_quote(
                trim(init[i]),
            ) && no_backslash(trim(init[i])) by {
                assert(init[i] == lines[i]);
            }
        }
        lemma_norm_headers(init);
        let t = trim(lines.last());
        if t.len() > 0 {
            assert(lines[lines.len() - 1] == lines.last());
            reveal_strlit(" \\\n  -H '");
            reveal_strlit("'");
            let piece = " \\\n  -H '"@ + t + "'"@;
            assert(piece =~= seq![' ', '\\', '\n', ' ', ' '] + seq!['-', 'H', ' '] + single_quoted(t));
            lemma_norm_continuation(seq!['-', 'H', ' '], t);
            lemma_norm_join(header_options(init), piece, header_pieces(init), seq![' ', ' ', ' ', ' '] + seq![
                '-',
                'H',
                ' ',
            ] + single_quoted(t));
            assert(seq![' ', ' ', ' ', ' '] + seq!['-', 'H', ' '] + single_quoted(t) =~= seq![
                ' ',
                ' ',
                ' ',
                ' ',
                '-',
                'H',
                ' ',
            ] + single_quoted(t));
        } else {
            assert(header_options(lines) =~= header_options(init));
            assert(header_pieces(lines) =~= header_pieces(init));
        }
    }
}

/// The body option of a saved command after the first pass.
pub open spec fn body_piece(b: Seq<char>) -> Seq<char> {
    if b.len() > 0 {
        seq![' ', ' ', ' ', ' ', '-', 'd', ' '] + single_quoted(b)
    } else {
        Seq::<char>::empty()
    }
}

/// A saved command after the first pass.
pub open spec fn saved_normalized(m: Seq<char>, u: Seq<char>, h: Seq<char>, b: Seq<char>) -> Seq<char> {
    "curl -X "@ + m + seq![' '] + single_quoted(u) + header_pieces(lines_of(h)) + body_piece(b)
}

proof fn lemma_escape_plain(b: Seq<char>)
    requires
        no_single_quote(b),
    ensures
        escape_quotes(b) == b,
    decreases b.len(),
{
    if b.len() > 0 {
        let init = b.drop_last();
        assert(no_single_quote(init)) by {
            assert forall|i: int| 0 <= i < init.len() implies #[trigger] init[i] != '\'' by {
                assert(init[i] == b[i]);
            }
        }
        lemma_escape_plain(init);
        assert(b[b.len() - 1] != '\'');
        assert(init + seq![b.last()] =~= b);
    }
}

proof fn lemma_norm_saved(m: Seq<char>, u: Seq<char>, h: Seq<char>, b: Seq<char>)
    requires
        plain_text(m),
        no_single_quote(u),
        plain_header_lines(lines_of(h)),
        no_single_quote(b),
    ensures
        normalized(saved_command(m, u, h, b), false, false, false) == saved_normalized(m, u, h, b),
{
    reveal_strlit("curl -X ");
    reveal_strlit(" '");
    reveal_strlit("'");
    reveal_strlit(" \\\n  -d '");
    let start = "curl -X "@;
    assert(plain_text(start));
    let a = start + m + seq![' '];
    assert(plain_text(seq![' ']));
    lemma_plain_concat(start, m);
    lemma_plain_concat(start + m, seq![' ']);
    lemma_norm_plain(a);
    lemma_norm_quoted(u);
    lemma_norm_join(a, single_quoted(u), a, single_quoted(u));
    let p1 = a + single_quoted(u);
    let lines = lines_of(h);
    lemma_norm_headers(lines);
    lemma_norm_join(p1, header_options(lines), p1, header_pieces(lines));
    let p2 = p1 + header_options(lines);
    let raw_body: Seq<char> = if b.len() > 0 {
        " \\\n  -d '"@ + escape_quotes(b) + "'"@
    } else {
        Seq::<char>::empty()
    };
    assert(saved_command(m, u, h, b) =~= p2 + raw_body) by {
        assert("curl -X "@ + m + " '"@ + u + "'"@ =~= p1);
    }
    if b.len() > 0 {
        lemma_escape_plain(b);
        assert(raw_body =~= seq![' ', '\\', '\n', ' ', ' '] + seq!['-', 'd', ' '] + single_quoted(b));
        lemma_norm_continuation(seq!['-', 'd', ' '], b);
        assert(seq![' ', ' ', ' ', ' '] + seq!['-', 'd', ' '] + single_quoted(b) =~= body_piece(b));
        lemma_norm_join(p2, raw_body, p1 + header_pieces(lines), body_piece(b));
    } else {
        assert(p2 + raw_body =~= p2);
        assert(p1 + header_pieces(lines) + body_piece(b) =~= p1 + header_pieces(lines));
    }
}

// ---------------------------------------------------------------------------
// The second pass, piece by piece

/// The second pass over `s`: the tokens it finishes, the token it is
/// still reading, and the quoting and escape state it is left in.
pub open spec fn tok_run(s: Seq<char>, cur: Seq<char>, sq: bool, dq: bool, esc: bool) -> (
    Seq<Seq<char>>,
    Seq<char>,
    bool,
    bool,
    bool,
)
    decreases s.len(),
{
    if s.len() == 0 {
        (Seq::<Seq<char>>::empty(), cur, sq, dq, esc)
    } else {
        let c = s[0];
        let rest = s.skip(1);
        if esc {
            tok_run(rest, cur.push(c), sq, dq, false)
        } else if c == '\\' {
            tok_run(rest, cur.push(c), sq, dq, true)
        } else if c == '\'' && !dq {
            tok_run(rest, cur.push(c), !sq, dq, false)
        } else if c == '"' && !sq {
            tok_run(rest, cur.push(c), sq, !dq, false)
        } else if (c == ' ' || c == '\t') && !sq && !dq {
            let r = tok_run(rest, Seq::<char>::empty(), sq, dq, esc);
            if cur.len() > 0 {
                (seq![cur] + r.0, r.1, r.2, r.3, r.4)
            } else {
                r
            }
        } else {
            tok_run(rest, cur.push(c), sq, dq, false)
        }
    }
}

/// The second pass over `x + y` is the pass over `x`, then the pass over
/// `y` from where `x` left it.
#[verifier::rlimit(40)]
proof fn lemma_tok_concat(x: Seq<char>, y: Seq<char>, cur: Seq<char>, sq: bool, dq: bool, esc: bool)
    ensures
        tokens_of(x + y, cur, sq, dq, esc) == tok_run(x, cur, sq, dq, esc).0 + tokens_of(
            y,
            tok_run(x, cur, sq, dq, esc).1,
            tok_run(x, cur, sq, dq, esc).2,
            tok_run(x, cur, sq, dq, esc).3,
            tok_run(x, cur, sq, dq, esc).4,
        ),
        tok_run(x + y, cur, sq, dq, esc) == ({
            let r1 = tok_run(x, cur, sq, dq, esc);
            let r2 = tok_run(y, r1.1, r1.2, r1.3, r1.4);
            (r1.0 + r2.0, r2.1, r2.2, r2.3, r2.4)
        }),
    decreases x.len(),
{
    let xy = x + y;
    if x.len() == 0 {
        assert(xy =~= y);
        let r2 = tok_run(y, cur, sq, dq, esc);
        assert(Seq::<Seq<char>>::empty() + r2.0 =~= r2.0);
        assert(Seq::<Seq<char>>::empty() + tokens_of(y, cur, sq, dq, esc) =~= tokens_of(y, cur, sq, dq, esc));
    } else {
        let c = x[0];
        let x1 = x.skip(1);
        assert(xy[0] == c);
        assert(xy.skip(1) =~= x1 + y);
        if esc {
            lemma_tok_concat(x1, y, cur.push(c), sq, dq, false);
        } else if c == '\\' {
            lemma_tok_concat(x1, y, cur.push(c), sq, dq, true);
        } else if c == '\'' && !dq {
            lemma_tok_concat(x1, y, cur.push(c), !sq, dq, false);
        } else if c == '"' && !sq {
            lemma_tok_concat(x1, y, cur.push(c), sq, !dq, false);
        } else if (c == ' ' || c == '\t') && !sq && !dq {
            lemma_tok_concat(x1, y, Seq::<char>::empty(), sq, dq, esc);
            let r1 = tok_run(x1, Seq::<char>::empty(), sq, dq, esc);
            let r2 = tok_run(y, r1.1, r1.2, r1.3, r1.4);
            if cur.len() > 0 {
                assert(seq![cur] + (r1.0 + r2.0) =~= (seq![cur] + r1.0) + r2.0);
                assert(seq![cur] + (r1.0 + tokens_of(y, r1.1, r1.2, r1.3, r1.4)) =~= (seq![cur] + r1.0) + tokens_of(
                    y,
                    r1.1,
                    r1.2,
                    r1.3,
                    r1.4,
                ));
            }
        } else {
            lemma_tok_concat(x1, y, cur.push(c), sq, dq, false);
        }
    }
}

/// Characters that the second pass takes into a token as they are.
pub open spec fn word_text(p: Seq<char>) -> bool {
    forall|i: int| 0 <= i < p.len() ==> {
        let c = #[trigger] p[i];
        c != '\\' && c != '\'' && c != '"' && c != ' ' && c != '\t'
    }
}

proof fn lemma_tok_word(p: Seq<char>, cur: Seq<char>)
    requires
        word_text(p),
    ensures
        tok_run(p, cur, false, false, false) == (Seq::<Seq<char>>::empty(), cur + p, false, false, false),
    decreases p.len(),
{
    if p.len() == 0 {
        assert(cur + p =~= cur);
    } else {
        assert(word_text(p.skip(1))) by {
            assert forall|i: int| 0 <= i < p.skip(1).len() implies {
                let c = #[trigger] p.skip(1)[i];
                c != '\\' && c != '\'' && c != '"' && c != ' ' && c != '\t'
            } by {
                assert(p.skip(1)[i] == p[i + 1]);
            }
        }
        lemma_tok_word(p.skip(1), cur.push(p[0]));
        assert(cur.push(p[0]) + p.skip(1) =~= cur + p);
    }
}

proof fn lemma_tok_in_quotes(q: Seq<char>, cur: Seq<char>)
    requires
        no_single_quote(q),
        no_backslash(q),
    ensures
        tok_run(q, cur, true, false, false) == (Seq::<Seq<char>>::empty(), cur + q, true, false, false),
    decreases q.len(),
{
    if q.len() == 0 {
        assert(cur + q =~= cur);
    } else {
        assert(no_single_quote(q.skip(1)) && no_backslash(q.skip(1))) by {
            assert forall|i: int| 0 <= i < q.skip(1).len() implies #[trigger] q.skip(1)[i] != '\'' && q.skip(1)[i]
                != '\\' by {
                assert(q.skip(1)[i] == q[i + 1]);
            }
        }
        assert(q[0] != '\'' && q[0] != '\\');
        lemma_tok_in_quotes(q.skip(1), cur.push(q[0]));
        assert(cur.push(q[0]) + q.skip(1) =~= cur + q);
    }
}

proof fn lemma_tok_quoted(q: Seq<char>, cur: Seq<char>)
    requires
        no_single_quote(q),
        no_backslash(q),
    ensures
        tok_run(single_quoted(q), cur, false, false, false) == (
            Seq::<Seq<char>>::empty(),
            cur + single_quoted(q),
            false,
            false,
            false,
        ),
{
    let quote = seq!['\''];
    assert(quote.skip(1) =~= Seq::<char>::empty());
    assert(tok_run(quote, cur, false, false, false) == tok_run(quote.skip(1), cur.push('\''), true, false, false));
    lemma_tok_in_quotes(q, cur.push('\''));
    assert(tok_run(quote, cur.push('\'') + q, true, false, false) == tok_run(
        quote.skip(1),
        (cur.push('\'') + q).push('\''),
        false,
        false,
        false,
    ));
    lemma_tok_concat(q, quote, cur.push('\''), true, false, false);
    assert(single_quoted(q) =~= quote + (q + quote));
    lemma_tok_concat(quote, q + quote, cur, false, false, false);
    assert((cur.push('\'') + q).push('\'') =~= cur + single_quoted(q));
    assert(Seq::<Seq<char>>::empty() + (Seq::<Seq<char>>::empty() + Seq::<Seq<char>>::empty())
        =~= Seq::<Seq<char>>::empty());
}

/// One space ends the token being read.
proof fn lemma_tok_space(cur: Seq<char>)
    ensures
        tok_run(seq![' '], cur, false, false, false) == (
            if cur.len() > 0 { seq![cur] } else { Seq::<Seq<char>>::empty() },
            Seq::<char>::empty(),
            false,
            false,
            false,
        ),
{
    assert(seq![' '].skip(1) =~= Seq::<char>::empty());
    let r = tok_run(seq![' '].skip(1), Seq::<char>::empty(), false, false, false);
    assert(r == (Seq::<Seq<char>>::empty(), Seq::<char>::empty(), false, false, false));
    assert(seq![cur] + Seq::<Seq<char>>::empty() =~= seq![cur]);
}

/// Four spaces end the token being read.
proof fn lemma_tok_four_spaces(cur: Seq<char>)
    ensures
        tok_run(seq![' ', ' ', ' ', ' '], cur, false, false, false) == (
            if cur.len() > 0 { seq![cur] } else { Seq::<Seq<char>>::empty() },
            Seq::<char>::empty(),
            false,
            false,
            false,
        ),
{
    let sp = seq![' '];
    let e = Seq::<char>::empty();
    lemma_tok_space(cur);
    lemma_tok_space(e);
    assert(seq![' ', ' '] =~= sp + sp);
    assert(seq![' ', ' ', ' '] =~= sp + seq![' ', ' ']);
    assert(seq![' ', ' ', ' ', ' '] =~= sp + seq![' ', ' ', ' ']);
    lemma_tok_concat(sp, sp, e, false, false, false);
    lemma_tok_concat(sp, seq![' ', ' '], e, false, false, false);
    lemma_tok_concat(sp, seq![' ', ' ', ' '], cur, false, false, false);
    let none = Seq::<Seq<char>>::empty();
    assert(none + none =~= none);
    assert(none + (none + none) =~= none);
    assert(seq![cur] + none =~= seq![cur]);
}

/// An option piece of a saved command after the first pass (`    -H 'q'`
/// or `    -d 'q'`) ends the token being read, reads the flag, and leaves
/// the quoted value being read.
proof fn lemma_tok_option(flag: Seq<char>, q: Seq<char>, cur: Seq<char>)
    requires
        flag == seq!['-', 'H'] || flag == seq!['-', 'd'],
        cur.len() > 0,
        no_single_quote(q),
        no_backslash(q),
    ensures
        tok_run(seq![' ', ' ', ' ', ' '] + flag + seq![' '] + single_quoted(q), cur, false, false, false) == (
            seq![cur, flag],
            single_quoted(q),
            false,
            false,
            false,
        ),
{
    let e = Seq::<char>::empty();
    let none = Seq::<Seq<char>>::empty();
    let sp4 = seq![' ', ' ', ' ', ' '];
    let sqq = single_quoted(q);
    lemma_tok_four_spaces(cur);
    assert(word_text(flag));
    lemma_tok_word(flag, e);
    assert(e + flag =~= flag);
    lemma_tok_space(flag);
    lemma_tok_quoted(q, e);
    assert(e + sqq =~= sqq);
    lemma_tok_concat(seq![' '], sqq, flag, false, false, false);
    lemma_tok_concat(flag, seq![' '] + sqq, e, false, false, false);
    lemma_tok_concat(sp4, flag + (seq![' '] + sqq), cur, false, false, false);
    assert(sp4 + flag + seq![' '] + sqq =~= sp4 + (flag + (seq![' '] + sqq)));
    assert(seq![flag] + none =~= seq![flag]);
    assert(none + seq![flag] =~= seq![flag]);
    assert(seq![cur] + seq![flag] =~= seq![cur, flag]);
}

/// The tokens of a saved command's header options.
pub open spec fn header_tokens(lines: Seq<Seq<char>>) -> Seq<Seq<char>>
    decreases lines.len(),
{
    if lines.len() == 0 {
        Seq::<Seq<char>>::empty()
    } else {
        header_tokens(lines.drop_last()) + if trim(lines.last()).len() > 0 {
            seq![seq!['-', 'H'], single_quoted(trim(lines.last()))]
        } else {
            Seq::<Seq<char>>::empty()
        }
    }
}

/// The tokens of a saved command's body option.
pub open spec fn body_tokens(b: Seq<char>) -> Seq<Seq<char>> {
    if b.len() > 0 {
        seq![seq!['-', 'd'], single_quoted(b)]
    } else {
        Seq::<Seq<char>>::empty()
    }
}

proof fn lemma_tok_headers(lines: Seq<Seq<char>>, p: Seq<char>)
    requires
        p.len() > 0,
        plain_header_lines(lines),
    ensures
        ({
            let r = tok_run(header_pieces(lines), p, false, false, false);
            &&& !r.2 && !r.3 && !r.4
            &&& r.1.len() > 0
            &&& r.0 + seq![r.1] == seq![p] + header_tokens(lines)
        }),
    decreases lines.len(),
{
    if lines.len() == 0 {
        assert(header_pieces(lines) == Seq::<char>::empty());
        assert(Seq::<Seq<char>>::empty() + seq![p] =~= seq![p] + header_tokens(lines));
    } else {
        let init = lines.drop_last();
        assert(plain_header_lines(init)) by {
            assert forall|i: int| 0 <= i < init.len() && trim(#[trigger] init[i]).len() > 0 implies no_single_quote(
                trim(init[i]),
            ) && no_backslash(trim(init[i])) by {
                assert(init[i] == lines[i]);
            }
        }
        lemma_tok_headers(init, p);
        let r1 = tok_run(header_pieces(init), p, false, false, false);
        let t = trim(lines.last());
        if t.len() > 0 {
            assert(lines[lines.len() - 1] == lines.last());
            let flag = seq!['-', 'H'];
            let piece = seq![' ', ' ', ' ', ' '] + flag + seq![' '] + single_quoted(t);
            assert(seq![' ', ' ', ' ', ' ', '-', 'H', ' '] + single_quoted(t) =~= piece);
            lemma_tok_option(flag, t, r1.1);
            lemma_tok_concat(header_pieces(init), piece, p, false, false, false);
            assert(header_pieces(lines) == header_pieces(init) + piece);
            assert(r1.0 + seq![r1.1, flag] + seq![single_quoted(t)] =~= (r1.0 + seq![r1.1]) + seq![
                flag,
                single_quoted(t),
            ]);
            assert(seq![p] + header_tokens(init) + seq![flag, single_quoted(t)] =~= seq![p] + header_tokens(lines));
        } else {
            assert(header_pieces(lines) =~= header_pieces(init));
            assert(header_tokens(lines) =~= header_tokens(init));
        }
    }
}

proof fn lemma_tok_body(b: Seq<char>, p: Seq<char>)
    requires
        p.len() > 0,
        no_single_quote(b),
        no_backslash(b),
    ensures
        ({
            let r = tok_run(body_piece(b), p, false, false, false);
            &&& !r.2 && !r.3 && !r.4
            &&& r.1.len() > 0
            &&& r.0 + seq![r.1] == seq![p] + body_tokens(b)
        }),
{
    if b.len() > 0 {
        let flag = seq!['-', 'd'];
        let piece = seq![' ', ' ', ' ', ' '] + flag + seq![' '] + single_quoted(b);
        assert(body_piece(b) =~= piece);
        lemma_tok_option(flag, b, p);
        assert(seq![p, flag] + seq![single_quoted(b)] =~= seq![p] + body_tokens(b));
    } else {
        assert(body_piece(b) =~= Seq::<char>::empty());
        assert(Seq::<Seq<char>>::empty() + seq![p] =~= seq![p] + body_tokens(b));
    }
}

/// The tokens that a saved command splits into: `curl`, `-X`, the
/// method, the quoted URL, then `-H` and each quoted header line, then
/// `-d` and the quoted body where there is one.
pub open spec fn saved_tokens(m: Seq<char>, u: Seq<char>, h: Seq<char>, b: Seq<char>) -> Seq<Seq<char>> {
    seq![seq!['c', 'u', 'r', 'l'], seq!['-', 'X'], m, single_quoted(u)] + header_tokens(lines_of(h)) + body_tokens(b)
}

/// A method that the saved command keeps as one token: not empty, and
/// without spaces, tabs, line breaks, quotes or backslashes.
pub open spec fn plain_method(m: Seq<char>) -> bool {
    m.len() > 0 && plain_text(m) && word_text(m)
}

/// Text that a single-quoted argument keeps as it is: no single quote and
/// no backslash.
pub open spec fn plain_quoted(q: Seq<char>) -> bool {
    no_single_quote(q) && no_backslash(q)
}

#[verifier::rlimit(40)]
proof fn lemma_saved_tokens(m: Seq<char>, u: Seq<char>, h: Seq<char>, b: Seq<char>)
    requires
        plain_method(m),
        plain_quoted(u),
        plain_header_lines(lines_of(h)),
        plain_quoted(b),
    ensures
        tokenized(saved_command(m, u, h, b)) == saved_tokens(m, u, h, b),
{
    lemma_norm_saved(m, u, h, b);
    let n = saved_normalized(m, u, h, b);
    reveal_strlit("curl -X ");
    reveal_strlit("curl ");
    let w_curl = seq!['c', 'u', 'r', 'l'];
    let w_x = seq!['-', 'X'];
    let sp = seq![' '];
    let e = Seq::<char>::empty();
    let none = Seq::<Seq<char>>::empty();
    let hp = header_pieces(lines_of(h));
    let bp = body_piece(b);
    assert("curl -X "@ =~= w_curl + sp + w_x + sp);
    let p1 = w_curl + sp;
    let p2 = p1 + w_x;
    let p3 = p2 + sp;
    let p4 = p3 + m;
    let p5 = p4 + sp;
    let p6 = p5 + single_quoted(u);
    let p7 = p6 + hp;
    assert(n =~= p7 + bp);
    assert(n[0] == 'c');
    assert(trim_start(n) == n);
    assert(n.take(5) =~= "curl "@);
    assert(with_curl_prefix(n) == n);
    assert(word_text(w_curl));
    assert(word_text(w_x));
    lemma_tok_word(w_curl, e);
    assert(e + w_curl =~= w_curl);
    lemma_tok_space(w_curl);
    lemma_tok_concat(w_curl, sp, e, false, false, false);
    assert(tok_run(p1, e, false, false, false) == (seq![w_curl], e, false, false, false)) by {
        assert(none + seq![w_curl] =~= seq![w_curl]);
    }
    lemma_tok_word(w_x, e);
    assert(e + w_x =~= w_x);
    lemma_tok_concat(p1, w_x, e, false, false, false);
    assert(seq![w_curl] + none =~= seq![w_curl]);
    lemma_tok_space(w_x);
    lemma_tok_concat(p2, sp, e, false, false, false);
    assert(tok_run(p3, e, false, false, false) == (seq![w_curl, w_x], e, false, false, false)) by {
        assert(seq![w_curl] + seq![w_x] =~= seq![w_curl, w_x]);
    }
    lemma_tok_word(m, e);
    assert(e + m =~= m);
    lemma_tok_concat(p3, m, e, false, false, false);
    assert(seq![w_curl, w_x] + none =~= seq![w_curl, w_x]);
    lemma_tok_space(m);
    lemma_tok_concat(p4, sp, e, false, false, false);
    assert(tok_run(p5, e, false, false, false) == (seq![w_curl, w_x, m], e, false, false, false)) by {
        assert(seq![w_curl, w_x] + seq![m] =~= seq![w_curl, w_x, m]);
    }
    lemma_tok_quoted(u, e);
    assert(e + single_quoted(u) =~= single_quoted(u));
    lemma_tok_concat(p5, single_quoted(u), e, false, false, false);
    assert(seq![w_curl, w_x, m] + none =~= seq![w_curl, w_x, m]);
    lemma_tok_headers(lines_of(h), single_quoted(u));
    let r6 = tok_run(hp, single_quoted(u), false, false, false);
    lemma_tok_concat(p6, hp, e, false, false, false);
    lemma_tok_body(b, r6.1);
    let r7 = tok_run(bp, r6.1, false, false, false);
    lemma_tok_concat(p7, bp, e, false, false, false);
    lemma_tok_concat(n, e, e, false, false, false);
    assert(n + e =~= n);
    assert(tokens_of(e, r7.1, false, false, false) == seq![r7.1]);
    let pre = seq![w_curl, w_x, m];
    assert(pre + r6.0 + r7.0 + seq![r7.1] =~= pre + (r6.0 + (r7.0 + seq![r7.1])));
    assert(r6.0 + (seq![r6.1] + body_tokens(b)) =~= (r6.0 + seq![r6.1]) + body_tokens(b));
    assert(pre + ((seq![single_quoted(u)] + header_tokens(lines_of(h))) + body_tokens(b)) =~= saved_tokens(m, u, h, b));
}

// ---------------------------------------------------------------------------
// Reading the tokens

proof fn lemma_replace2_plain(s: Seq<char>, b: char, to: char)
    requires
        no_backslash(s),
    ensures
        replace2(s, '\\', b, to) == s,
    decreases s.len(),
{
    if s.len() >= 2 {
        assert(s[0] != '\\');
        assert(no_backslash(s.skip(1))) by {
            assert forall|i: int| 0 <= i < s.skip(1).len() implies #[trigger] s.skip(1)[i] != '\\' by {
                assert(s.skip(1)[i] == s[i + 1]);
            }
        }
        lemma_replace2_plain(s.skip(1), b, to);
        assert(seq![s[0]] + s.skip(1) =~= s);
    }
}

proof fn lemma_unquote_plain(q: Seq<char>)
    requires
        plain_quoted(q),
    ensures
        unquote(single_quoted(q)) == q,
{
    let s = single_quoted(q);
    assert(is_quoted(s));
    assert(s.subrange(1, s.len() - 1) =~= q);
    lemma_replace2_plain(q, '"', '"');
    lemma_replace2_plain(q, '\'', '\'');
    lemma_replace2_plain(q, '\\', '\\');
}

/// The request that the header lines give, read in order from `r`.
pub open spec fn headers_read(r: RequestModel, lines: Seq<Seq<char>>) -> RequestModel
    decreases lines.len(),
{
    if lines.len() == 0 {
        r
    } else {
        let r1 = headers_read(r, lines.drop_last());
        if trim(lines.last()).len() > 0 {
            with_header(r1, trim(lines.last()))
        } else {
            r1
        }
    }
}

/// The request that a saved command reads back as.
pub open spec fn read_back(m: Seq<char>, u: Seq<char>, h: Seq<char>, b: Seq<char>) -> RequestModel {
    let r0 = RequestModel { method: m, url: u, ..initial_request() };
    let r1 = headers_read(r0, lines_of(h));
    if b.len() > 0 {
        with_data(r1, b)
    } else {
        r1
    }
}

proof fn lemma_headers_keep(r: RequestModel, lines: Seq<Seq<char>>)
    ensures
        headers_read(r, lines).method == r.method,
        headers_read(r, lines).url == r.url,
        headers_read(r, lines).body == r.body,
    decreases lines.len(),
{
    if lines.len() > 0 {
        lemma_headers_keep(r, lines.drop_last());
    }
}

#[verifier::rlimit(40)]
proof fn lemma_parse_headers(args: Seq<Seq<char>>, i: int, r: RequestModel, lines: Seq<Seq<char>>, rest: Seq<Seq<char>>)
    requires
        1 <= i <= args.len(),
        args.skip(i) == header_tokens(lines) + rest,
        plain_header_lines(lines),
    ensures
        parse_from(args, i, r) == parse_from(args, i + header_tokens(lines).len(), headers_read(r, lines)),
    decreases lines.len(),
{
    if lines.len() > 0 {
        let init = lines.drop_last();
        assert(plain_header_lines(init)) by {
            assert forall|k: int| 0 <= k < init.len() && trim(#[trigger] init[k]).len() > 0 implies no_single_quote(
                trim(init[k]),
            ) && no_backslash(trim(init[k])) by {
                assert(init[k] == lines[k]);
            }
        }
        let t = trim(lines.last());
        let tail: Seq<Seq<char>> = if t.len() > 0 {
            seq![seq!['-', 'H'], single_quoted(t)]
        } else {
            Seq::<Seq<char>>::empty()
        };
        assert(header_tokens(lines) == header_tokens(init) + tail);
        assert(header_tokens(lines) + rest =~= header_tokens(init) + (tail + rest));
        lemma_parse_headers(args, i, r, init, tail + rest);
        let j = i + header_tokens(init).len();
        let r1 = headers_read(r, init);
        if t.len() > 0 {
            assert(lines[lines.len() - 1] == lines.last());
            assert(no_single_quote(t) && no_backslash(t));
            assert(args.skip(i)[j - i] == seq!['-', 'H']);
            assert(args.skip(i)[j - i + 1] == single_quoted(t));
            assert(args[j] == seq!['-', 'H']);
            assert(args[j + 1] == single_quoted(t));
            reveal_strlit("-");
            reveal_strlit("-X");
            reveal_strlit("--request");
            reveal_strlit("-H");
            assert(starts_with(args[j], "-"@)) by {
                assert(args[j].take(1) =~= "-"@);
            }
            assert(!is_url_arg(args[j]));
            assert(args[j] != "-X"@);
            assert(args[j] != "--request"@);
            assert(args[j] == "-H"@);
            lemma_unquote_plain(t);
            assert(parse_from(args, j, r1) == parse_from(args, j + 2, with_header(r1, t)));
        } else {
            assert(header_tokens(lines) =~= header_tokens(init));
        }
    }
}

/// A request saved as a cURL command reads back as the same request: the
/// method, the URL, the headers (each header line that is not blank, read
/// as `Key: Value`) and the body; a body turns a GET into a POST and, with
/// no content type given, adds the form content type, as any `-d` does.
/// This holds for a method without spaces, quotes or backslashes, a URL
/// that holds `http` and no `?`, and header lines, URL and body without
/// single quotes or backslashes.
#[verifier::rlimit(40)]
pub proof fn law_saved_request_reads_back(m: Seq<char>, u: Seq<char>, h: Seq<char>, b: Seq<char>)
    requires
        plain_method(m),
        plain_quoted(u),
        contains(u, "http"@),
        !has_char(u, '?'),
        plain_header_lines(lines_of(h)),
        plain_quoted(b),
    ensures
        parsed_command(saved_command(m, u, h, b)) == Ok::<RequestModel, ()>(read_back(m, u, h, b)),
        read_back(m, u, h, b).url == u,
        read_back(m, u, h, b).body == b,
        read_back(m, u, h, b).method == (if b.len() > 0 { post_if_get(m) } else { m }),
{
    lemma_saved_tokens(m, u, h, b);
    let tk = saved_tokens(m, u, h, b);
    let lines = lines_of(h);
    reveal_strlit("curl");
    reveal_strlit("-");
    reveal_strlit("-X");
    reveal_strlit("http");
    reveal_strlit("-d");
    reveal_strlit("--request");
    reveal_strlit("-H");
    reveal_strlit("--header");
    assert(tk[0] == "curl"@);
    assert(tk.len() >= 4);
    let init = initial_request();
    assert(tk[1] == "-X"@);
    assert(starts_with(tk[1], "-"@)) by {
        assert(tk[1].take(1) =~= "-"@);
    }
    assert(!is_url_arg(tk[1]));
    assert(parse_from(tk, 1, init) == parse_from(tk, 3, RequestModel { method: m, ..init }));
    let su = single_quoted(u);
    assert(tk[3] == su);
    assert(!starts_with(su, "-"@)) by {
        assert(su.take(1)[0] == '\'');
        assert("-"@[0] == '-');
    }
    assert(contains(su, "http"@)) by {
        let k = choose|k: int| 0 <= k && k + "http"@.len() <= u.len() && #[trigger] u.subrange(k, k + "http"@.len())
            == "http"@;
        assert(su.subrange(k + 1, k + 1 + "http"@.len()) =~= u.subrange(k, k + "http"@.len()));
    }
    assert(is_url_arg(su));
    lemma_unquote_plain(u);
    crate::text::lemma_find_first(u, '?', u.len() as int);
    let r0 = RequestModel { method: m, url: u, ..init };
    assert(with_url(RequestModel { method: m, ..init }, u) == r0);
    assert(parse_from(tk, 3, RequestModel { method: m, ..init }) == parse_from(tk, 4, r0));
    let bt = body_tokens(b);
    assert(tk.skip(4) =~= header_tokens(lines) + bt);
    lemma_parse_headers(tk, 4, r0, lines, bt);
    let j: int = 4 + header_tokens(lines).len() as int;
    let r1 = headers_read(r0, lines);
    lemma_headers_keep(r0, lines);
    assert(tk.len() == j + bt.len());
    if b.len() > 0 {
        assert(tk[j] == seq!['-', 'd']);
        assert(tk[j + 1] == single_quoted(b));
        assert(tk[j] == "-d"@);
        assert(starts_with(tk[j], "-"@)) by {
            assert(tk[j].take(1) =~= "-"@);
        }
        assert(!is_url_arg(tk[j]));
        assert(tk[j] != "-X"@ && tk[j] != "--request"@ && tk[j] != "-H"@ && tk[j] != "--header"@);
        lemma_unquote_plain(b);
        assert(parse_from(tk, j, r1) == parse_from(tk, j + 2, with_data(r1, b)));
    }
    assert(parsed_tokens(tk) == Ok::<RequestModel, ()>(parse_from(tk, 1, init)));
}

/// Saving the request fields and reading the saved file back into the
/// application gives back the URL, the method (a GET with a body comes
/// back as a POST) and the body, with the URL field focused; under the
/// conditions of `law_saved_request_reads_back`.
pub proof fn law_fields_reload(
    before: App,
    st: AppState,
    after: App,
    m: Seq<char>,
    u: Seq<char>,
    h: Seq<char>,
    b: Seq<char>,
)
    requires
        plain_method(m),
        plain_quoted(u),
        contains(u, "http"@),
        !has_char(u, '?'),
        plain_header_lines(lines_of(h)),
        plain_quoted(b),
        parse_outcome(before, st, after, saved_command(m, u, h, b)),
    ensures
        after.url_input@.lines == seq![u],
        after.method_input@.lines == seq![if b.len() > 0 { post_if_get(m) } else { m }],
        after.editor_rows(2) == (if b.len() > 0 { text_rows(b) } else { Seq::<Seq<char>>::empty() }),
        after.only_focused(Part::Url),
{
    law_saved_request_reads_back(m, u, h, b);
    let req = read_back(m, u, h, b);
    assert(after.contents() == loaded_contents(before.contents(), req));
    assert(after.contents().editors == request_rows(req));
    assert(after.contents().editors.len() == 5);
    assert(after.contents().editors[2] == after.editors@[2]@.rows);
}

} // verus!
