//! What each part of the screen shows, as rows of styled text pieces decided
//! from the editor state; drawing them is the terminal front end's part.

use vstd::prelude::*;
use crate::app::{ActivePanel, App, InputMode, RequestField, entry_lines, request_count};
use crate::model::Request;
use crate::strmap::StringMap;
use crate::text::{ascii_upper_seq, chars_of, join_strings, join_with, lines_of, push_all,
    split_lines, string_views, to_ascii_upper};
use crate::ui::{Tint, method_color, method_tint};

verus! {

/// A piece of text with its style: colors, bold, dim and blinking.
#[derive(Clone, Debug)]
pub struct Piece {
    pub text: String,
    pub fg: Option<Tint>,
    pub bg: Option<Tint>,
    pub bold: bool,
    pub dim: bool,
    pub blink: bool,
}

/// A piece as a value: its characters and its style.
pub struct PieceView {
    pub text: Seq<char>,
    pub fg: Option<Tint>,
    pub bg: Option<Tint>,
    pub bold: bool,
    pub dim: bool,
    pub blink: bool,
}

impl View for Piece {
    type V = PieceView;

    open spec fn view(&self) -> PieceView {
        PieceView {
            text: self.text@,
            fg: self.fg,
            bg: self.bg,
            bold: self.bold,
            dim: self.dim,
            blink: self.blink,
        }
    }
}

/// The pieces of a row, as values.
pub open spec fn row_view(r: Seq<Piece>) -> Seq<PieceView> {
    r.map_values(|p: Piece| p@)
}

/// The rows, as values.
pub open spec fn rows_view(rs: Seq<Vec<Piece>>) -> Seq<Seq<PieceView>> {
    rs.map_values(|r: Vec<Piece>| row_view(r@))
}

/// A piece in the foreground color `fg` (none: the terminal's own).
pub open spec fn colored(text: Seq<char>, fg: Option<Tint>) -> PieceView {
    PieceView { text, fg, bg: None, bold: false, dim: false, blink: false }
}

/// A dimmed piece in the foreground color `fg`.
pub open spec fn dimmed(text: Seq<char>, fg: Tint) -> PieceView {
    PieceView { text, fg: Some(fg), bg: None, bold: false, dim: true, blink: false }
}

/// The label of a request field: cyan and bold when the field has the
/// focus, dark gray otherwise.
pub open spec fn label_v(name: Seq<char>, active: bool) -> PieceView {
    PieceView {
        text: name + ": "@,
        fg: Some(
            if active {
                Tint::Cyan
            } else {
                Tint::DarkGray
            },
        ),
        bg: None,
        bold: active,
        dim: false,
        blink: false,
    }
}

/// The marker of an empty field.
pub open spec fn empty_marker_v() -> PieceView {
    dimmed("<empty>"@, Tint::DarkGray)
}

/// The URL row: its label, the URL, and a blinking cursor while it is typed.
pub open spec fn url_row(url: Seq<char>, active: bool, insert: bool) -> Seq<PieceView> {
    seq![label_v("URL     "@, active), colored(url, None)] + if insert {
        seq![PieceView { text: "█"@, fg: Some(Tint::Cyan), bg: None, bold: false, dim: false, blink: true }]
    } else {
        Seq::empty()
    }
}

/// The query as one `k=v&k=v` text, sorted by key.
pub open spec fn query_text(m: StringMap<String>) -> Seq<char> {
    join_with(entry_lines(m.pairs(), '='), "&"@)
}

/// The most body lines the request panel shows.
pub open spec fn max_body_rows() -> nat {
    20
}

/// A plain row of one piece, indented by two spaces.
pub open spec fn indented(t: Seq<char>) -> Seq<PieceView> {
    seq![colored("  "@ + t, None)]
}

/// The method row: label, method in upper case in its color, and the key
/// that cycles it.
pub open spec fn method_row_v(r: Request, active: bool) -> Seq<PieceView> {
    seq![
        label_v("Method  "@, active),
        colored(ascii_upper_seq(r.method@), Some(method_tint(r.method@))),
        dimmed("   [m] cycle"@, Tint::DarkGray),
    ]
}

/// The query row: label, then the query text or the empty marker.
pub open spec fn query_row_v(r: Request, active: bool) -> Seq<PieceView> {
    if r.query.pairs().len() == 0 {
        seq![label_v("Query   "@, active), empty_marker_v()]
    } else {
        seq![label_v("Query   "@, active), colored(query_text(r.query), None)]
    }
}

/// The header rows: the label (with the empty marker when there are none),
/// then one indented `Key: value` row per header, sorted by key.
pub open spec fn header_rows_v(r: Request, active: bool) -> Seq<Seq<PieceView>> {
    if r.headers.pairs().len() == 0 {
        seq![seq![label_v("Headers "@, active), empty_marker_v()]]
    } else {
        seq![seq![label_v("Headers "@, active)]] + entry_lines(r.headers.pairs(), ':').map_values(
            |l: Seq<char>| indented(l),
        )
    }
}

/// The first lines of `content` that the panel shows, each indented.
pub open spec fn body_line_rows(content: Seq<char>) -> Seq<Seq<PieceView>> {
    let ls = lines_of(content);
    let shown = if ls.len() > max_body_rows() {
        ls.take(max_body_rows() as int)
    } else {
        ls
    };
    shown.map_values(|l: Seq<char>| indented(l))
}

/// The body rows: the label with the body kind in brackets, then the first
/// lines of the body; or the label with the empty marker.
pub open spec fn body_rows_v(r: Request, active: bool) -> Seq<Seq<PieceView>> {
    match r.body {
        Some(b) => seq![seq![
            label_v("Body    "@, active),
            colored("["@ + b.kind@ + "]"@, Some(Tint::Yellow)),
        ]] + body_line_rows(b.content@),
        None => seq![seq![label_v("Body    "@, active), empty_marker_v()]],
    }
}

/// The rows of request `r` in the request panel; `focus` is the focused
/// field, if the panel has the focus; `insert_url` whether the URL is being
/// typed.
pub open spec fn request_rows(r: Request, focus: Option<RequestField>, insert_url: bool) -> Seq<
    Seq<PieceView>,
> {
    seq![
        method_row_v(r, focus == Some(RequestField::Method)),
        url_row(r.url@, focus == Some(RequestField::Url), insert_url),
        query_row_v(r, focus == Some(RequestField::Query)),
    ] + header_rows_v(r, focus == Some(RequestField::Headers)) + body_rows_v(
        r,
        focus == Some(RequestField::Body),
    )
}

/// What the request panel shows: the selected request's method, URL, query,
/// headers and the first lines of its body, with the focused field's label
/// highlighted; or a hint when no request is selected.
pub open spec fn request_panel(a: App) -> Seq<Seq<PieceView>> {
    if a.selected < request_count(a) {
        let focus = if a.active_panel == ActivePanel::RequestEditor {
            Some(a.active_field)
        } else {
            None
        };
        request_rows(
            a.collection.requests@[a.selected as int],
            focus,
            a.input_mode == InputMode::Insert && a.active_field == RequestField::Url,
        )
    } else {
        seq![seq![colored("No request — press [a] to add one, or load a .toml file"@, Some(Tint::DarkGray))]]
    }
}

/// A piece of `text` in the given style.
fn piece(text: String, fg: Option<Tint>, bold: bool, dim: bool) -> (p: Piece)
    ensures
        p@ == (PieceView { text: text@, fg, bg: None, bold, dim, blink: false }),
{
    Piece { text, fg, bg: None, bold, dim, blink: false }
}

/// The label of a request field.
fn label(name: &str, active: bool) -> (p: Piece)
    ensures
        p@ == label_v(name@, active),
{
    let mut t = String::from_str(name);
    t.push(':');
    t.push(' ');
    proof {
        reveal_strlit(": ");
        assert(t@ =~= name@ + ": "@);
    }
    piece(
        t,
        Some(
            if active {
                Tint::Cyan
            } else {
                Tint::DarkGray
            },
        ),
        active,
        false,
    )
}

/// The marker of an empty field.
fn empty_marker() -> (p: Piece)
    ensures
        p@ == empty_marker_v(),
{
    piece(String::from_str("<empty>"), Some(Tint::DarkGray), false, true)
}

/// `text` indented by two spaces, as a row.
fn indented_row(text: &str) -> (r: Vec<Piece>)
    ensures
        row_view(r@) == indented(text@),
{
    let mut t = String::from_str("  ");
    let tc = chars_of(text);
    push_all(&mut t, tc.as_slice());
    let r = vec![piece(t, None, false, false)];
    proof {
        assert(row_view(r@) =~= indented(text@));
    }
    r
}

/// The query as one `k=v&k=v` text.
fn query_string(m: &StringMap<String>) -> (r: String)
    ensures
        r@ == query_text(*m),
{
    proof {
        use_type_invariant(m);
        m.lemma_pairs();
    }
    let n = m.len();
    let mut parts: Vec<String> = Vec::new();
    let mut i: usize = 0;
    while i < n
        invariant
            n == m.keys().len() == m.pairs().len(),
            forall|j: int| 0 <= j < n ==> #[trigger] m.pairs()[j].0 == m.keys()[j],
            i <= n,
            string_views(parts@) == entry_lines(m.pairs(), '=').take(i as int),
        decreases n - i,
    {
        let mut line = m.key_at(i).clone();
        line.push('=');
        let vc = chars_of(m.value_at(i).as_str());
        push_all(&mut line, vc.as_slice());
        let ghost before = string_views(parts@);
        parts.push(line);
        proof {
            let p = m.pairs()[i as int];
            assert(line@ =~= p.0 + seq!['='] + p.1);
            assert(entry_lines(m.pairs(), '=')[i as int] == crate::app::entry_line(p.0, p.1, '='));
            assert(string_views(parts@) =~= before.push(line@));
            assert(entry_lines(m.pairs(), '=').take(i + 1) =~= entry_lines(m.pairs(), '=').take(
                i as int,
            ).push(line@));
        }
        i += 1;
    }
    proof {
        assert(entry_lines(m.pairs(), '=').take(n as int) =~= entry_lines(m.pairs(), '='));
    }
    join_strings(parts.as_slice(), "&")
}

/// Appends the header rows of `m`: one indented `Key: value` row per entry.
fn push_header_rows(out: &mut Vec<Vec<Piece>>, m: &StringMap<String>)
    ensures
        rows_view(final(out)@) == rows_view(old(out)@) + entry_lines(m.pairs(), ':').map_values(
            |l: Seq<char>| indented(l),
        ),
{
    proof {
        use_type_invariant(m);
        m.lemma_pairs();
    }
    let ghost start = rows_view(out@);
    let ghost want = entry_lines(m.pairs(), ':').map_values(|l: Seq<char>| indented(l));
    let n = m.len();
    let mut i: usize = 0;
    while i < n
        invariant
            n == m.keys().len() == m.pairs().len(),
            forall|j: int| 0 <= j < n ==> #[trigger] m.pairs()[j].0 == m.keys()[j],
            i <= n,
            want == entry_lines(m.pairs(), ':').map_values(|l: Seq<char>| indented(l)),
            rows_view(out@) == start + want.take(i as int),
        decreases n - i,
    {
        let mut line = m.key_at(i).clone();
        line.push(':');
        line.push(' ');
        let vc = chars_of(m.value_at(i).as_str());
        push_all(&mut line, vc.as_slice());
        let row = indented_row(line.as_str());
        let ghost before = rows_view(out@);
        out.push(row);
        proof {
            let p = m.pairs()[i as int];
            assert(line@ =~= p.0 + seq![':', ' '] + p.1);
            assert(entry_lines(m.pairs(), ':')[i as int] == crate::app::entry_line(p.0, p.1, ':'));
            assert(want[i as int] == indented(line@));
            assert(rows_view(out@) =~= before.push(row_view(row@)));
            assert(want.take(i + 1) =~= want.take(i as int).push(want[i as int]));
        }
        i += 1;
    }
    proof {
        assert(want.take(n as int) =~= want);
    }
}

/// Appends the first body rows: each of the first lines of `content`,
/// indented.
fn push_body_rows(out: &mut Vec<Vec<Piece>>, content: &str)
    ensures
        rows_view(final(out)@) == rows_view(old(out)@) + body_line_rows(content@),
{
    let lines = split_lines(content);
    let ghost ls = lines_of(content@);
    let ghost shown = if ls.len() > max_body_rows() {
        ls.take(max_body_rows() as int)
    } else {
        ls
    };
    let ghost want = shown.map_values(|l: Seq<char>| indented(l));
    let ghost start = rows_view(out@);
    let n = if lines.len() > 20 {
        20
    } else {
        lines.len()
    };
    let mut i: usize = 0;
    while i < n
        invariant
            string_views(lines@) == ls,
            n == shown.len(),
            n <= lines@.len(),
            forall|j: int| 0 <= j < n ==> #[trigger] shown[j] == ls[j],
            want == shown.map_values(|l: Seq<char>| indented(l)),
            i <= n,
            rows_view(out@) == start + want.take(i as int),
        decreases n - i,
    {
        let row = indented_row(lines[i].as_str());
        let ghost before = rows_view(out@);
        out.push(row);
        proof {
            assert(string_views(lines@)[i as int] == lines@[i as int]@);
            assert(want[i as int] == indented(ls[i as int]));
            assert(rows_view(out@) =~= before.push(row_view(row@)));
            assert(want.take(i + 1) =~= want.take(i as int).push(want[i as int]));
        }
        i += 1;
    }
    proof {
        assert(want.take(n as int) =~= want);
        assert(want == body_line_rows(content@));
    }
}

/// The method row of `req`.
fn method_row(req: &Request, active: bool) -> (row: Vec<Piece>)
    ensures
        row_view(row@) == method_row_v(*req, active),
{
    let row = vec![
        label("Method  ", active),
        piece(to_ascii_upper(req.method.as_str()), Some(method_color(req.method.as_str())), false, false),
        piece(String::from_str("   [m] cycle"), Some(Tint::DarkGray), false, true),
    ];
    proof {
        assert(row_view(row@) =~= method_row_v(*req, active));
    }
    row
}

/// The URL row of `url`.
fn url_row_of(url: &String, active: bool, insert: bool) -> (row: Vec<Piece>)
    ensures
        row_view(row@) == url_row(url@, active, insert),
{
    let mut row = vec![label("URL     ", active), piece(url.clone(), None, false, false)];
    if insert {
        row.push(Piece {
            text: String::from_str("█"),
            fg: Some(Tint::Cyan),
            bg: None,
            bold: false,
            dim: false,
            blink: true,
        });
    }
    proof {
        assert(row_view(row@) =~= url_row(url@, active, insert));
    }
    row
}

/// The query row of `req`.
fn query_row(req: &Request, active: bool) -> (row: Vec<Piece>)
    ensures
        row_view(row@) == query_row_v(*req, active),
{
    proof {
        use_type_invariant(&req.query);
        req.query.lemma_pairs();
    }
    let row = if req.query.is_empty() {
        vec![label("Query   ", active), empty_marker()]
    } else {
        vec![label("Query   ", active), piece(query_string(&req.query), None, false, false)]
    };
    proof {
        assert(row_view(row@) =~= query_row_v(*req, active));
    }
    row
}

/// Appends the header rows of `req`.
fn push_headers(out: &mut Vec<Vec<Piece>>, req: &Request, active: bool)
    ensures
        rows_view(final(out)@) == rows_view(old(out)@) + header_rows_v(*req, active),
{
    proof {
        use_type_invariant(&req.headers);
        req.headers.lemma_pairs();
    }
    let ghost start = rows_view(out@);
    if req.headers.is_empty() {
        let row = vec![label("Headers ", active), empty_marker()];
        out.push(row);
        proof {
            assert(row_view(row@) =~= seq![label_v("Headers "@, active), empty_marker_v()]);
            assert(rows_view(out@) =~= start + header_rows_v(*req, active));
        }
    } else {
        let row = vec![label("Headers ", active)];
        out.push(row);
        proof {
            assert(row_view(row@) =~= seq![label_v("Headers "@, active)]);
            assert(rows_view(out@) =~= start + seq![seq![label_v("Headers "@, active)]]);
        }
        push_header_rows(out, &req.headers);
        proof {
            assert(rows_view(out@) =~= start + header_rows_v(*req, active));
        }
    }
}

/// Appends the body rows of `req`.
fn push_body(out: &mut Vec<Vec<Piece>>, req: &Request, active: bool)
    ensures
        rows_view(final(out)@) == rows_view(old(out)@) + body_rows_v(*req, active),
{
    let ghost start = rows_view(out@);
    match &req.body {
        Some(b) => {
            let mut kind = String::from_str("[");
            let kc = chars_of(b.kind.as_str());
            push_all(&mut kind, kc.as_slice());
            kind.push(']');
            proof {
                reveal_strlit("[");
                reveal_strlit("]");
                assert(kind@ =~= "["@ + b.kind@ + "]"@);
            }
            let row = vec![label("Body    ", active), piece(kind, Some(Tint::Yellow), false, false)];
            let ghost head = seq![
                label_v("Body    "@, active),
                colored("["@ + b.kind@ + "]"@, Some(Tint::Yellow)),
            ];
            out.push(row);
            proof {
                assert(row_view(row@) =~= head);
                assert(rows_view(out@) =~= start + seq![head]);
            }
            push_body_rows(out, b.content.as_str());
            proof {
                assert(rows_view(out@) =~= start + body_rows_v(*req, active));
            }
        },
        None => {
            let row = vec![label("Body    ", active), empty_marker()];
            out.push(row);
            proof {
                assert(row_view(row@) =~= seq![label_v("Body    "@, active), empty_marker_v()]);
                assert(rows_view(out@) =~= start + body_rows_v(*req, active));
            }
        },
    }
}

/// The rows of the request panel (see [`request_panel`]).
pub fn request_panel_lines(app: &App) -> (r: Vec<Vec<Piece>>)
    ensures
        rows_view(r@) == request_panel(*app),
{
    if app.selected >= app.collection.requests.len() {
        let r = vec![vec![piece(
            String::from_str("No request — press [a] to add one, or load a .toml file"),
            Some(Tint::DarkGray),
            false,
            false,
        )]];
        proof {
            assert(row_view(r@[0]@) =~= seq![colored(
                "No request — press [a] to add one, or load a .toml file"@,
                Some(Tint::DarkGray),
            )]);
            assert(rows_view(r@) =~= request_panel(*app));
        }
        return r;
    }
    let req = &app.collection.requests[app.selected];
    let pa = app.active_panel == ActivePanel::RequestEditor;
    let f = app.active_field;
    let insert_url = app.input_mode == InputMode::Insert && f == RequestField::Url;
    let mut out: Vec<Vec<Piece>> = Vec::new();
    out.push(method_row(req, pa && f == RequestField::Method));
    out.push(url_row_of(&req.url, pa && f == RequestField::Url, insert_url));
    out.push(query_row(req, pa && f == RequestField::Query));
    let ghost three = rows_view(out@);
    push_headers(&mut out, req, pa && f == RequestField::Headers);
    push_body(&mut out, req, pa && f == RequestField::Body);
    proof {
        let focus = if pa {
            Some(f)
        } else {
            None::<RequestField>
        };
        let rq = app.collection.requests@[app.selected as int];
        assert(three =~= seq![
            method_row_v(rq, focus == Some(RequestField::Method)),
            url_row(rq.url@, focus == Some(RequestField::Url), insert_url),
            query_row_v(rq, focus == Some(RequestField::Query)),
        ]);
        assert(rows_view(out@) =~= request_panel(*app));
    }
    out
}

} // verus!
