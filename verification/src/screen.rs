//! The other parts of the screen as rows of styled pieces: the title bar,
//! the status and key-hint lines, the request list, the response summary,
//! the confirmation and history dialogs, and the field editor's title.

use vstd::prelude::*;
use crate::app::{App, Confirm, InputMode, RequestField, StatusKind};
use crate::history::{HistoryEntry, decimal, format_ts, format_ts_spec, push_padded};
use crate::http::status_class_of;
use crate::model::Request;
use crate::text::{ascii_upper_seq, chars_of, push_all, to_ascii_upper};
use crate::ui::{Tint, canonical_status_text, class_tint, method_color, method_tint,
    reason_phrase, status_class_color, status_color, status_tint};
use crate::view::{Piece, PieceView, colored, dimmed, row_view, rows_view};
use crate::http::StatusClass;

verus! {

/// `s` padded with spaces on the right to at least `w` characters.
pub open spec fn pad_right(s: Seq<char>, w: nat) -> Seq<char> {
    if s.len() < w {
        s + Seq::new((w - s.len()) as nat, |i: int| ' ')
    } else {
        s
    }
}

/// Appends `s` padded with spaces on the right to at least `w` characters.
fn push_padded_right(out: &mut String, s: &str, w: usize)
    ensures
        final(out)@ == old(out)@ + pad_right(s@, w as nat),
{
    let sc = chars_of(s);
    push_all(out, sc.as_slice());
    let ghost base = old(out)@ + s@;
    if sc.len() < w {
        let k = w - sc.len();
        let mut j: usize = 0;
        while j < k
            invariant
                j <= k,
                out@ == base + Seq::new(j as nat, |i: int| ' '),
            decreases k - j,
        {
            out.push(' ');
            proof {
                assert(base + Seq::new((j + 1) as nat, |i: int| ' ') =~= (base + Seq::new(
                    j as nat,
                    |i: int| ' ',
                )).push(' '));
            }
            j += 1;
        }
        proof {
            assert(out@ =~= old(out)@ + pad_right(s@, w as nat));
        }
    } else {
        proof {
            assert(out@ =~= old(out)@ + pad_right(s@, w as nat));
        }
    }
}

/// A piece of `text` in the given style.
fn styled(text: String, fg: Option<Tint>, bg: Option<Tint>, bold: bool, dim: bool) -> (p: Piece)
    ensures
        p@ == (PieceView { text: text@, fg, bg, bold, dim, blink: false }),
{
    Piece { text, fg, bg, bold, dim, blink: false }
}

/// The hint for the field being edited.
pub open spec fn insert_hint(f: RequestField) -> Seq<char> {
    match f {
        RequestField::Url => "editing URL  [Enter/Esc] save"@,
        RequestField::Body => "editing body  [Esc] save  [Enter] newline"@,
        RequestField::Headers => "editing headers (Key: value per line)  [Esc] save"@,
        RequestField::Query => "editing query (key=value per line)  [Esc] save"@,
        RequestField::Method => "[Esc] exit"@,
    }
}

/// The keys of normal mode.
pub open spec fn normal_hints() -> Seq<char> {
    "[↑↓/jk] nav  [s] send  [e] edit  [E] $EDITOR  [m] method  [a] add  [d] del  [w] save  [o] export  [y] yank  [Tab] panel  [h] hdrs  [?] help  [q] quit"@
}

/// The keys while a request is in flight.
pub open spec fn loading_hints() -> Seq<char> {
    "[Esc] cancel  [Tab] panel  [?] help  [q] quit"@
}

/// The key-hint line: in insert mode an `INSERT` badge and the field's
/// hint; otherwise the keys that apply, dimmed.
pub open spec fn key_hints_v(a: App) -> Seq<PieceView> {
    if a.input_mode == InputMode::Insert {
        seq![
            PieceView { text: " INSERT "@, fg: Some(Tint::Black), bg: Some(Tint::Cyan), bold: true, dim: false, blink: false },
            colored("  "@, None),
            colored(insert_hint(a.active_field), Some(Tint::DarkGray)),
        ]
    } else if a.is_loading {
        seq![dimmed(loading_hints(), Tint::DarkGray)]
    } else {
        seq![dimmed(normal_hints(), Tint::DarkGray)]
    }
}

/// The key-hint line (see [`key_hints_v`]).
pub fn render_keys(app: &App) -> (r: Vec<Piece>)
    ensures
        row_view(r@) == key_hints_v(*app),
{
    let r = if app.input_mode == InputMode::Insert {
        let hint = match app.active_field {
            RequestField::Url => "editing URL  [Enter/Esc] save",
            RequestField::Body => "editing body  [Esc] save  [Enter] newline",
            RequestField::Headers => "editing headers (Key: value per line)  [Esc] save",
            RequestField::Query => "editing query (key=value per line)  [Esc] save",
            RequestField::Method => "[Esc] exit",
        };
        vec![
            styled(String::from_str(" INSERT "), Some(Tint::Black), Some(Tint::Cyan), true, false),
            styled(String::from_str("  "), None, None, false, false),
            styled(String::from_str(hint), Some(Tint::DarkGray), None, false, false),
        ]
    } else if app.is_loading {
        vec![styled(String::from_str("[Esc] cancel  [Tab] panel  [?] help  [q] quit"), Some(Tint::DarkGray), None, false, true)]
    } else {
        vec![styled(String::from_str("[↑↓/jk] nav  [s] send  [e] edit  [E] $EDITOR  [m] method  [a] add  [d] del  [w] save  [o] export  [y] yank  [Tab] panel  [h] hdrs  [?] help  [q] quit"), Some(Tint::DarkGray), None, false, true)]
    };
    proof {
        assert(row_view(r@) =~= key_hints_v(*app));
    }
    r
}

/// The color of a status message: info cyan, warning yellow, error red.
pub open spec fn kind_tint(k: StatusKind) -> Tint {
    match k {
        StatusKind::Info => Tint::Cyan,
        StatusKind::Warn => Tint::Yellow,
        StatusKind::Error => Tint::Red,
    }
}

/// The status line: the status message in its color, or nothing.
pub open spec fn status_row_v(a: App) -> Seq<PieceView> {
    match a.status_message {
        Some((k, msg)) => seq![colored(msg@, Some(kind_tint(k)))],
        None => Seq::empty(),
    }
}

/// The status line (see [`status_row_v`]).
pub fn render_status(app: &App) -> (r: Vec<Piece>)
    ensures
        row_view(r@) == status_row_v(*app),
{
    let r = match &app.status_message {
        Some((k, msg)) => {
            let t = match k {
                StatusKind::Info => Tint::Cyan,
                StatusKind::Warn => Tint::Yellow,
                StatusKind::Error => Tint::Red,
            };
            vec![styled(msg.clone(), Some(t), None, false, false)]
        },
        None => Vec::new(),
    };
    proof {
        assert(row_view(r@) =~= status_row_v(*app));
    }
    r
}

/// The title bar: the application's badge, the collection's name (or
/// `untitled`), its file (or `<no file>`), the environment, and a mark when
/// there are unsaved changes.
pub open spec fn title_row_v(a: App, path: Option<Seq<char>>) -> Seq<PieceView> {
    let name = match a.collection.name {
        Some(n) => n@,
        None => "untitled"@,
    };
    let p = match path {
        Some(p) => p,
        None => "<no file>"@,
    };
    seq![
        PieceView { text: " ApiTester "@, fg: Some(Tint::Black), bg: Some(Tint::Cyan), bold: true, dim: false, blink: false },
        colored("  "@, None),
        PieceView { text: name, fg: None, bg: None, bold: true, dim: false, blink: false },
        colored("  ["@ + p + "]  "@, Some(Tint::DarkGray)),
        colored("env="@ + a.env@, Some(Tint::Magenta)),
        colored(if a.dirty { " ● dirty"@ } else { ""@ }, Some(Tint::Yellow)),
    ]
}

/// The title bar (see [`title_row_v`]); `path` is how the collection's file
/// is displayed, if there is one.
pub fn title_row(app: &App, path: Option<&str>) -> (r: Vec<Piece>)
    ensures
        row_view(r@) == title_row_v(*app, match path {
            Some(p) => Some(p@),
            None => None,
        }),
{
    let ghost pv = match path {
        Some(p) => Some(p@),
        None => None::<Seq<char>>,
    };
    let name = match &app.collection.name {
        Some(n) => n.clone(),
        None => String::from_str("untitled"),
    };
    let p = match path {
        Some(p) => String::from_str(p),
        None => String::from_str("<no file>"),
    };
    let mut loc = String::from_str("  [");
    let pc = chars_of(p.as_str());
    push_all(&mut loc, pc.as_slice());
    let tail = chars_of("]  ");
    push_all(&mut loc, tail.as_slice());
    let mut env = String::from_str("env=");
    let ec = chars_of(app.env.as_str());
    push_all(&mut env, ec.as_slice());
    let dirty = if app.dirty {
        String::from_str(" ● dirty")
    } else {
        String::new()
    };
    let r = vec![
        styled(String::from_str(" ApiTester "), Some(Tint::Black), Some(Tint::Cyan), true, false),
        styled(String::from_str("  "), None, None, false, false),
        styled(name, None, None, true, false),
        styled(loc, Some(Tint::DarkGray), None, false, false),
        styled(env, Some(Tint::Magenta), None, false, false),
        styled(dirty, Some(Tint::Yellow), None, false, false),
    ];
    proof {
        reveal_strlit("");
        assert(""@ =~= Seq::<char>::empty());
        assert(row_view(r@) =~= title_row_v(*app, pv));
    }
    r
}

/// One entry of the request list: the method in upper case, padded to six
/// columns, in its color, then the request's name.
pub open spec fn list_item_v(r: Request) -> Seq<PieceView> {
    seq![
        colored(pad_right(ascii_upper_seq(r.method@), 6), Some(method_tint(r.method@))),
        colored(" "@, None),
        colored(r.name@, None),
    ]
}

/// The request list: one entry per request, or a hint for an empty
/// collection.
pub open spec fn request_list_v(a: App) -> Seq<Seq<PieceView>> {
    if a.collection.requests@.len() == 0 {
        seq![seq![colored("  empty — pass a .toml file as arg"@, Some(Tint::DarkGray))]]
    } else {
        a.collection.requests@.map_values(|r: Request| list_item_v(r))
    }
}

/// The request list (see [`request_list_v`]).
pub fn request_list(app: &App) -> (r: Vec<Vec<Piece>>)
    ensures
        rows_view(r@) == request_list_v(*app),
{
    let reqs = &app.collection.requests;
    if reqs.len() == 0 {
        let r = vec![vec![styled(String::from_str("  empty — pass a .toml file as arg"), Some(Tint::DarkGray), None, false, false)]];
        proof {
            assert(row_view(r@[0]@) =~= seq![colored("  empty — pass a .toml file as arg"@, Some(Tint::DarkGray))]);
            assert(rows_view(r@) =~= request_list_v(*app));
        }
        return r;
    }
    let ghost want = reqs@.map_values(|r: Request| list_item_v(r));
    let mut out: Vec<Vec<Piece>> = Vec::new();
    let mut i: usize = 0;
    while i < reqs.len()
        invariant
            i <= reqs@.len(),
            want == reqs@.map_values(|r: Request| list_item_v(r)),
            rows_view(out@) == want.take(i as int),
        decreases reqs@.len() - i,
    {
        let rq = &reqs[i];
        let mut m = String::new();
        let up = to_ascii_upper(rq.method.as_str());
        push_padded_right(&mut m, up.as_str(), 6);
        let row = vec![
            styled(m, Some(method_color(rq.method.as_str())), None, false, false),
            styled(String::from_str(" "), None, None, false, false),
            styled(rq.name.clone(), None, None, false, false),
        ];
        let ghost before = rows_view(out@);
        out.push(row);
        proof {
            assert(m@ =~= pad_right(ascii_upper_seq(rq.method@), 6));
            assert(row_view(row@) =~= list_item_v(*rq));
            assert(rows_view(out@) =~= before.push(row_view(row@)));
            assert(want.take(i + 1) =~= want.take(i as int).push(want[i as int]));
        }
        i += 1;
    }
    proof {
        assert(want.take(reqs@.len() as int) =~= want);
    }
    out
}

/// A key named in a dialog: yellow and bold.
pub open spec fn key_v(k: Seq<char>) -> PieceView {
    PieceView { text: k, fg: Some(Tint::Yellow), bg: None, bold: true, dim: false, blink: false }
}

/// The title of a confirmation dialog.
pub open spec fn confirm_title_v(c: Confirm) -> Seq<char> {
    match c {
        Confirm::QuitDirty => " unsaved changes "@,
        Confirm::DeleteRequest => " delete request "@,
    }
}

/// The rows of a confirmation dialog: a blank row, the question, a blank
/// row, and the keys that answer it.
pub open spec fn confirm_rows_v(c: Confirm) -> Seq<Seq<PieceView>> {
    let (prompt, keys) = match c {
        Confirm::QuitDirty => (
            "You have unsaved changes. Quit anyway?"@,
            seq![
                key_v("y"@),
                colored(" discard & quit    "@, None),
                key_v("w"@),
                colored(" save & quit    "@, None),
                key_v("n"@),
                colored(" / "@, None),
                key_v("Esc"@),
                colored(" cancel"@, None),
            ],
        ),
        Confirm::DeleteRequest => (
            "Delete the selected request?"@,
            seq![
                key_v("y"@),
                colored(" yes    "@, None),
                key_v("n"@),
                colored(" / "@, None),
                key_v("Esc"@),
                colored(" cancel"@, None),
            ],
        ),
    };
    seq![Seq::empty(), seq![colored(prompt, None)], Seq::empty(), keys]
}

/// A key named in a dialog.
fn key_piece(k: &str) -> (p: Piece)
    ensures
        p@ == key_v(k@),
{
    styled(String::from_str(k), Some(Tint::Yellow), None, true, false)
}

/// Plain text.
fn plain(t: &str) -> (p: Piece)
    ensures
        p@ == colored(t@, None),
{
    styled(String::from_str(t), None, None, false, false)
}

/// The title and rows of a confirmation dialog (see [`confirm_rows_v`]).
pub fn confirm_dialog(c: Confirm) -> (r: (String, Vec<Vec<Piece>>))
    ensures
        r.0@ == confirm_title_v(c),
        rows_view(r.1@) == confirm_rows_v(c),
{
    let (title, prompt, keys) = match c {
        Confirm::QuitDirty => (
            " unsaved changes ",
            "You have unsaved changes. Quit anyway?",
            vec![
                key_piece("y"),
                plain(" discard & quit    "),
                key_piece("w"),
                plain(" save & quit    "),
                key_piece("n"),
                plain(" / "),
                key_piece("Esc"),
                plain(" cancel"),
            ],
        ),
        Confirm::DeleteRequest => (
            " delete request ",
            "Delete the selected request?",
            vec![
                key_piece("y"),
                plain(" yes    "),
                key_piece("n"),
                plain(" / "),
                key_piece("Esc"),
                plain(" cancel"),
            ],
        ),
    };
    let rows = vec![Vec::new(), vec![plain(prompt)], Vec::new(), keys];
    proof {
        let want = confirm_rows_v(c);
        assert(row_view(rows@[0]@) =~= want[0]);
        assert(row_view(rows@[1]@) =~= want[1]);
        assert(row_view(rows@[2]@) =~= want[2]);
        assert(row_view(rows@[3]@) =~= want[3]);
        assert(rows_view(rows@) =~= want);
    }
    (String::from_str(title), rows)
}

/// The outcome of a recorded send: its status padded to three columns in
/// the status color; `ERR` in red for a failure; `???` otherwise.
pub open spec fn outcome_v(e: HistoryEntry) -> PieceView {
    match (e.status, e.error) {
        (Some(s), _) => colored(pad_right(decimal(s as nat), 3), Some(status_tint(s))),
        (None, Some(_)) => colored("ERR"@, Some(Tint::Red)),
        (None, None) => colored("???"@, None),
    }
}

/// How long a recorded send took (` 12ms`), or its error (` error`), or
/// nothing.
pub open spec fn timing_v(e: HistoryEntry) -> Seq<char> {
    match (e.elapsed_ms, e.error) {
        (Some(ms), _) => " "@ + decimal(ms as nat) + "ms"@,
        (None, Some(err)) => " "@ + err@,
        (None, None) => Seq::empty(),
    }
}

/// One row of the history list: when, the outcome, the method padded to six
/// columns, the name, the URL and the timing.
pub open spec fn history_row_v(e: HistoryEntry) -> Seq<PieceView> {
    seq![
        colored(format_ts_spec(e.ts_ms as nat) + " "@, Some(Tint::DarkGray)),
        outcome_v(e),
        colored(" "@ + pad_right(e.method@, 6), Some(Tint::Cyan)),
        colored(e.name@ + " "@, None),
        colored(e.url@, Some(Tint::DarkGray)),
        colored(timing_v(e), Some(Tint::DarkGray)),
    ]
}

/// Appends the decimal digits of `n`.
fn push_decimal(s: &mut String, n: u64)
    ensures
        final(s)@ == old(s)@ + decimal(n as nat),
{
    push_padded(s, n, 0);
}

/// One row of the history list (see [`history_row_v`]).
pub fn history_row(e: &HistoryEntry) -> (r: Vec<Piece>)
    ensures
        row_view(r@) == history_row_v(*e),
{
    let mut when = format_ts(e.ts_ms);
    when.push(' ');
    let outcome = match (&e.status, &e.error) {
        (Some(s), _) => {
            let mut d = String::new();
            push_decimal(&mut d, *s as u64);
            let mut t = String::new();
            push_padded_right(&mut t, d.as_str(), 3);
            styled(t, Some(status_color(*s)), None, false, false)
        },
        (None, Some(_)) => styled(String::from_str("ERR"), Some(Tint::Red), None, false, false),
        (None, None) => styled(String::from_str("???"), None, None, false, false),
    };
    let mut method = String::from_str(" ");
    push_padded_right(&mut method, e.method.as_str(), 6);
    let mut name = e.name.clone();
    name.push(' ');
    let mut timing = String::new();
    match (&e.elapsed_ms, &e.error) {
        (Some(ms), _) => {
            timing.push(' ');
            push_decimal(&mut timing, *ms);
            timing.push('m');
            timing.push('s');
        },
        (None, Some(err)) => {
            timing.push(' ');
            let ec = chars_of(err.as_str());
            push_all(&mut timing, ec.as_slice());
        },
        (None, None) => {},
    }
    let r = vec![
        styled(when, Some(Tint::DarkGray), None, false, false),
        outcome,
        styled(method, Some(Tint::Cyan), None, false, false),
        styled(name, None, None, false, false),
        styled(e.url.clone(), Some(Tint::DarkGray), None, false, false),
        styled(timing, Some(Tint::DarkGray), None, false, false),
    ];
    proof {
        reveal_strlit(" ");
        reveal_strlit("ms");
        assert(r@[0]@.text =~= format_ts_spec(e.ts_ms as nat) + " "@);
        assert(r@[2]@.text =~= " "@ + pad_right(e.method@, 6));
        assert(r@[3]@.text =~= e.name@ + " "@);
        assert(r@[5]@.text =~= timing_v(*e));
        assert(row_view(r@) =~= history_row_v(*e));
    }
    r
}

/// The rows of the history dialog: a bold title, a blank row, one row per
/// entry (or a hint when there are none), a blank row and how to close it.
pub open spec fn history_rows_v(es: Seq<HistoryEntry>) -> Seq<Seq<PieceView>> {
    seq![
        seq![PieceView { text: "Request history (newest first)"@, fg: None, bg: None, bold: true, dim: false, blink: false }],
        Seq::empty(),
    ] + if es.len() == 0 {
        seq![seq![colored("  no history yet — send a request first"@, Some(Tint::DarkGray))]]
    } else {
        es.map_values(|e: HistoryEntry| history_row_v(e))
    } + seq![Seq::empty(), seq![colored("Press Esc, H, or q to close"@, Some(Tint::DarkGray))]]
}

/// The rows of the history dialog (see [`history_rows_v`]).
pub fn history_rows(entries: &[HistoryEntry]) -> (r: Vec<Vec<Piece>>)
    ensures
        rows_view(r@) == history_rows_v(entries@),
{
    let mut out: Vec<Vec<Piece>> = Vec::new();
    let first = vec![styled(String::from_str("Request history (newest first)"), None, None, true, false)];
    let blank0: Vec<Piece> = Vec::new();
    proof {
        assert(row_view(first@) =~= seq![PieceView { text: "Request history (newest first)"@, fg: None, bg: None, bold: true, dim: false, blink: false }]);
        assert(row_view(blank0@) =~= Seq::<PieceView>::empty());
    }
    out.push(first);
    out.push(blank0);
    let ghost head = rows_view(out@);
    let ghost mid = if entries@.len() == 0 {
        seq![seq![colored("  no history yet — send a request first"@, Some(Tint::DarkGray))]]
    } else {
        entries@.map_values(|e: HistoryEntry| history_row_v(e))
    };
    if entries.len() == 0 {
        let row = vec![styled(String::from_str("  no history yet — send a request first"), Some(Tint::DarkGray), None, false, false)];
        out.push(row);
        proof {
            assert(row_view(row@) =~= mid[0]);
            assert(rows_view(out@) =~= head + mid);
        }
    } else {
        let mut i: usize = 0;
        while i < entries.len()
            invariant
                i <= entries@.len(),
                entries@.len() > 0,
                mid == entries@.map_values(|e: HistoryEntry| history_row_v(e)),
                rows_view(out@) == head + mid.take(i as int),
            decreases entries@.len() - i,
        {
            let row = history_row(&entries[i]);
            let ghost before = rows_view(out@);
            out.push(row);
            proof {
                assert(rows_view(out@) =~= before.push(row_view(row@)));
                assert(mid.take(i + 1) =~= mid.take(i as int).push(mid[i as int]));
            }
            i += 1;
        }
        proof {
            assert(mid.take(entries@.len() as int) =~= mid);
        }
    }
    let ghost body = rows_view(out@);
    let blank: Vec<Piece> = Vec::new();
    proof {
        assert(row_view(blank@) =~= Seq::<PieceView>::empty());
    }
    out.push(blank);
    let last = vec![styled(String::from_str("Press Esc, H, or q to close"), Some(Tint::DarkGray), None, false, false)];
    out.push(last);
    proof {
        assert(row_view(last@) =~= seq![colored("Press Esc, H, or q to close"@, Some(Tint::DarkGray))]);
        assert(head =~= seq![
            seq![PieceView { text: "Request history (newest first)"@, fg: None, bg: None, bold: true, dim: false, blink: false }],
            Seq::empty(),
        ]);
        assert(rows_view(out@) =~= history_rows_v(entries@));
    }
    out
}

/// The response panel while a request is in flight.
pub open spec fn sending_row_v() -> Seq<PieceView> {
    seq![colored("  ⏳ Sending... [Esc] to cancel"@, Some(Tint::Yellow))]
}

/// The response panel before any response.
pub open spec fn no_response_row_v() -> Seq<PieceView> {
    seq![colored("  No response yet — press [s] to send"@, Some(Tint::DarkGray))]
}

/// The summary row of a response: status and reason in the status class's
/// color, bold; the time taken; the size as given; and the key that shows or
/// hides the headers.
pub open spec fn response_summary_v(status: u16, elapsed_ms: u64, size: Seq<char>, show_headers: bool) -> Seq<PieceView> {
    seq![
        PieceView {
            text: "Status: "@ + decimal(status as nat) + " "@ + reason_phrase(status),
            fg: Some(class_tint(status_class_of(status))),
            bg: None,
            bold: true,
            dim: false,
            blink: false,
        },
        colored("   "@, None),
        colored("Time: "@ + decimal(elapsed_ms as nat) + "ms"@, Some(Tint::DarkGray)),
        colored("   "@, None),
        colored("Size: "@ + size, Some(Tint::DarkGray)),
        colored("   "@, None),
        dimmed(if show_headers { "[h] hide hdrs"@ } else { "[h] show hdrs"@ }, Tint::DarkGray),
    ]
}

/// The response panel's placeholder rows (see [`sending_row_v`] and
/// [`no_response_row_v`]).
pub fn response_placeholder(loading: bool) -> (r: Vec<Piece>)
    ensures
        row_view(r@) == if loading {
            sending_row_v()
        } else {
            no_response_row_v()
        },
{
    let r = if loading {
        vec![styled(String::from_str("  ⏳ Sending... [Esc] to cancel"), Some(Tint::Yellow), None, false, false)]
    } else {
        vec![styled(String::from_str("  No response yet — press [s] to send"), Some(Tint::DarkGray), None, false, false)]
    };
    proof {
        assert(row_view(r@) =~= if loading {
            sending_row_v()
        } else {
            no_response_row_v()
        });
    }
    r
}

/// The summary row of a response (see [`response_summary_v`]); `size` is the
/// body's size as displayed.
pub fn response_summary(status: u16, elapsed_ms: u64, size: &str, show_headers: bool) -> (r: Vec<Piece>)
    ensures
        row_view(r@) == response_summary_v(status, elapsed_ms, size@, show_headers),
{
    let mut st = String::from_str("Status: ");
    push_decimal(&mut st, status as u64);
    st.push(' ');
    let reason = chars_of(canonical_status_text(status));
    push_all(&mut st, reason.as_slice());
    let class = if 100 <= status && status <= 199 {
        StatusClass::Info
    } else if 200 <= status && status <= 299 {
        StatusClass::Success
    } else if 300 <= status && status <= 399 {
        StatusClass::Redirect
    } else if 400 <= status && status <= 499 {
        StatusClass::ClientError
    } else if 500 <= status && status <= 599 {
        StatusClass::ServerError
    } else {
        StatusClass::Unknown
    };
    let mut time = String::from_str("Time: ");
    push_decimal(&mut time, elapsed_ms);
    time.push('m');
    time.push('s');
    let mut sz = String::from_str("Size: ");
    let sc = chars_of(size);
    push_all(&mut sz, sc.as_slice());
    let toggle = if show_headers {
        "[h] hide hdrs"
    } else {
        "[h] show hdrs"
    };
    let r = vec![
        styled(st, Some(status_class_color(class)), None, true, false),
        plain("   "),
        styled(time, Some(Tint::DarkGray), None, false, false),
        plain("   "),
        styled(sz, Some(Tint::DarkGray), None, false, false),
        plain("   "),
        styled(String::from_str(toggle), Some(Tint::DarkGray), None, false, true),
    ];
    proof {
        reveal_strlit(" ");
        reveal_strlit("ms");
        assert(class == status_class_of(status));
        assert(r@[0]@.text =~= "Status: "@ + decimal(status as nat) + " "@ + reason_phrase(status));
        assert(r@[2]@.text =~= "Time: "@ + decimal(elapsed_ms as nat) + "ms"@);
        assert(r@[4]@.text =~= "Size: "@ + size@);
        assert(row_view(r@) =~= response_summary_v(status, elapsed_ms, size@, show_headers));
    }
    r
}

/// One response header row: the name and `: ` in dark gray, then the value,
/// or `?` for a value that is not text.
pub open spec fn response_header_row_v(name: Seq<char>, value: Option<Seq<char>>) -> Seq<PieceView> {
    seq![
        colored(name + ": "@, Some(Tint::DarkGray)),
        colored(
            match value {
                Some(v) => v,
                None => "?"@,
            },
            None,
        ),
    ]
}

/// One response header row (see [`response_header_row_v`]).
pub fn response_header_row(name: &str, value: Option<&str>) -> (r: Vec<Piece>)
    ensures
        row_view(r@) == response_header_row_v(name@, match value {
            Some(v) => Some(v@),
            None => None,
        }),
{
    let mut n = String::from_str(name);
    n.push(':');
    n.push(' ');
    let v = match value {
        Some(v) => String::from_str(v),
        None => String::from_str("?"),
    };
    let r = vec![styled(n, Some(Tint::DarkGray), None, false, false), styled(v, None, None, false, false)];
    proof {
        reveal_strlit(": ");
        assert(r@[0]@.text =~= name@ + ": "@);
        assert(row_view(r@) =~= response_header_row_v(name@, match value {
            Some(v) => Some(v@),
            None => None,
        }));
    }
    r
}

/// The name and the hint of the field being edited.
pub open spec fn editor_labels(f: RequestField) -> (Seq<char>, Seq<char>) {
    match f {
        RequestField::Url => ("URL"@, "Enter/Esc save"@),
        RequestField::Body => ("body"@, "Esc save · Enter newline"@),
        RequestField::Headers => ("headers"@, "one \"Key: value\" per line · Esc save"@),
        RequestField::Query => ("query"@, "one \"key=value\" per line · Esc save"@),
        RequestField::Method => ("method"@, ""@),
    }
}

/// The title of the field editor: ` edit <field> — <hint> `.
pub fn editor_title(f: RequestField) -> (r: String)
    ensures
        r@ == " edit "@ + editor_labels(f).0 + " — "@ + editor_labels(f).1 + " "@,
{
    let (field, hint) = match f {
        RequestField::Url => ("URL", "Enter/Esc save"),
        RequestField::Body => ("body", "Esc save · Enter newline"),
        RequestField::Headers => ("headers", "one \"Key: value\" per line · Esc save"),
        RequestField::Query => ("query", "one \"key=value\" per line · Esc save"),
        RequestField::Method => ("method", ""),
    };
    let mut t = String::from_str(" edit ");
    let fc = chars_of(field);
    push_all(&mut t, fc.as_slice());
    let dash = chars_of(" — ");
    push_all(&mut t, dash.as_slice());
    let hc = chars_of(hint);
    push_all(&mut t, hc.as_slice());
    t.push(' ');
    proof {
        reveal_strlit(" ");
        assert(t@ =~= " edit "@ + editor_labels(f).0 + " — "@ + editor_labels(f).1 + " "@);
    }
    t
}

} // verus!
