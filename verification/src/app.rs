//! The interactive editor's state and the operations that change it.

use vstd::prelude::*;
use std::path::PathBuf;
use crate::editor::{CursorTarget, Editor, editor_cursor, editor_lines, initial_lines};
use crate::history::HistoryEntry;
use crate::search::Search;
use crate::http::{Response, SendOpts};
use crate::model::{Body, Collection, Request};
use crate::strmap::StringMap;
use crate::text::{ascii_upper_seq, chars_eq, chars_of, find_from, find_from_exec, is_blank,
    is_blank_str, join_strings, join_with, lemma_find_from, lines_of, push_all, split_lines,
    string_of_range, string_views, to_ascii_upper, trim, trim_str};

verus! {

/// The panel that has the focus.
#[derive(Clone, Copy, PartialEq, Eq, Debug, Structural)]
pub enum ActivePanel {
    CollectionList,
    RequestEditor,
    ResponseViewer,
}

/// Whether keys act on the application or type into the field editor.
#[derive(Clone, Copy, PartialEq, Eq, Debug, Structural)]
pub enum InputMode {
    Normal,
    Insert,
}

/// The field of the request panel that has the focus.
#[derive(Clone, Copy, PartialEq, Eq, Debug, Structural)]
pub enum RequestField {
    Method,
    Url,
    Query,
    Headers,
    Body,
}

/// The severity of a status-bar message.
#[derive(Clone, Copy, PartialEq, Eq, Debug, Structural)]
pub enum StatusKind {
    Info,
    Warn,
    Error,
}

/// A pending yes/no confirmation that blocks normal input until resolved.
#[derive(Clone, Copy, PartialEq, Eq, Debug, Structural)]
pub enum Confirm {
    QuitDirty,
    DeleteRequest,
}

/// The state of the interactive editor.
pub struct App {
    pub collection_path: Option<PathBuf>,
    pub collection: Collection,
    /// Index of the selected request.
    pub selected: usize,
    pub active_panel: ActivePanel,
    pub active_field: RequestField,
    pub input_mode: InputMode,
    pub response: Option<Response>,
    pub response_scroll: u16,
    pub show_response_headers: bool,
    pub status_message: Option<(StatusKind, String)>,
    pub is_loading: bool,
    pub in_flight: Option<tokio::task::JoinHandle<()>>,
    /// The collection has changes that are not saved.
    pub dirty: bool,
    pub env: String,
    pub send_opts: SendOpts,
    pub help_open: bool,
    pub confirm: Option<Confirm>,
    /// The request history while its list is open, newest first.
    pub history: Option<Vec<HistoryEntry>>,
    /// The search of the response body, if one was started.
    pub search: Option<Search>,
    /// Active multi-line editor for the current field, present only in insert mode.
    pub editor: Option<Editor>,
    pub should_quit: bool,
    /// Use a light syntax-highlighting theme instead of the default dark one.
    pub light_theme: bool,
    /// Disable colored syntax highlighting in the response viewer.
    pub no_color: bool,
}

/// The number of requests in the collection.
pub open spec fn request_count(a: App) -> int {
    a.collection.requests@.len() as int
}

/// The panel after `p` in the Tab cycle.
pub open spec fn next_panel(p: ActivePanel) -> ActivePanel {
    match p {
        ActivePanel::CollectionList => ActivePanel::RequestEditor,
        ActivePanel::RequestEditor => ActivePanel::ResponseViewer,
        ActivePanel::ResponseViewer => ActivePanel::CollectionList,
    }
}

/// The field after `f` (Method, URL, Query, Headers, Body, and round).
pub open spec fn next_field(f: RequestField) -> RequestField {
    match f {
        RequestField::Method => RequestField::Url,
        RequestField::Url => RequestField::Query,
        RequestField::Query => RequestField::Headers,
        RequestField::Headers => RequestField::Body,
        RequestField::Body => RequestField::Method,
    }
}

/// The field before `f`.
pub open spec fn prev_field(f: RequestField) -> RequestField {
    match f {
        RequestField::Method => RequestField::Body,
        RequestField::Url => RequestField::Method,
        RequestField::Query => RequestField::Url,
        RequestField::Headers => RequestField::Query,
        RequestField::Body => RequestField::Headers,
    }
}

/// `GET`
pub open spec fn m_get() -> Seq<char> {
    seq!['G', 'E', 'T']
}

/// `POST`
pub open spec fn m_post() -> Seq<char> {
    seq!['P', 'O', 'S', 'T']
}

/// `PUT`
pub open spec fn m_put() -> Seq<char> {
    seq!['P', 'U', 'T']
}

/// `PATCH`
pub open spec fn m_patch() -> Seq<char> {
    seq!['P', 'A', 'T', 'C', 'H']
}

/// `DELETE`
pub open spec fn m_delete() -> Seq<char> {
    seq!['D', 'E', 'L', 'E', 'T', 'E']
}

/// The method after `m` in the cycle GET, POST, PUT, PATCH, DELETE (case
/// ignored); any other method goes to GET.
pub open spec fn next_method_spec(m: Seq<char>) -> Seq<char> {
    let u = ascii_upper_seq(m);
    if u == m_get() {
        m_post()
    } else if u == m_post() {
        m_put()
    } else if u == m_put() {
        m_patch()
    } else if u == m_patch() {
        m_delete()
    } else {
        m_get()
    }
}

/// The method after `current` in the cycle GET, POST, PUT, PATCH, DELETE.
pub fn next_method(current: &str) -> (r: String)
    ensures
        r@ == next_method_spec(current@),
{
    let u = to_ascii_upper(current);
    let uc = chars_of(u.as_str());
    proof {
        reveal_strlit("GET");
        reveal_strlit("POST");
        reveal_strlit("PUT");
        reveal_strlit("PATCH");
        reveal_strlit("DELETE");
    }
    let get = chars_of("GET");
    let post = chars_of("POST");
    let put = chars_of("PUT");
    let patch = chars_of("PATCH");
    proof {
        assert(get@ =~= m_get());
        assert(post@ =~= m_post());
        assert(put@ =~= m_put());
        assert(patch@ =~= m_patch());
        assert("DELETE"@ =~= m_delete());
    }
    if chars_eq(uc.as_slice(), get.as_slice()) {
        String::from_str("POST")
    } else if chars_eq(uc.as_slice(), post.as_slice()) {
        String::from_str("PUT")
    } else if chars_eq(uc.as_slice(), put.as_slice()) {
        String::from_str("PATCH")
    } else if chars_eq(uc.as_slice(), patch.as_slice()) {
        String::from_str("DELETE")
    } else {
        String::from_str("GET")
    }
}

/// One `key<sep>value` line; with `:` the separator is followed by a space.
pub open spec fn entry_line(k: Seq<char>, v: Seq<char>, sep: char) -> Seq<char> {
    if sep == ':' {
        k + seq![':', ' '] + v
    } else {
        k + seq![sep] + v
    }
}

/// The entries as lines, in the given (ascending) order.
pub open spec fn entry_lines(ps: Seq<(Seq<char>, Seq<char>)>, sep: char) -> Seq<Seq<char>> {
    ps.map_values(|p: (Seq<char>, Seq<char>)| entry_line(p.0, p.1, sep))
}

/// The text of a map: one `key<sep>value` line per entry, sorted by key.
pub open spec fn map_text(ps: Seq<(Seq<char>, Seq<char>)>, sep: char) -> Seq<char> {
    join_with(entry_lines(ps, sep), seq!['\n'])
}

/// Renders a key/value map as one `key<sep> value` line per entry, sorted by
/// key (a space follows the separator only for `:`).
pub fn map_to_text(map: &StringMap<String>, sep: char) -> (r: String)
    ensures
        r@ == map_text(map.pairs(), sep),
{
    proof {
        use_type_invariant(map);
        map.lemma_pairs();
    }
    let n = map.len();
    let mut lines: Vec<String> = Vec::new();
    let mut i: usize = 0;
    while i < n
        invariant
            n == map.keys().len() == map.pairs().len(),
            forall|j: int| 0 <= j < n ==> #[trigger] map.pairs()[j].0 == map.keys()[j],
            i <= n,
            string_views(lines@) == entry_lines(map.pairs(), sep).take(i as int),
        decreases n - i,
    {
        let mut line = map.key_at(i).clone();
        if sep == ':' {
            line.push(':');
            line.push(' ');
        } else {
            line.push(sep);
        }
        let vc = chars_of(map.value_at(i).as_str());
        push_all(&mut line, vc.as_slice());
        let ghost before = string_views(lines@);
        lines.push(line);
        proof {
            let p = map.pairs()[i as int];
            if sep == ':' {
                assert(line@ =~= entry_line(p.0, p.1, sep));
            } else {
                assert(line@ =~= entry_line(p.0, p.1, sep));
            }
            assert(string_views(lines@) =~= before.push(line@));
            assert(entry_lines(map.pairs(), sep).take(i + 1) =~= entry_lines(map.pairs(), sep).take(
                i as int,
            ).push(line@));
        }
        i += 1;
    }
    proof {
        assert(entry_lines(map.pairs(), sep).take(n as int) =~= entry_lines(map.pairs(), sep));
    }
    let nl = String::from_str("\n");
    proof {
        reveal_strlit("\n");
        assert(nl@ =~= seq!['\n']);
    }
    join_strings(lines.as_slice(), nl.as_str())
}

/// `t` split at its first `sep`: the text before and the text after.
pub open spec fn split_at_sep(t: Seq<char>, sep: char) -> Option<(Seq<char>, Seq<char>)> {
    match find_from(t, seq![sep], 0) {
        None => None,
        Some(i) => Some((t.subrange(0, i), t.subrange(i + 1, t.len() as int))),
    }
}

/// `m` after reading one line: a trimmed line `key<sep>value` with a
/// non-blank key sets the trimmed key to the trimmed value; blank lines,
/// lines without the separator and lines with a blank key change nothing.
pub open spec fn apply_line(
    m: Map<Seq<char>, Seq<char>>,
    line: Seq<char>,
    sep: char,
) -> Map<Seq<char>, Seq<char>> {
    let t = trim(line);
    if t.len() == 0 {
        m
    } else {
        match split_at_sep(t, sep) {
            None => m,
            Some((k, v)) => if trim(k).len() == 0 {
                m
            } else {
                m.insert(trim(k), trim(v))
            },
        }
    }
}

/// The map that the lines describe, read in order (a later key wins).
pub open spec fn parse_lines(lines: Seq<Seq<char>>, sep: char) -> Map<Seq<char>, Seq<char>>
    decreases lines.len(),
{
    if lines.len() == 0 {
        Map::empty()
    } else {
        apply_line(parse_lines(lines.drop_last(), sep), lines.last(), sep)
    }
}

/// Parses `key<sep>value` lines back into a map. Blank lines and lines
/// without the separator are skipped; keys and values are trimmed. Splits on
/// the first separator so values may contain it.
pub fn parse_map(lines: &[String], sep: char) -> (m: StringMap<String>)
    ensures
        m@ == parse_lines(string_views(lines@), sep),
{
    let mut m: StringMap<String> = StringMap::new();
    let sv = vec![sep];
    let mut i: usize = 0;
    while i < lines.len()
        invariant
            i <= lines@.len(),
            sv@ == seq![sep],
            m@ == parse_lines(string_views(lines@).take(i as int), sep),
        decreases lines@.len() - i,
    {
        proof {
            assert(string_views(lines@).take(i + 1).drop_last() =~= string_views(lines@).take(
                i as int,
            ));
            assert(string_views(lines@).take(i + 1).last() == lines@[i as int]@);
        }
        let t = trim_str(lines[i].as_str());
        let tc = chars_of(t.as_str());
        if tc.len() > 0 {
            match find_from_exec(tc.as_slice(), sv.as_slice(), 0) {
                None => {},
                Some(p) => {
                    proof {
                        lemma_find_from(tc@, seq![sep], 0);
                    }
                    let kraw = string_of_range(tc.as_slice(), 0, p);
                    let vraw = string_of_range(tc.as_slice(), p + 1, tc.len());
                    let k = trim_str(kraw.as_str());
                    let v = trim_str(vraw.as_str());
                    if k.as_str().unicode_len() > 0 {
                        m.insert(k, v);
                    }
                },
            }
        }
        i += 1;
    }
    proof {
        assert(string_views(lines@).take(lines@.len() as int) =~= string_views(lines@));
    }
    m
}


/// `b` is `a` with request `i` replaced by `r` and the rest of the
/// collection as it was.
pub open spec fn request_replaced(a: Collection, b: Collection, i: int, r: Request) -> bool {
    &&& b.requests@ == a.requests@.update(i, r)
    &&& b == Collection { requests: b.requests, ..a }
}

/// A fresh request: named `new-request`, `GET`, empty URL, no headers, query
/// or body.
pub open spec fn is_new_request(r: Request) -> bool {
    &&& r.name@ == "new-request"@
    &&& r.method@ == m_get()
    &&& r.url@.len() == 0
    &&& r.headers@ == Map::<Seq<char>, Seq<char>>::empty()
    &&& r.query@ == Map::<Seq<char>, Seq<char>>::empty()
    &&& r.body is None
}

/// The text a field's editor starts with: the URL, the query as `key=value`
/// lines, the headers as `Key: value` lines, or the body (empty without one).
pub open spec fn field_text(r: Request, f: RequestField) -> Seq<char> {
    match f {
        RequestField::Url => r.url@,
        RequestField::Query => map_text(r.query.pairs(), '='),
        RequestField::Headers => map_text(r.headers.pairs(), ':'),
        RequestField::Body => match r.body {
            Some(b) => b.content@,
            None => Seq::empty(),
        },
        RequestField::Method => Seq::empty(),
    }
}

/// The lines an editor on `text` starts with: one empty line for an empty
/// text, else the text's lines.
pub open spec fn editor_seed(text: Seq<char>) -> Seq<Seq<char>> {
    if text.len() == 0 {
        seq![Seq::<char>::empty()]
    } else {
        lines_of(text)
    }
}

/// `raw`
pub open spec fn raw_kind() -> Seq<char> {
    seq!['r', 'a', 'w']
}

/// Setting the body to `content` changes the request: a blank content
/// removes a present body; any other content differs from the present one.
pub open spec fn body_changes(r: Request, content: Seq<char>) -> bool {
    if is_blank(content) {
        r.body is Some
    } else {
        !(r.body matches Some(b) && b.content@ == content)
    }
}

/// `n` is `r` with its body set to `content`: a blank content removes the
/// body; an unchanged content leaves the request as it was; otherwise the
/// body holds `content`, keeping its kind and parts (a new body is `raw`,
/// without parts).
pub open spec fn body_set(r: Request, n: Request, content: Seq<char>) -> bool {
    if is_blank(content) {
        n == Request { body: None, ..r }
    } else if !body_changes(r, content) {
        n == r
    } else {
        &&& n == Request { body: n.body, ..r }
        &&& n.body matches Some(nb)
        &&& nb.content@ == content
        &&& match r.body {
            Some(b) => nb.kind == b.kind && nb.parts == b.parts,
            None => nb.kind@ == raw_kind() && nb.parts@.len() == 0,
        }
    }
}

/// Committing the editor's `lines` to field `f` of `r` changes it.
pub open spec fn commit_changes(r: Request, f: RequestField, lines: Seq<Seq<char>>) -> bool {
    match f {
        RequestField::Url => join_with(lines, Seq::empty()) != r.url@,
        RequestField::Body => body_changes(r, join_with(lines, seq!['\n'])),
        RequestField::Query => parse_lines(lines, '=') != r.query@,
        RequestField::Headers => parse_lines(lines, ':') != r.headers@,
        RequestField::Method => false,
    }
}

/// `n` is `r` after committing the editor's `lines` to field `f`: the URL is
/// the lines joined; the body is the lines joined by newlines (see
/// [`body_set`]); query and headers are the maps the lines describe. A field
/// that does not change leaves the request as it was; the method is never
/// edited this way.
pub open spec fn commit_field(r: Request, n: Request, f: RequestField, lines: Seq<Seq<char>>) -> bool {
    if !commit_changes(r, f, lines) {
        match f {
            RequestField::Body => body_set(r, n, join_with(lines, seq!['\n'])),
            _ => n == r,
        }
    } else {
        match f {
            RequestField::Url => n == Request { url: n.url, ..r } && n.url@ == join_with(
                lines,
                Seq::empty(),
            ),
            RequestField::Body => body_set(r, n, join_with(lines, seq!['\n'])),
            RequestField::Query => n == Request { query: n.query, ..r } && n.query@ == parse_lines(
                lines,
                '=',
            ),
            RequestField::Headers => n == Request { headers: n.headers, ..r } && n.headers@
                == parse_lines(lines, ':'),
            RequestField::Method => n == r,
        }
    }
}

/// The application's state invariant: the selection is in range, or the
/// collection is empty.
pub open spec fn selection_ok(a: App) -> bool {
    request_count(a) == 0 || a.selected < request_count(a)
}

/// `a` after selecting the next request (wrapping round) with the response
/// scrolled to the top; unchanged on an empty collection.
pub open spec fn select_next_spec(a: App) -> App {
    if request_count(a) == 0 {
        a
    } else {
        App { selected: ((a.selected + 1) % request_count(a)) as usize, response_scroll: 0, ..a }
    }
}

/// `a` after selecting the previous request (wrapping round) with the
/// response scrolled to the top; unchanged on an empty collection.
pub open spec fn select_prev_spec(a: App) -> App {
    if request_count(a) == 0 {
        a
    } else {
        App {
            selected: if a.selected == 0 {
                (request_count(a) - 1) as usize
            } else {
                (a.selected - 1) as usize
            },
            response_scroll: 0,
            ..a
        }
    }
}

/// `a` with the response scrolled up one line, stopping at the top.
pub open spec fn scroll_up_spec(a: App) -> App {
    App {
        response_scroll: if a.response_scroll == 0 {
            0
        } else {
            (a.response_scroll - 1) as u16
        },
        ..a
    }
}

/// `a` with the response scrolled down one line, stopping at the largest
/// offset.
pub open spec fn scroll_down_spec(a: App) -> App {
    App {
        response_scroll: if a.response_scroll == u16::MAX {
            u16::MAX
        } else {
            (a.response_scroll + 1) as u16
        },
        ..a
    }
}

/// `b` is `a` after cycling the selected request's method (GET, POST, PUT,
/// PATCH, DELETE, and round) and marking the collection dirty; `a` itself
/// when no request is selected.
pub open spec fn cycle_method_post(a: App, b: App) -> bool {
    if a.selected < request_count(a) {
        let i = a.selected as int;
        let o = a.collection.requests@[i];
        let n = b.collection.requests@[i];
        &&& request_replaced(a.collection, b.collection, i, n)
        &&& n == Request { method: n.method, ..o }
        &&& n.method@ == next_method_spec(o.method@)
        &&& b == App { collection: b.collection, dirty: true, ..a }
    } else {
        b == a
    }
}

/// `b` is `a` with a new blank request inserted just after the selection (at
/// the front of an empty collection) and selected, the response cleared and
/// the collection dirty.
pub open spec fn add_request_post(a: App, b: App) -> bool {
    let idx = if request_count(a) == 0 {
        0
    } else {
        a.selected + 1
    };
    let n = b.collection.requests@[idx];
    &&& b.collection.requests@ == a.collection.requests@.insert(idx, n)
    &&& b.collection == Collection { requests: b.collection.requests, ..a.collection }
    &&& is_new_request(n)
    &&& b == App {
        collection: b.collection,
        selected: idx as usize,
        response: None,
        response_scroll: 0,
        dirty: true,
        ..a
    }
}

/// `b` is `a` with the selected request removed, the selection kept in
/// range, the response cleared and the collection dirty; `a` itself when no
/// request is selected.
pub open spec fn delete_post(a: App, b: App) -> bool {
    if a.selected < request_count(a) {
        let left = request_count(a) - 1;
        &&& b.collection.requests@ == a.collection.requests@.remove(a.selected as int)
        &&& b.collection == Collection { requests: b.collection.requests, ..a.collection }
        &&& b == App {
            collection: b.collection,
            selected: if a.selected < left {
                a.selected
            } else if left == 0 {
                0
            } else {
                (left - 1) as usize
            },
            response: None,
            response_scroll: 0,
            dirty: true,
            ..a
        }
    } else {
        b == a
    }
}

/// The active field can be edited: the request panel has the focus, a
/// request is selected, and the field is not the method.
pub open spec fn can_begin_edit(a: App) -> bool {
    a.active_panel == ActivePanel::RequestEditor && a.selected < request_count(a)
        && a.active_field != RequestField::Method
}

/// `b` is `a` in insert mode with an editor on the active field's text, its
/// cursor at the end of the last line;
/// `a` itself when the field cannot be edited.
pub open spec fn begin_edit_post(a: App, b: App) -> bool {
    if can_begin_edit(a) {
        let o = a.collection.requests@[a.selected as int];
        let lines = editor_seed(field_text(o, a.active_field));
        &&& b.editor matches Some(e) && editor_lines(e) == lines
            && editor_cursor(e) == (lines.len() - 1, lines.last().len() as int)
        &&& b == App { editor: b.editor, input_mode: InputMode::Insert, ..a }
    } else {
        b == a
    }
}

/// `b` is `a` after committing the editor: back in normal mode without an
/// editor; with an editor and a selected request, the editor's lines are
/// committed to the active field (see [`commit_field`]) and the collection
/// becomes dirty if that changed it.
pub open spec fn commit_post(a: App, b: App) -> bool {
    if a.editor is None {
        b == App { input_mode: InputMode::Normal, ..a }
    } else if a.selected >= request_count(a) {
        b == App { input_mode: InputMode::Normal, editor: None, ..a }
    } else {
        let i = a.selected as int;
        let o = a.collection.requests@[i];
        let n = b.collection.requests@[i];
        let lines = editor_lines(a.editor.unwrap());
        &&& request_replaced(a.collection, b.collection, i, n)
        &&& commit_field(o, n, a.active_field, lines)
        &&& b == App {
            collection: b.collection,
            input_mode: InputMode::Normal,
            editor: None,
            dirty: a.dirty || commit_changes(o, a.active_field, lines),
            ..a
        }
    }
}

/// Sets `req`'s body to `content` (see [`body_set`]); whether it changed.
fn apply_body(req: &mut Request, content: String) -> (changed: bool)
    ensures
        body_set(*old(req), *final(req), content@),
        changed == body_changes(*old(req), content@),
{
    if is_blank_str(content.as_str()) {
        let had = req.body.is_some();
        req.body = None;
        return had;
    }
    let same = match &req.body {
        Some(b) => {
            let bc = chars_of(b.content.as_str());
            let cc = chars_of(content.as_str());
            chars_eq(bc.as_slice(), cc.as_slice())
        },
        None => false,
    };
    if same {
        return false;
    }
    let (kind, parts) = match req.body.take() {
        Some(b) => (b.kind, b.parts),
        None => {
            let k = String::from_str("raw");
            proof {
                reveal_strlit("raw");
                assert(k@ =~= raw_kind());
            }
            (k, Vec::new())
        },
    };
    req.body = Some(Body { kind, content, parts });
    true
}

impl App {
    /// A fresh editor state on `collection`: first request selected,
    /// collection panel and URL field focused, normal mode, nothing loaded,
    /// pending or open, clean, dark theme with colors.
    pub fn new(collection: Collection, env: String, send_opts: SendOpts) -> (a: Self)
        ensures
            a == (App {
                collection_path: None,
                collection,
                selected: 0,
                active_panel: ActivePanel::CollectionList,
                active_field: RequestField::Url,
                input_mode: InputMode::Normal,
                response: None,
                response_scroll: 0,
                show_response_headers: false,
                status_message: None,
                is_loading: false,
                in_flight: None,
                dirty: false,
                env,
                send_opts,
                help_open: false,
                confirm: None,
                history: None,
                search: None,
                editor: None,
                should_quit: false,
                light_theme: false,
                no_color: false,
            }),
    {
        App {
            collection_path: None,
            collection,
            selected: 0,
            active_panel: ActivePanel::CollectionList,
            active_field: RequestField::Url,
            input_mode: InputMode::Normal,
            response: None,
            response_scroll: 0,
            show_response_headers: false,
            status_message: None,
            is_loading: false,
            in_flight: None,
            dirty: false,
            env,
            send_opts,
            help_open: false,
            confirm: None,
            history: None,
            search: None,
            editor: None,
            should_quit: false,
            light_theme: false,
            no_color: false,
        }
    }

    /// Selects the next request, wrapping to the first, and scrolls the
    /// response to the top. Does nothing on an empty collection.
    pub fn select_next(&mut self)
        requires
            request_count(*old(self)) == 0 || old(self).selected < usize::MAX,
        ensures
            *final(self) == select_next_spec(*old(self)),
    {
        let n = self.collection.requests.len();
        if n == 0 {
            return;
        }
        self.selected = (self.selected + 1) % n;
        self.response_scroll = 0;
    }

    /// Selects the previous request, wrapping to the last, and scrolls the
    /// response to the top. Does nothing on an empty collection.
    pub fn select_prev(&mut self)
        ensures
            *final(self) == select_prev_spec(*old(self)),
    {
        let n = self.collection.requests.len();
        if n == 0 {
            return;
        }
        self.selected = if self.selected == 0 {
            n - 1
        } else {
            self.selected - 1
        };
        self.response_scroll = 0;
    }

    /// Moves the focus to the next panel.
    pub fn cycle_panel(&mut self)
        ensures
            *final(self) == (App { active_panel: next_panel(old(self).active_panel), ..*old(self) }),
    {
        self.active_panel = match self.active_panel {
            ActivePanel::CollectionList => ActivePanel::RequestEditor,
            ActivePanel::RequestEditor => ActivePanel::ResponseViewer,
            ActivePanel::ResponseViewer => ActivePanel::CollectionList,
        };
    }

    /// Moves the focus to the next request field.
    pub fn select_field_next(&mut self)
        ensures
            *final(self) == (App { active_field: next_field(old(self).active_field), ..*old(self) }),
    {
        self.active_field = match self.active_field {
            RequestField::Method => RequestField::Url,
            RequestField::Url => RequestField::Query,
            RequestField::Query => RequestField::Headers,
            RequestField::Headers => RequestField::Body,
            RequestField::Body => RequestField::Method,
        };
    }

    /// Moves the focus to the previous request field.
    pub fn select_field_prev(&mut self)
        ensures
            *final(self) == (App { active_field: prev_field(old(self).active_field), ..*old(self) }),
    {
        self.active_field = match self.active_field {
            RequestField::Method => RequestField::Body,
            RequestField::Url => RequestField::Method,
            RequestField::Query => RequestField::Url,
            RequestField::Headers => RequestField::Query,
            RequestField::Body => RequestField::Headers,
        };
    }

    /// Scrolls the response up one line, stopping at the top.
    pub fn scroll_response_up(&mut self)
        ensures
            *final(self) == scroll_up_spec(*old(self)),
    {
        self.response_scroll = self.response_scroll.saturating_sub(1);
    }

    /// Scrolls the response down one line, stopping at the largest offset.
    pub fn scroll_response_down(&mut self)
        ensures
            *final(self) == scroll_down_spec(*old(self)),
    {
        self.response_scroll = self.response_scroll.saturating_add(1);
    }

    /// Advances the selected request's method (GET, POST, PUT, PATCH, DELETE,
    /// and round) and marks the collection dirty. False, with nothing
    /// changed, when no request is selected.
    pub fn cycle_method(&mut self) -> (r: bool)
        ensures
            r == (old(self).selected < request_count(*old(self))),
            cycle_method_post(*old(self), *final(self)),
    {
        let i = self.selected;
        if i >= self.collection.requests.len() {
            return false;
        }
        let ghost before = self.collection.requests@;
        let mut req = self.collection.requests.remove(i);
        req.method = next_method(req.method.as_str());
        self.collection.requests.insert(i, req);
        proof {
            assert(self.collection.requests@ =~= before.update(i as int, req));
        }
        self.dirty = true;
        true
    }

    /// Inserts a new blank request just after the current selection (or at
    /// the front of an empty collection) and selects it; clears the response
    /// and marks the collection dirty.
    pub fn add_request(&mut self)
        requires
            selection_ok(*old(self)),
        ensures
            add_request_post(*old(self), *final(self)),
    {
        let name = String::from_str("new-request");
        let method = String::from_str("GET");
        proof {
            reveal_strlit("GET");
            assert(method@ =~= m_get());
        }
        let new = Request {
            name,
            method,
            url: String::new(),
            headers: StringMap::new(),
            query: StringMap::new(),
            body: None,
        };
        let idx = if self.collection.requests.len() == 0 {
            0
        } else {
            self.selected + 1
        };
        self.collection.requests.insert(idx, new);
        self.selected = idx;
        self.response = None;
        self.response_scroll = 0;
        self.dirty = true;
    }

    /// Removes the selected request, keeping the selection in range; clears
    /// the response and marks the collection dirty. False, with nothing
    /// changed, when no request is selected.
    pub fn delete_selected(&mut self) -> (r: bool)
        ensures
            r == (old(self).selected < request_count(*old(self))),
            delete_post(*old(self), *final(self)),
    {
        if self.selected >= self.collection.requests.len() {
            return false;
        }
        self.collection.requests.remove(self.selected);
        if self.selected >= self.collection.requests.len() {
            self.selected = self.collection.requests.len().saturating_sub(1);
        }
        self.response = None;
        self.response_scroll = 0;
        self.dirty = true;
        true
    }

    /// Opens the field editor on the active field, seeded with its text and
    /// the cursor at the end, and enters insert mode. False, with nothing
    /// changed, outside the request panel, without a selected request, or on
    /// the method field.
    pub fn begin_edit(&mut self) -> (r: bool)
        ensures
            r == can_begin_edit(*old(self)),
            begin_edit_post(*old(self), *final(self)),
    {
        if self.active_panel != ActivePanel::RequestEditor {
            return false;
        }
        let field = self.active_field;
        if self.selected >= self.collection.requests.len() {
            return false;
        }
        let req = &self.collection.requests[self.selected];
        let text = match field {
            RequestField::Url => req.url.clone(),
            RequestField::Query => map_to_text(&req.query, '='),
            RequestField::Headers => map_to_text(&req.headers, ':'),
            RequestField::Body => match &req.body {
                Some(b) => b.content.clone(),
                None => String::new(),
            },
            RequestField::Method => return false,
        };
        let lines: Vec<String> = if text.as_str().unicode_len() == 0 {
            vec![String::new()]
        } else {
            split_lines(text.as_str())
        };
        proof {
            if text@.len() == 0 {
                assert(string_views(lines@) =~= seq![Seq::<char>::empty()]);
            } else {
                assert(lines_of(text@).len() > 0);
            }
            assert(initial_lines(lines@) =~= editor_seed(text@));
        }
        let mut ta = Editor::new(lines);
        ta.move_cursor(CursorTarget::Bottom);
        ta.move_cursor(CursorTarget::End);
        self.editor = Some(ta);
        self.input_mode = InputMode::Insert;
        true
    }

    /// Discards the editor without applying changes and returns to normal mode.
    pub fn cancel_edit(&mut self)
        ensures
            *final(self) == (App { editor: None, input_mode: InputMode::Normal, ..*old(self) }),
    {
        self.editor = None;
        self.input_mode = InputMode::Normal;
    }

    /// Applies the editor's text to the active field of the selected request
    /// (see [`commit_field`]), marks the collection dirty if that changed
    /// it, closes the editor and returns to normal mode.
    pub fn commit_edit(&mut self)
        ensures
            commit_post(*old(self), *final(self)),
    {
        self.input_mode = InputMode::Normal;
        let ta = match self.editor.take() {
            Some(t) => t,
            None => return,
        };
        let ghost e = ta;
        let field = self.active_field;
        let lines = ta.into_lines();
        let i = self.selected;
        if i >= self.collection.requests.len() {
            return;
        }
        let ghost before = self.collection.requests@;
        let mut req = self.collection.requests.remove(i);
        let ghost o = req;
        let empty = String::new();
        let nl = String::from_str("\n");
        proof {
            reveal_strlit("\n");
            assert(nl@ =~= seq!['\n']);
        }
        let changed = match field {
            RequestField::Url => {
                let url = join_strings(lines.as_slice(), empty.as_str());
                let uc = chars_of(url.as_str());
                let oc = chars_of(req.url.as_str());
                if !chars_eq(uc.as_slice(), oc.as_slice()) {
                    req.url = url;
                    true
                } else {
                    false
                }
            },
            RequestField::Body => {
                let content = join_strings(lines.as_slice(), nl.as_str());
                apply_body(&mut req, content)
            },
            RequestField::Query => {
                let map = parse_map(lines.as_slice(), '=');
                if !map.same_as(&req.query) {
                    req.query = map;
                    true
                } else {
                    false
                }
            },
            RequestField::Headers => {
                let map = parse_map(lines.as_slice(), ':');
                if !map.same_as(&req.headers) {
                    req.headers = map;
                    true
                } else {
                    false
                }
            },
            RequestField::Method => false,
        };
        self.collection.requests.insert(i, req);
        proof {
            assert(self.collection.requests@ =~= before.update(i as int, req));
            assert(string_views(lines@) == editor_lines(e));
        }
        if changed {
            self.dirty = true;
        }
    }

    /// Sets the selected request's body to externally edited `content` (see
    /// [`body_set`]); whether that changed the request. The dirty flag is
    /// left to the caller. False, with nothing changed, when no request is
    /// selected.
    pub fn set_body_content(&mut self, content: String) -> (r: bool)
        ensures
            old(self).selected >= request_count(*old(self)) ==> !r && *final(self) == *old(self),
            old(self).selected < request_count(*old(self)) ==> {
                let i = old(self).selected as int;
                let o = old(self).collection.requests@[i];
                let n = final(self).collection.requests@[i];
                &&& request_replaced(old(self).collection, final(self).collection, i, n)
                &&& body_set(o, n, content@)
                &&& r == body_changes(o, content@)
                &&& *final(self) == App { collection: final(self).collection, ..*old(self) }
            },
    {
        let i = self.selected;
        if i >= self.collection.requests.len() {
            return false;
        }
        let ghost before = self.collection.requests@;
        let mut req = self.collection.requests.remove(i);
        let changed = apply_body(&mut req, content);
        self.collection.requests.insert(i, req);
        proof {
            assert(self.collection.requests@ =~= before.update(i as int, req));
        }
        changed
    }

    /// The selected request's body text, for handing off to an external
    /// editor; empty without a selected request or body.
    pub fn current_body(&self) -> (r: String)
        ensures
            r@ == (if self.selected < request_count(*self) {
                field_text(self.collection.requests@[self.selected as int], RequestField::Body)
            } else {
                Seq::empty()
            }),
    {
        if self.selected >= self.collection.requests.len() {
            return String::new();
        }
        match &self.collection.requests[self.selected].body {
            Some(b) => b.content.clone(),
            None => String::new(),
        }
    }
}

} // verus!
