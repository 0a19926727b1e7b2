//! Properties that hold across operations of the library.

use vstd::prelude::*;
use crate::app::{ActivePanel, App, Confirm, InputMode, RequestField, add_request_post, apply_line,
    begin_edit_post, body_changes, can_begin_edit, commit_post, delete_post, editor_seed,
    entry_line, entry_lines, field_text, m_delete, m_get, m_patch, m_post, m_put, map_text,
    next_field, next_method_spec, next_panel, parse_lines, prev_field, request_count,
    selection_ok};
use crate::builder::{default_env_name, env_overlay, strip_trailing};
use crate::editor::editor_lines;
use crate::export::{mask_unsafe, safe_char, sanitized, strip_leading};
use crate::input::{Action, key_step};
use crate::interpolate::{interp, open_delim};
use crate::keys::{KeyCode, KeyInput};
use crate::model::Request;
use crate::search::search_moved;
use crate::strmap::{StringMap, lemma_map_of_value, map_of};
use crate::text::{ascii_upper_seq, is_blank, is_ws, join_with, lacks, lemma_find_char,
    lemma_find_from, lemma_join_of_lines, lemma_lines_of_join, lines_of, occurs_at,
    plain_line_breaks, trim, trim_end, trim_start};

use crate::app::split_at_sep;
use crate::builder::{http_scheme, https_scheme, resolve_url_spec};
use crate::history::HistoryEntry;
use crate::screen::{history_row_v, history_rows_v};
use crate::text::has_prefix;

verus! {

/// Tab visits the three panels and comes back: three steps are no step.
pub proof fn law_panel_cycle_returns(p: ActivePanel)
    ensures
        next_panel(next_panel(next_panel(p))) == p,
{
}

/// Moving to the previous field undoes moving to the next one, and the
/// other way round.
pub proof fn law_field_steps_undo(f: RequestField)
    ensures
        prev_field(next_field(f)) == f,
        next_field(prev_field(f)) == f,
{
}

/// Cycling the method five times from GET, POST, PUT, PATCH or DELETE (in any
/// case) gives back that method in upper case.
pub proof fn law_method_cycle_returns(m: Seq<char>)
    requires
        ascii_upper_seq(m) == m_get() || ascii_upper_seq(m) == m_post() || ascii_upper_seq(m)
            == m_put() || ascii_upper_seq(m) == m_patch() || ascii_upper_seq(m) == m_delete(),
    ensures
        next_method_spec(
            next_method_spec(next_method_spec(next_method_spec(next_method_spec(m)))),
        ) == ascii_upper_seq(m),
{
    assert(ascii_upper_seq(m_get()) =~= m_get());
    assert(ascii_upper_seq(m_post()) =~= m_post());
    assert(ascii_upper_seq(m_put()) =~= m_put());
    assert(ascii_upper_seq(m_patch()) =~= m_patch());
    assert(ascii_upper_seq(m_delete()) =~= m_delete());
    assert(m_get() != m_post() && m_get() != m_put() && m_get() != m_patch() && m_get()
        != m_delete()) by {
        assert(m_get().len() != m_post().len());
        assert(m_get()[1] != m_put()[1]);
        assert(m_get().len() != m_patch().len());
        assert(m_get().len() != m_delete().len());
    }
    assert(m_post() != m_put() && m_post() != m_patch() && m_post() != m_delete()) by {
        assert(m_post().len() != m_put().len());
        assert(m_post().len() != m_patch().len());
        assert(m_post().len() != m_delete().len());
    }
    assert(m_put() != m_patch() && m_put() != m_delete()) by {
        assert(m_put().len() != m_patch().len());
        assert(m_put().len() != m_delete().len());
    }
    assert(m_patch() != m_delete()) by {
        assert(m_patch().len() != m_delete().len());
    }
}

/// The named environment overrides `default`: a variable it defines has its
/// value; any other variable of `default` keeps the default's value; and
/// nothing else is defined.
pub proof fn law_env_overrides_default(
    envs: Map<Seq<char>, Map<Seq<char>, Seq<char>>>,
    name: Seq<char>,
    k: Seq<char>,
)
    ensures
        name != default_env_name() && envs.contains_key(name) && envs[name].contains_key(k)
            ==> env_overlay(envs, name).contains_key(k) && env_overlay(envs, name)[k]
            == envs[name][k],
        envs.contains_key(default_env_name()) && envs[default_env_name()].contains_key(k) && !(
        envs.contains_key(name) && envs[name].contains_key(k)) ==> env_overlay(envs, name)[k]
            == envs[default_env_name()][k],
        env_overlay(envs, name).contains_key(k) ==> (envs.contains_key(default_env_name())
            && envs[default_env_name()].contains_key(k)) || (envs.contains_key(name)
            && envs[name].contains_key(k)),
{
}

/// Text without `{{` is left as it is by interpolation.
pub proof fn law_plain_text_unchanged(
    s: Seq<char>,
    vars: Map<Seq<char>, Seq<char>>,
    os_env: Map<Seq<char>, Seq<char>>,
)
    requires
        forall|i: int| !occurs_at(s, open_delim(), i),
    ensures
        interp(s, vars, os_env) == Ok::<Seq<char>, Seq<char>>(s),
{
    lemma_find_from(s, open_delim(), 0);
    assert(s.subrange(0, s.len() as int) =~= s);
}

/// Deleting the request just added gives back the collection's requests.
pub proof fn law_delete_undoes_add(a: App, b: App, c: App)
    requires
        selection_ok(a),
        request_count(a) < usize::MAX,
        add_request_post(a, b),
        delete_post(b, c),
    ensures
        c.collection.requests@ == a.collection.requests@,
{
    let idx = if request_count(a) == 0 {
        0
    } else {
        a.selected + 1
    };
    let n = b.collection.requests@[idx];
    assert(b.selected as int == idx);
    assert(request_count(b) == request_count(a) + 1);
    assert(b.selected < request_count(b));
    assert(c.collection.requests@ == b.collection.requests@.remove(idx));
    assert(a.collection.requests@.insert(idx, n).remove(idx) =~= a.collection.requests@);
}

/// Unsaved changes are never dropped silently: a key press makes the
/// application quit only when nothing is unsaved or the user confirmed
/// quitting.
pub proof fn law_quit_keeps_unsaved_changes(a: App, key: KeyInput, b: App, act: Option<Action>)
    requires
        key_step(a, key, b, act),
        !a.should_quit,
        b.should_quit,
    ensures
        !a.dirty || a.confirm == Some(Confirm::QuitDirty),
{
}

/// Every character of `strip_leading(s, c)` comes from `s`, and so does
/// every character of `strip_trailing(s, c)`; neither begins, nor ends,
/// with `c` where it says so.
proof fn lemma_strips(s: Seq<char>, c: char)
    ensures
        forall|x: char| strip_leading(s, c).contains(x) ==> s.contains(x),
        forall|x: char| strip_trailing(s, c).contains(x) ==> s.contains(x),
        strip_leading(s, c).len() > 0 ==> strip_leading(s, c)[0] != c,
        strip_trailing(s, c).len() > 0 ==> strip_trailing(s, c).last() != c,
        strip_trailing(s, c).len() > 0 ==> strip_trailing(s, c)[0] == s[0],
    decreases s.len(),
{
    if s.len() > 0 {
        lemma_strips(s.drop_first(), c);
        lemma_strips(s.drop_last(), c);
        assert forall|x: char| s.drop_first().contains(x) implies s.contains(x) by {
            let i = choose|i: int| 0 <= i < s.drop_first().len() && s.drop_first()[i] == x;
            assert(s[i + 1] == x);
        }
        assert forall|x: char| s.drop_last().contains(x) implies s.contains(x) by {
            let i = choose|i: int| 0 <= i < s.drop_last().len() && s.drop_last()[i] == x;
            assert(s[i] == x);
        }
    }
}

/// An exported file name is never empty and holds only ASCII letters,
/// digits, `-` and `_`, with no `_` at either end.
pub proof fn law_sanitized_file_name(name: Seq<char>)
    ensures
        sanitized(name).len() > 0,
        forall|i: int| 0 <= i < sanitized(name).len() ==> safe_char(#[trigger] sanitized(name)[i]),
        sanitized(name)[0] != '_',
        sanitized(name).last() != '_',
{
    let m = mask_unsafe(name);
    let t1 = strip_trailing(m, '_');
    let t = strip_leading(t1, '_');
    lemma_strips(m, '_');
    lemma_strips(t1, '_');
    reveal_strlit("response");
    if t.len() == 0 {
        assert(sanitized(name) == "response"@);
    } else {
        assert forall|i: int| 0 <= i < t.len() implies safe_char(#[trigger] t[i]) by {
            assert(t.contains(t[i]));
            assert(t1.contains(t[i]));
            assert(m.contains(t[i]));
            let j = choose|j: int| 0 <= j < m.len() && m[j] == t[i];
            assert(m[j] == if safe_char(name[j]) {
                name[j]
            } else {
                '_'
            });
        }
        lemma_last_of_strip_leading(t1, '_');
    }
}

/// Sanitizing is idempotent: a sanitized name sanitizes to itself.
pub proof fn law_sanitize_idempotent(name: Seq<char>)
    ensures
        sanitized(sanitized(name)) == sanitized(name),
{
    let s = sanitized(name);
    law_sanitized_file_name(name);
    assert(mask_unsafe(s) =~= s);
    assert(strip_trailing(s, '_') == s);
    assert(strip_leading(s, '_') == s);
}

/// Stripping leading characters keeps the last character.
proof fn lemma_last_of_strip_leading(s: Seq<char>, c: char)
    ensures
        strip_leading(s, c).len() > 0 ==> strip_leading(s, c).last() == s.last(),
    decreases s.len(),
{
    if s.len() > 0 && s[0] == c {
        lemma_last_of_strip_leading(s.drop_first(), c);
    }
}


/// Trimming never lengthens a text.
proof fn lemma_trim_lens(s: Seq<char>)
    ensures
        trim_start(s).len() <= s.len(),
        trim_end(s).len() <= s.len(),
    decreases s.len(),
{
    if s.len() > 0 {
        lemma_trim_lens(s.drop_first());
        lemma_trim_lens(s.drop_last());
    }
}

/// A non-empty text that is its own trim begins and ends with a character
/// that is not white space.
proof fn lemma_trimmed_ends(s: Seq<char>)
    requires
        trim(s) == s,
        s.len() > 0,
    ensures
        !is_ws(s[0]),
        !is_ws(s.last()),
{
    lemma_trim_lens(s);
    lemma_trim_lens(trim_start(s));
    if is_ws(s[0]) {
        lemma_trim_lens(s.drop_first());
        assert(trim_start(s) == trim_start(s.drop_first()));
    }
    assert(trim_start(s) == s);
    if is_ws(s.last()) {
        lemma_trim_lens(s.drop_last());
        assert(trim_end(s) == trim_end(s.drop_last()));
    }
}

/// A non-empty text that begins and ends with a character that is not white
/// space is its own trim.
proof fn lemma_trim_fixed(s: Seq<char>)
    requires
        s.len() > 0,
        !is_ws(s[0]),
        !is_ws(s.last()),
    ensures
        trim(s) == s,
{
    assert(trim_start(s) == s);
    assert(trim_end(s) == s);
}

/// A key that its line reads back: non-empty, without surrounding white
/// space, without the separator and without line breaks.
pub open spec fn key_reads_back(k: Seq<char>, sep: char) -> bool {
    &&& k.len() > 0
    &&& trim(k) == k
    &&& lacks(k, sep)
    &&& lacks(k, '\n')
}

/// A value that its line reads back: without surrounding white space and
/// without line breaks.
pub open spec fn value_reads_back(v: Seq<char>) -> bool {
    trim(v) == v && lacks(v, '\n')
}

/// Reading one entry line sets its key to its value.
proof fn lemma_apply_entry_line(m: Map<Seq<char>, Seq<char>>, k: Seq<char>, v: Seq<char>, sep: char)
    requires
        !is_ws(sep),
        key_reads_back(k, sep),
        value_reads_back(v),
    ensures
        apply_line(m, entry_line(k, v, sep), sep) == m.insert(k, v),
{
    lemma_trimmed_ends(k);
    if v.len() > 0 {
        lemma_trimmed_ends(v);
    }
    let line = entry_line(k, v, sep);
    let short = sep == ':' && v.len() == 0;
    let t: Seq<char> = if short {
        k + seq![':']
    } else {
        line
    };
    if short {
        assert(line =~= k + seq![':', ' ']);
        assert(line[0] == k[0]);
        assert(trim_start(line) == line);
        assert(line.drop_last() =~= k + seq![':']);
        assert(trim_end(line) == trim_end(line.drop_last()));
        let kc = k + seq![':'];
        assert(kc.last() == ':');
        assert(trim_end(kc) == kc);
    } else {
        assert(line[0] == k[0]);
        if v.len() > 0 {
            assert(line.last() == v.last());
        } else {
            assert(line.last() == sep);
        }
        lemma_trim_fixed(line);
    }
    assert(trim(line) == t);
    let e = k.len() as int;
    assert forall|j: int| 0 <= j < e implies t[j] != sep by {
        assert(t[j] == k[j]);
    }
    assert(t[e] == sep);
    lemma_find_char(t, sep, 0, e);
    assert(t.subrange(0, e) =~= k);
    let after = t.subrange(e + 1, t.len() as int);
    if sep == ':' {
        if v.len() == 0 {
            assert(after =~= Seq::<char>::empty());
            assert(v =~= Seq::<char>::empty());
        } else {
            assert(after =~= seq![' '] + v);
            let sp = seq![' '] + v;
            assert(sp.drop_first() =~= v);
            assert(trim_start(sp) == trim_start(v));
        }
    } else {
        assert(after =~= v);
    }
    assert(trim(after) == v);
}

/// The entry lines of a list of pairs read back to the map the list
/// describes.
proof fn lemma_parse_entry_lines(ps: Seq<(Seq<char>, Seq<char>)>, sep: char)
    requires
        !is_ws(sep),
        forall|i: int| 0 <= i < ps.len() ==> key_reads_back(#[trigger] ps[i].0, sep)
            && value_reads_back(ps[i].1),
    ensures
        parse_lines(entry_lines(ps, sep), sep) == map_of(ps),
    decreases ps.len(),
{
    if ps.len() == 0 {
        assert(entry_lines(ps, sep) =~= Seq::<Seq<char>>::empty());
    } else {
        let q = ps.drop_last();
        assert forall|i: int| 0 <= i < q.len() implies key_reads_back(#[trigger] q[i].0, sep)
            && value_reads_back(q[i].1) by {
            assert(q[i] == ps[i]);
        }
        lemma_parse_entry_lines(q, sep);
        assert(entry_lines(ps, sep).drop_last() =~= entry_lines(q, sep));
        let last = ps[ps.len() - 1];
        assert(key_reads_back(last.0, sep) && value_reads_back(last.1));
        assert(entry_lines(ps, sep).last() == entry_line(last.0, last.1, sep));
        lemma_apply_entry_line(map_of(q), last.0, last.1, sep);
    }
}

/// The lines of a map's text are its entry lines.
proof fn lemma_lines_of_map_text(ps: Seq<(Seq<char>, Seq<char>)>, sep: char)
    requires
        !is_ws(sep),
        ps.len() > 0,
        forall|i: int| 0 <= i < ps.len() ==> key_reads_back(#[trigger] ps[i].0, sep)
            && value_reads_back(ps[i].1),
    ensures
        lines_of(map_text(ps, sep)) == entry_lines(ps, sep),
{
    let ls = entry_lines(ps, sep);
    assert forall|i: int| 0 <= i < ls.len() implies lacks(#[trigger] ls[i], '\n') && (ls[i].len()
        > 0 ==> ls[i].last() != '\r') by {
        let (k, v) = ps[i];
        assert(key_reads_back(k, sep) && value_reads_back(v));
        let mid: Seq<char> = if sep == ':' {
            seq![':', ' ']
        } else {
            seq![sep]
        };
        assert(ls[i] =~= k + mid + v);
        assert forall|j: int| 0 <= j < ls[i].len() implies ls[i][j] != '\n' by {
            if j < k.len() {
                assert(ls[i][j] == k[j]);
            } else if j < k.len() + mid.len() {
                assert(ls[i][j] == mid[j - k.len()]);
            } else {
                assert(ls[i][j] == v[j - k.len() - mid.len()]);
            }
        }
        if v.len() > 0 {
            lemma_trimmed_ends(v);
            assert(ls[i].last() == v.last());
        } else {
            assert(ls[i].last() == mid.last());
        }
    }
    let last = ps[ps.len() - 1];
    assert(key_reads_back(last.0, sep));
    assert(ls.last().len() >= last.0.len());
    lemma_lines_of_join(ls);
}

/// Reading a map's text back gives the map: when every key is non-empty and
/// free of surrounding white space, of the separator and of line breaks, and
/// every value free of surrounding white space and of line breaks, the lines
/// of the text parse to the same map, both as `str::lines` splits the text
/// and as the field editor starts with it.
pub proof fn law_map_text_reads_back(m: StringMap<String>, sep: char)
    requires
        m.sorted(),
        !is_ws(sep),
        forall|k: Seq<char>| #[trigger] m@.contains_key(k) ==> key_reads_back(k, sep)
            && value_reads_back(m@[k]),
    ensures
        parse_lines(lines_of(map_text(m.pairs(), sep)), sep) == m@,
        parse_lines(editor_seed(map_text(m.pairs(), sep)), sep) == m@,
{
    m.lemma_pairs();
    let ps = m.pairs();
    assert(m@ == map_of(ps));
    assert forall|i: int| 0 <= i < ps.len() implies key_reads_back(#[trigger] ps[i].0, sep)
        && value_reads_back(ps[i].1) by {
        lemma_map_of_value(ps, i);
        assert(m@.contains_key(ps[i].0));
    }
    lemma_parse_entry_lines(ps, sep);
    let t = map_text(ps, sep);
    if ps.len() == 0 {
        assert(entry_lines(ps, sep) =~= Seq::<Seq<char>>::empty());
        assert(t =~= Seq::<char>::empty());
        assert(t.len() == 0);
        assert(lines_of(t) == crate::text::lines_from(t, 0));
        assert(lines_of(t) =~= Seq::<Seq<char>>::empty());
        assert(seq![Seq::<char>::empty()].drop_last() =~= Seq::<Seq<char>>::empty());
        assert(parse_lines(seq![Seq::<char>::empty()], sep) == apply_line(
            parse_lines(Seq::<Seq<char>>::empty(), sep),
            Seq::<char>::empty(),
            sep,
        ));
        assert(map_of(ps) =~= Map::<Seq<char>, Seq<char>>::empty());
    } else {
        lemma_lines_of_map_text(ps, sep);
        let last = ps[ps.len() - 1];
        assert(key_reads_back(last.0, sep));
        assert(entry_lines(ps, sep).len() == ps.len());
        lemma_join_len_pos(entry_lines(ps, sep));
    }
}

/// A join whose last piece is non-empty is non-empty.
proof fn lemma_join_len_pos(ls: Seq<Seq<char>>)
    requires
        ls.len() > 0,
        ls.last().len() > 0,
    ensures
        join_with(ls, seq!['\n']).len() > 0,
{
    if ls.len() > 1 {
        assert(join_with(ls, seq!['\n']) == join_with(ls.drop_last(), seq!['\n']) + seq!['\n']
            + ls.last());
    }
}


/// What the field editor starts with reads back to the field unchanged: a URL
/// without line breaks; no body, or a body that is not blank, has no carriage
/// return before a line break and does not end with one; query and headers
/// whose keys and values read back from their lines.
pub open spec fn field_reads_back(r: Request, f: RequestField) -> bool {
    match f {
        RequestField::Url => lacks(r.url@, '\n'),
        RequestField::Body => match r.body {
            Some(b) => !is_blank(b.content@) && plain_line_breaks(b.content@),
            None => true,
        },
        RequestField::Query => r.query.sorted() && forall|k: Seq<char>| #[trigger]
            r.query@.contains_key(k) ==> key_reads_back(k, '=') && value_reads_back(r.query@[k]),
        RequestField::Headers => r.headers.sorted() && forall|k: Seq<char>| #[trigger]
            r.headers@.contains_key(k) ==> key_reads_back(k, ':') && value_reads_back(
                r.headers@[k],
            ),
        RequestField::Method => true,
    }
}

/// Opening the editor on a field and committing it without typing changes
/// nothing: the application is back in normal mode without an editor, the
/// requests are as they were, and nothing is marked unsaved.
pub proof fn law_untouched_edit_changes_nothing(a: App, b: App, c: App)
    requires
        can_begin_edit(a),
        field_reads_back(a.collection.requests@[a.selected as int], a.active_field),
        begin_edit_post(a, b),
        commit_post(b, c),
    ensures
        c.collection.requests@ == a.collection.requests@,
        c.collection == (crate::model::Collection { requests: c.collection.requests, ..a.collection }),
        c == (App { collection: c.collection, input_mode: InputMode::Normal, editor: None, ..a }),
{
    let i = a.selected as int;
    let o = a.collection.requests@[i];
    let f = a.active_field;
    let text = field_text(o, f);
    let lines = editor_lines(b.editor.unwrap());
    assert(lines == editor_seed(text));
    let n = c.collection.requests@[i];
    match f {
        RequestField::Url => {
            if text.len() == 0 {
                assert(join_with(lines, Seq::empty()) == lines[0]);
                assert(text =~= Seq::<char>::empty());
            } else {
                lemma_find_char(text, '\n', 0, text.len() as int);
                assert(text.subrange(0, text.len() as int) =~= text);
                assert(lines =~= seq![text]);
                assert(join_with(lines, Seq::empty()) == lines[0]);
            }
        },
        RequestField::Body => {
            match o.body {
                Some(bd) => {
                    lemma_trim_lens(bd.content@);
                    lemma_trim_lens(trim_start(bd.content@));
                    lemma_join_of_lines(bd.content@);
                    assert(!body_changes(o, join_with(lines, seq!['\n'])));
                },
                None => {
                    assert(join_with(lines, seq!['\n']) == lines[0]);
                    assert(is_blank(lines[0]));
                },
            }
        },
        RequestField::Query => {
            law_map_text_reads_back(o.query, '=');
        },
        RequestField::Headers => {
            law_map_text_reads_back(o.headers, ':');
        },
        RequestField::Method => {},
    }
    assert(n == o);
    assert(c.collection.requests@ =~= a.collection.requests@);
}


/// Moving to the next search match and then back to the previous one
/// returns to the match that was current; nothing else changes but the
/// scroll position.
pub proof fn law_search_moves_undo(a: App, b: App, c: App)
    requires
        a.search is Some,
        !a.search.unwrap().typing,
        a.search.unwrap().current < a.search.unwrap().matches@.len(),
        search_moved(a, b, true),
        search_moved(b, c, false),
    ensures
        c.search == a.search,
        c == (App { response_scroll: c.response_scroll, ..a }),
{
    let s = a.search.unwrap();
    let n = s.matches@.len() as int;
    let cur = s.current as int;
    let next = (cur + 1) % n;
    if cur + 1 < n {
        assert(next == cur + 1) by (nonlinear_arith)
            requires
                0 <= cur,
                cur + 1 < n,
                next == (cur + 1) % n,
        ;
    } else {
        assert(next == 0) by (nonlinear_arith)
            requires
                cur + 1 == n,
                n > 0,
                next == (cur + 1) % n,
        ;
    }
    let t = b.search.unwrap();
    assert(t.current == next);
    let u = c.search.unwrap();
    assert(u.current == s.current);
    assert(u == s);
}


/// A key press never changes the environment, how requests are sent, the
/// collection's file, the display settings, or the collection's name, base
/// URL and environments.
pub proof fn law_keys_keep_settings(a: App, key: KeyInput, b: App, act: Option<Action>)
    requires
        key_step(a, key, b, act),
    ensures
        b.env == a.env,
        b.send_opts == a.send_opts,
        b.collection_path == a.collection_path,
        b.light_theme == a.light_theme,
        b.no_color == a.no_color,
        b.collection.name == a.collection.name,
        b.collection.base_url == a.collection.base_url,
        b.collection.env == a.collection.env,
{
}


/// A request is removed only by confirming its deletion: a key press that
/// leaves fewer requests was answering the delete confirmation.
pub proof fn law_delete_needs_confirmation(a: App, key: KeyInput, b: App, act: Option<Action>)
    requires
        selection_ok(a),
        key_step(a, key, b, act),
        b.collection.requests@.len() < a.collection.requests@.len(),
    ensures
        a.confirm == Some(Confirm::DeleteRequest),
{
    let k = key.code;
    let typing = a.search is Some && a.search.unwrap().typing;
    if a.confirm is Some {
        if a.confirm != Some(Confirm::DeleteRequest) {
            assert(b.collection == a.collection);
        }
    } else if a.help_open || a.history is Some {
        assert(b.collection == a.collection);
    } else if typing {
        assert(b.collection == a.collection);
    } else {
        let i = a.selected as int;
        if a.input_mode == InputMode::Normal {
            if k == KeyCode::Char('m') && a.selected < request_count(a) {
                assert(b.collection.requests@ == a.collection.requests@.update(
                    i,
                    b.collection.requests@[i],
                ));
            }
            assert(b.collection.requests@.len() >= a.collection.requests@.len());
        } else if (k == KeyCode::Esc || (k == KeyCode::Enter && a.active_field
            == RequestField::Url)) && a.editor is Some && a.selected < request_count(a) {
            assert(b.collection.requests@ == a.collection.requests@.update(
                i,
                b.collection.requests@[i],
            ));
        }
    }
}

/// A relative URL (neither `http://` nor `https://`) is joined onto the base
/// URL: the result begins with the base URL without its trailing slashes,
/// ends with the URL as written, and holds exactly one more character, a
/// `/`, between them when the URL does not begin with one.
pub proof fn law_relative_url_joins_base(url: Seq<char>, base: Seq<char>)
    requires
        !has_prefix(url, http_scheme()),
        !has_prefix(url, https_scheme()),
    ensures
        ({
            let b = strip_trailing(base, '/');
            let r = resolve_url_spec(url, Some(base));
            &&& r.len() == b.len() + url.len() + (if has_prefix(url, seq!['/']) { 0int } else { 1int })
            &&& r.subrange(0, b.len() as int) == b
            &&& r.subrange(r.len() - url.len(), r.len() as int) == url
            &&& !has_prefix(url, seq!['/']) ==> r[b.len() as int] == '/'
        }),
{
    let b = strip_trailing(base, '/');
    let r = resolve_url_spec(url, Some(base));
    if has_prefix(url, seq!['/']) {
        assert(r =~= b + url);
        assert(r.subrange(0, b.len() as int) =~= b);
        assert(r.subrange(r.len() - url.len(), r.len() as int) =~= url);
    } else {
        assert(r =~= b + seq!['/'] + url);
        assert(r.subrange(0, b.len() as int) =~= b);
        assert(r.subrange(r.len() - url.len(), r.len() as int) =~= url);
    }
}

/// The state in which a key goes to the normal-mode bindings with the
/// request list focused: nothing pending, no dialog open, no query being
/// typed.
pub open spec fn list_keys_apply(a: App) -> bool {
    &&& a.confirm is None
    &&& !a.help_open
    &&& a.history is None
    &&& (a.search is None || !a.search.unwrap().typing)
    &&& a.input_mode == InputMode::Normal
    &&& a.active_panel == ActivePanel::CollectionList
}

/// Up (or `k`) in the request list selects the request before the selected
/// one, and from the first request the last one.
pub proof fn law_up_selects_previous_request(a: App, key: KeyInput, b: App, act: Option<Action>)
    requires
        list_keys_apply(a),
        key.code == KeyCode::Up || key.code == KeyCode::Char('k'),
        a.selected < request_count(a) <= usize::MAX,
        key_step(a, key, b, act),
    ensures
        a.selected > 0 ==> b.selected == a.selected - 1,
        a.selected == 0 ==> b.selected == request_count(a) - 1,
        b.collection == a.collection,
        act is None,
{
}

/// Down (or `j`) in the request list selects the request after the selected
/// one, and from the last request the first one.
pub proof fn law_down_selects_next_request(a: App, key: KeyInput, b: App, act: Option<Action>)
    requires
        list_keys_apply(a),
        key.code == KeyCode::Down || key.code == KeyCode::Char('j'),
        a.selected < request_count(a) <= usize::MAX,
        key_step(a, key, b, act),
    ensures
        a.selected + 1 < request_count(a) ==> b.selected == a.selected + 1,
        a.selected + 1 == request_count(a) ==> b.selected == 0,
        b.collection == a.collection,
        act is None,
{
    let n = request_count(a) as int;
    let x = a.selected + 1;
    if x < n {
        vstd::arithmetic::div_mod::lemma_small_mod(x as nat, n as nat);
    } else {
        vstd::arithmetic::div_mod::lemma_mod_self_0(n);
    }
}

/// Up undoes Down in the request list: pressing Down and then Up selects the
/// request that was selected before.
pub proof fn law_up_undoes_down(
    a: App,
    down: KeyInput,
    b: App,
    act1: Option<Action>,
    up: KeyInput,
    c: App,
    act2: Option<Action>,
)
    requires
        list_keys_apply(a),
        a.selected < request_count(a) <= usize::MAX,
        down.code == KeyCode::Down || down.code == KeyCode::Char('j'),
        up.code == KeyCode::Up || up.code == KeyCode::Char('k'),
        key_step(a, down, b, act1),
        key_step(b, up, c, act2),
    ensures
        c.selected == a.selected,
{
    law_down_selects_next_request(a, down, b, act1);
    assert(list_keys_apply(b));
    law_up_selects_previous_request(b, up, c, act2);
}

/// After committing the header editor, the request's headers are exactly
/// the map that the editor's `Key: value` lines describe.
pub proof fn law_header_commit_gives_the_edited_headers(a: App, b: App)
    requires
        commit_post(a, b),
        a.editor is Some,
        a.selected < request_count(a),
        a.active_field == RequestField::Headers,
    ensures
        b.collection.requests@.len() == a.collection.requests@.len(),
        b.collection.requests@[a.selected as int].headers@ == parse_lines(editor_lines(a.editor.unwrap()), ':'),
{
    let o = a.collection.requests@[a.selected as int];
    let n = b.collection.requests@[a.selected as int];
    let lines = editor_lines(a.editor.unwrap());
    if parse_lines(lines, ':') == o.headers@ {
        assert(n == o);
    }
}

/// The headers after a commit do not depend on the headers before it: two
/// commits of the same lines give the same headers.
pub proof fn law_header_commit_forgets_old_headers(a1: App, b1: App, a2: App, b2: App)
    requires
        commit_post(a1, b1),
        commit_post(a2, b2),
        a1.editor is Some,
        a2.editor is Some,
        editor_lines(a1.editor.unwrap()) == editor_lines(a2.editor.unwrap()),
        a1.selected < request_count(a1),
        a2.selected < request_count(a2),
        a1.active_field == RequestField::Headers,
        a2.active_field == RequestField::Headers,
    ensures
        b1.collection.requests@[a1.selected as int].headers@ == b2.collection.requests@[a2.selected as int].headers@,
{
    law_header_commit_gives_the_edited_headers(a1, b1);
    law_header_commit_gives_the_edited_headers(a2, b2);
}

/// A key that no line names is not in the map the lines describe.
proof fn lemma_unnamed_key_absent(lines: Seq<Seq<char>>, sep: char, key: Seq<char>)
    requires
        forall|i: int|
            0 <= i < lines.len() ==> (#[trigger] split_at_sep(trim(lines[i]), sep) matches Some(kv)
                ==> trim(kv.0) != key),
    ensures
        !parse_lines(lines, sep).dom().contains(key),
    decreases lines.len(),
{
    if lines.len() > 0 {
        let init = lines.drop_last();
        assert forall|i: int| 0 <= i < init.len() implies (#[trigger] split_at_sep(trim(init[i]), sep) matches Some(kv)
            ==> trim(kv.0) != key) by {
            assert(init[i] == lines[i]);
        }
        lemma_unnamed_key_absent(init, sep, key);
        let _ = split_at_sep(trim(lines[lines.len() - 1]), sep);
    }
}

/// A header whose name no edited line carries is gone after the commit,
/// whatever headers the request had before.
pub proof fn law_header_commit_drops_unnamed_headers(a: App, b: App, name: Seq<char>)
    requires
        commit_post(a, b),
        a.editor is Some,
        a.selected < request_count(a),
        a.active_field == RequestField::Headers,
        forall|i: int|
            0 <= i < editor_lines(a.editor.unwrap()).len() ==> (#[trigger] split_at_sep(
                trim(editor_lines(a.editor.unwrap())[i]),
                ':',
            ) matches Some(kv) ==> trim(kv.0) != name),
    ensures
        !b.collection.requests@[a.selected as int].headers@.dom().contains(name),
{
    law_header_commit_gives_the_edited_headers(a, b);
    lemma_unnamed_key_absent(editor_lines(a.editor.unwrap()), ':', name);
}

/// `n` goes to the match after the current one, in body order, and from the
/// last match back to the first; `N` goes to the one before it, and from the
/// first match to the last.
pub proof fn law_search_steps_through_matches(a: App, b: App, forward: bool)
    requires
        search_moved(a, b, forward),
        a.search is Some,
        !a.search.unwrap().typing,
        a.search.unwrap().current < a.search.unwrap().matches@.len(),
    ensures
        ({
            let s = a.search.unwrap();
            let n = s.matches@.len() as int;
            let c = s.current as int;
            let t = b.search.unwrap();
            &&& b.search is Some
            &&& t.matches == s.matches
            &&& forward && c + 1 < n ==> t.current == c + 1
            &&& forward && c + 1 == n ==> t.current == 0
            &&& !forward && c > 0 ==> t.current == c - 1
            &&& !forward && c == 0 ==> t.current == n - 1
        }),
{
    let s = a.search.unwrap();
    let n = s.matches@.len() as int;
    let c = s.current as int;
    let next = (c + 1) % n;
    if c + 1 < n {
        assert(next == c + 1) by (nonlinear_arith)
            requires
                0 <= c,
                c + 1 < n,
                next == (c + 1) % n,
        ;
    } else {
        assert(next == 0) by (nonlinear_arith)
            requires
                c + 1 == n,
                n > 0,
                next == (c + 1) % n,
        ;
    }
}

/// The history dialog lists the entries in the order given (newest first,
/// as `recent` gives them): below the title and a blank row, row `2 + i` is
/// the row of entry `i`, followed by a blank row and how to close it.
pub proof fn law_history_rows_keep_entry_order(es: Seq<HistoryEntry>)
    requires
        es.len() > 0,
    ensures
        history_rows_v(es).len() == es.len() + 4,
        forall|i: int| 0 <= i < es.len() ==> #[trigger] history_rows_v(es)[2 + i] == history_row_v(es[i]),
{
    let rows = history_rows_v(es);
    assert forall|i: int| 0 <= i < es.len() implies #[trigger] rows[2 + i] == history_row_v(es[i]) by {
        let mid = es.map_values(|e: HistoryEntry| history_row_v(e));
        assert(mid[i] == history_row_v(es[i]));
    }
}

/// An absolute URL, or any URL without a base URL, is sent as written.
pub proof fn law_absolute_url_kept(url: Seq<char>, base: Option<Seq<char>>)
    requires
        has_prefix(url, http_scheme()) || has_prefix(url, https_scheme()) || base is None,
    ensures
        resolve_url_spec(url, base) == url,
{
}

/// After committing the query editor, the request's query is exactly the
/// map that the editor's `key=value` lines describe, whatever it was before.
pub proof fn law_query_commit_gives_the_edited_query(a: App, b: App)
    requires
        commit_post(a, b),
        a.editor is Some,
        a.selected < request_count(a),
        a.active_field == RequestField::Query,
    ensures
        b.collection.requests@.len() == a.collection.requests@.len(),
        b.collection.requests@[a.selected as int].query@ == parse_lines(editor_lines(a.editor.unwrap()), '='),
{
    let o = a.collection.requests@[a.selected as int];
    let n = b.collection.requests@[a.selected as int];
    if parse_lines(editor_lines(a.editor.unwrap()), '=') == o.query@ {
        assert(n == o);
    }
}

/// After committing the URL editor, the request's URL is the editor's
/// lines run together.
pub proof fn law_url_commit_gives_the_edited_url(a: App, b: App)
    requires
        commit_post(a, b),
        a.editor is Some,
        a.selected < request_count(a),
        a.active_field == RequestField::Url,
    ensures
        b.collection.requests@[a.selected as int].url@ == join_with(editor_lines(a.editor.unwrap()), Seq::empty()),
{
    let o = a.collection.requests@[a.selected as int];
    let n = b.collection.requests@[a.selected as int];
    if join_with(editor_lines(a.editor.unwrap()), Seq::empty()) == o.url@ {
        assert(n == o);
    }
}

} // verus!
