//! Searching the response body: typing a query, the lines that match it
//! (ignoring case), moving between matches, and marking them.

use vstd::prelude::*;
use crate::app::App;
use crate::error::{contains_exec, contains_text, lowercase, to_lowercase};
use crate::keys::KeyCode;
use crate::text::{chars_of, string_of, string_of_range, string_views};
use crate::ui::Tint;
use crate::view::{Piece, PieceView, row_view, rows_view};

verus! {

/// A search of the response body: the query, the indices of the body lines
/// that match it, which match is current, and whether the query is still
/// being typed.
pub struct Search {
    pub query: String,
    pub matches: Vec<usize>,
    pub current: usize,
    pub typing: bool,
}

/// `b` is `a` with a fresh search being typed: empty query, no matches.
pub open spec fn search_started(a: App, b: App) -> bool {
    &&& b.search matches Some(s) && s.query@.len() == 0 && s.matches@.len() == 0 && s.current == 0
        && s.typing
    &&& b == (App { search: b.search, ..a })
}

/// `b` is `a` with the typed query now `q`, the rest of the search as it was.
pub open spec fn query_set(a: App, b: App, q: Seq<char>) -> bool {
    &&& a.search matches Some(s) && b.search matches Some(t) && t.query@ == q && t.matches
        == s.matches && t.current == s.current && t.typing == s.typing
    &&& b == (App { search: b.search, ..a })
}

/// What a key does while the query is typed: Esc drops the search; Enter
/// ends the typing and asks for the search to run; Backspace removes the
/// last character; a character without Ctrl is added; other keys do
/// nothing.
pub open spec fn search_typing_step(a: App, k: KeyCode, ctrl: bool, b: App, run: bool) -> bool {
    let q = a.search.unwrap().query@;
    if k == KeyCode::Esc {
        !run && b == (App { search: None, ..a })
    } else if k == KeyCode::Enter {
        &&& run
        &&& a.search matches Some(s) && b.search matches Some(t) && t.query == s.query
            && t.matches == s.matches && t.current == s.current && !t.typing
        &&& b == (App { search: b.search, ..a })
    } else if k == KeyCode::Backspace {
        !run && query_set(
            a,
            b,
            if q.len() > 0 {
                q.drop_last()
            } else {
                q
            },
        )
    } else {
        match k {
            KeyCode::Char(c) => if !ctrl {
                !run && query_set(a, b, q.push(c))
            } else {
                !run && b == a
            },
            _ => !run && b == a,
        }
    }
}

/// The response scroll offset that shows line `line` at the top, at most
/// the largest offset.
pub open spec fn scroll_to(line: usize) -> u16 {
    if line < u16::MAX {
        line as u16
    } else {
        u16::MAX
    }
}

/// `b` is `a` moved to the next (`forward`) or previous match, round the
/// ends, with that match's line scrolled to the top; `a` itself without a
/// finished search with matches.
pub open spec fn search_moved(a: App, b: App, forward: bool) -> bool {
    let s = a.search.unwrap();
    if a.search is Some && !s.typing && s.matches@.len() > 0 && s.current < s.matches@.len() {
        let n = s.matches@.len();
        let c = if forward {
            (s.current + 1) % (n as int)
        } else if s.current == 0 {
            n - 1
        } else {
            s.current - 1
        };
        &&& b.search matches Some(t) && t.query == s.query && t.matches == s.matches && t.current
            == c && !t.typing
        &&& b == (App { search: b.search, response_scroll: scroll_to(s.matches@[c]), ..a })
    } else {
        b == a
    }
}

/// The indices of the lines that contain `q`, ignoring case (both sides
/// lower-cased), in order.
pub open spec fn matching_lines(lines: Seq<Seq<char>>, q: Seq<char>) -> Seq<int>
    decreases lines.len(),
{
    if lines.len() == 0 {
        Seq::empty()
    } else {
        let rest = matching_lines(lines.drop_last(), q);
        if contains_text(lowercase(lines.last()), lowercase(q)) {
            rest.push(lines.len() - 1)
        } else {
            rest
        }
    }
}

/// Starts typing a new search.
pub fn start_search(app: &mut App)
    ensures
        search_started(*old(app), *final(app)),
{
    app.search = Some(Search { query: String::new(), matches: Vec::new(), current: 0, typing: true });
}

/// A key while the query is typed (see [`search_typing_step`]); whether the
/// search is to run now.
pub fn search_key(app: &mut App, code: KeyCode, ctrl: bool) -> (run: bool)
    requires
        old(app).search is Some,
    ensures
        search_typing_step(*old(app), code, ctrl, *final(app), run),
{
    let s = app.search.take().unwrap();
    match code {
        KeyCode::Esc => false,
        KeyCode::Enter => {
            app.search = Some(Search { typing: false, ..s });
            true
        },
        KeyCode::Backspace => {
            let cs = chars_of(s.query.as_str());
            let q = if cs.len() > 0 {
                string_of_range(cs.as_slice(), 0, cs.len() - 1)
            } else {
                string_of(cs.as_slice())
            };
            proof {
                if cs@.len() > 0 {
                    assert(cs@.subrange(0, cs@.len() - 1) =~= cs@.drop_last());
                }
            }
            app.search = Some(Search { query: q, ..s });
            false
        },
        KeyCode::Char(c) => {
            if ctrl {
                app.search = Some(s);
            } else {
                let mut q = s.query;
                q.push(c);
                app.search = Some(Search { query: q, matches: s.matches, current: s.current, typing: s.typing });
            }
            false
        },
        _ => {
            app.search = Some(s);
            false
        },
    }
}

/// The indices of the lines of `lines` that contain `query`, ignoring case
/// (see [`matching_lines`]).
pub fn find_matches(lines: &Vec<String>, query: &str) -> (r: Vec<usize>)
    ensures
        r@.map_values(|i: usize| i as int) == matching_lines(string_views(lines@), query@),
{
    let lq = to_lowercase(query);
    let mut out: Vec<usize> = Vec::new();
    let mut i: usize = 0;
    while i < lines.len()
        invariant
            i <= lines@.len(),
            lq@ == lowercase(query@),
            out@.map_values(|j: usize| j as int) == matching_lines(string_views(lines@).take(i as int), query@),
        decreases lines@.len() - i,
    {
        let ll = to_lowercase(lines[i].as_str());
        let lc = chars_of(ll.as_str());
        let hit = contains_exec(lc.as_slice(), lq.as_str());
        let ghost before = out@;
        if hit {
            out.push(i);
        }
        proof {
            let t = string_views(lines@).take(i + 1);
            assert(t.drop_last() =~= string_views(lines@).take(i as int));
            assert(t.last() == lines@[i as int]@);
            if hit {
                assert(out@.map_values(|j: usize| j as int) =~= before.map_values(|j: usize| j as int).push(i as int));
            }
        }
        i += 1;
    }
    proof {
        assert(string_views(lines@).take(lines@.len() as int) =~= string_views(lines@));
    }
    out
}

/// Runs the finished search over the body `lines` (as the response panel
/// shows them): an empty query drops the search; otherwise the matches are
/// the matching lines, the first is current and scrolled to the top.
pub fn run_search(app: &mut App, lines: &Vec<String>)
    requires
        old(app).search is Some,
    ensures
        old(app).search.unwrap().query@.len() == 0 ==> *final(app) == (App { search: None, ..*old(app) }),
        old(app).search.unwrap().query@.len() > 0 ==> {
            &&& final(app).search matches Some(t) && t.query == old(app).search.unwrap().query
                && t.matches@.map_values(|i: usize| i as int) == matching_lines(
                string_views(lines@),
                old(app).search.unwrap().query@,
            ) && t.current == 0 && !t.typing
            &&& *final(app) == (App {
                search: final(app).search,
                response_scroll: if final(app).search.unwrap().matches@.len() > 0 {
                    scroll_to(final(app).search.unwrap().matches@[0])
                } else {
                    old(app).response_scroll
                },
                ..*old(app)
            })
        },
{
    let s = app.search.take().unwrap();
    if s.query.as_str().unicode_len() == 0 {
        return;
    }
    let matches = find_matches(lines, s.query.as_str());
    if matches.len() > 0 {
        let first = matches[0];
        app.response_scroll = if first < 65535 {
            first as u16
        } else {
            65535
        };
    }
    app.search = Some(Search { query: s.query, matches, current: 0, typing: false });
}

/// Moves to the next (`forward`) or previous match (see [`search_moved`]).
pub fn move_match(app: &mut App, forward: bool)
    ensures
        search_moved(*old(app), *final(app), forward),
{
    let ok = match &app.search {
        Some(s) => !s.typing && s.matches.len() > 0 && s.current < s.matches.len(),
        None => false,
    };
    if !ok {
        return;
    }
    let s = app.search.take().unwrap();
    let n = s.matches.len();
    let c = if forward {
        (s.current + 1) % n
    } else if s.current == 0 {
        n - 1
    } else {
        s.current - 1
    };
    let line = s.matches[c];
    app.response_scroll = if line < 65535 {
        line as u16
    } else {
        65535
    };
    app.search = Some(Search { current: c, ..s });
}

/// Row `i` of the body with the search's marks: the current match in black
/// on yellow, the other matches in white on dark gray, other rows as they
/// are.
pub open spec fn marked_row(row: Seq<PieceView>, i: int, matches: Seq<usize>, current: usize) -> Seq<PieceView> {
    if exists|j: int| 0 <= j < matches.len() && matches[j] == i {
        let on_current = current < matches.len() && matches[current as int] == i;
        row.map_values(|p: PieceView| PieceView {
            fg: Some(if on_current { Tint::Black } else { Tint::White }),
            bg: Some(if on_current { Tint::Yellow } else { Tint::DarkGray }),
            ..p
        })
    } else {
        row
    }
}

/// Marks the rows that matched the search (see [`marked_row`]).
pub fn mark_matches(rows: Vec<Vec<Piece>>, search: &Search) -> (r: Vec<Vec<Piece>>)
    ensures
        r@.len() == rows@.len(),
        forall|i: int| 0 <= i < rows@.len() ==> #[trigger] rows_view(r@)[i] == marked_row(
            row_view(rows@[i]@),
            i,
            search.matches@,
            search.current,
        ),
{
    let mut out: Vec<Vec<Piece>> = Vec::new();
    let mut rows = rows;
    let ghost orig = rows@;
    let mut i: usize = 0;
    let n = rows.len();
    let current_line: Option<usize> = if search.current < search.matches.len() {
        Some(search.matches[search.current])
    } else {
        None
    };
    while i < n
        invariant
            n == orig.len(),
            i <= n,
            out@.len() == i,
            rows@.len() + i == n,
            forall|j: int| 0 <= j < rows@.len() ==> #[trigger] rows@[j] == orig[i + j],
            current_line == (if search.current < search.matches@.len() {
                Some(search.matches@[search.current as int])
            } else {
                None
            }),
            forall|j: int| 0 <= j < i ==> #[trigger] rows_view(out@)[j] == marked_row(
                row_view(orig[j]@),
                j,
                search.matches@,
                search.current,
            ),
        decreases n - i,
    {
        let row = rows.remove(0);
        let mut hit = false;
        let mut k: usize = 0;
        while k < search.matches.len()
            invariant
                k <= search.matches@.len(),
                hit <==> exists|j: int| 0 <= j < k && search.matches@[j] == i,
            decreases search.matches@.len() - k,
        {
            if search.matches[k] == i {
                hit = true;
            }
            k += 1;
        }
        let marked = if hit {
            let on_current = current_line == Some(i);
            let fg = if on_current {
                Tint::Black
            } else {
                Tint::White
            };
            let bg = if on_current {
                Tint::Yellow
            } else {
                Tint::DarkGray
            };
            let mut m: Vec<Piece> = Vec::new();
            let mut p: usize = 0;
            while p < row.len()
                invariant
                    p <= row@.len(),
                    m@.len() == p,
                    forall|q: int| 0 <= q < p ==> #[trigger] m@[q]@ == (PieceView {
                        fg: Some(fg),
                        bg: Some(bg),
                        ..row@[q]@
                    }),
                decreases row@.len() - p,
            {
                let src = &row[p];
                m.push(Piece {
                    text: src.text.clone(),
                    fg: Some(fg),
                    bg: Some(bg),
                    bold: src.bold,
                    dim: src.dim,
                    blink: src.blink,
                });
                p += 1;
            }
            proof {
                assert(row_view(m@) =~= marked_row(row_view(orig[i as int]@), i as int, search.matches@, search.current));
            }
            m
        } else {
            proof {
                assert(row_view(row@) =~= marked_row(row_view(orig[i as int]@), i as int, search.matches@, search.current));
            }
            row
        };
        let ghost before = out@;
        let ghost mv = row_view(marked@);
        assert(mv == marked_row(row_view(orig[i as int]@), i as int, search.matches@, search.current));
        out.push(marked);
        proof {
            assert forall|j: int| 0 <= j < i + 1 implies #[trigger] rows_view(out@)[j] == marked_row(
                row_view(orig[j]@),
                j,
                search.matches@,
                search.current,
            ) by {
                assert(rows_view(out@)[j] == row_view(out@[j]@));
                if j < i {
                    assert(out@[j] == before[j]);
                    assert(rows_view(before)[j] == row_view(before[j]@));
                }
            }
        }
        i += 1;
    }
    out
}

} // verus!
