//! JSON syntax highlighting of the response body: which theme, how text is
//! cut into lines, and how the highlighter's colored ranges become rows.

use vstd::prelude::*;
use syntect::easy::HighlightLines;
use syntect::highlighting::ThemeSet;
use syntect::parsing::{SyntaxReference, SyntaxSet};
use crate::http::{Response, json_pretty, json_text};
use crate::text::{chars_of, lines_of, split_lines, string_of_range, string_views};
use crate::ui::{Tint, trim_eol, without_eol};
use crate::view::{Piece, PieceView, colored, row_view, rows_view};

verus! {

/// The theme for a light or a dark terminal.
pub open spec fn theme_name_spec(light: bool) -> Seq<char> {
    if light {
        "InspiredGitHub"@
    } else {
        "base16-ocean.dark"@
    }
}

/// The theme for a light or a dark terminal (see [`theme_name_spec`]).
pub fn theme_name(light: bool) -> (r: &'static str)
    ensures
        r@ == theme_name_spec(light),
{
    if light {
        "InspiredGitHub"
    } else {
        "base16-ocean.dark"
    }
}

/// The lines of `s` from `pos`, each with its line break (`LinesWithEndings`):
/// cut after every `\n`, the last one running to the end.
pub open spec fn pieces_from(s: Seq<char>, pos: int) -> Seq<Seq<char>>
    decreases s.len() - pos,
{
    if pos < 0 || pos >= s.len() {
        Seq::empty()
    } else {
        match crate::text::find_from(s, seq!['\n'], pos) {
            None => seq![s.subrange(pos, s.len() as int)],
            Some(i) => {
                proof {
                    crate::text::lemma_find_from(s, seq!['\n'], pos);
                }
                seq![s.subrange(pos, i + 1)] + pieces_from(s, i + 1)
            },
        }
    }
}

/// The lines of `s`, each with its line break.
pub open spec fn lines_with_endings_spec(s: Seq<char>) -> Seq<Seq<char>> {
    pieces_from(s, 0)
}

/// The lines of `s`, each with its line break (see
/// [`lines_with_endings_spec`]).
pub fn lines_with_endings(s: &str) -> (v: Vec<String>)
    ensures
        string_views(v@) == lines_with_endings_spec(s@),
{
    let cs = chars_of(s);
    let n = cs.len();
    let nl = vec!['\n'];
    let mut out: Vec<String> = Vec::new();
    let mut pos: usize = 0;
    while pos < n
        invariant
            n == cs@.len(),
            cs@ == s@,
            nl@ == seq!['\n'],
            pos <= n,
            lines_with_endings_spec(s@) == string_views(out@) + pieces_from(cs@, pos as int),
        decreases n - pos,
    {
        let ghost before = string_views(out@);
        match crate::text::find_from_exec(cs.as_slice(), nl.as_slice(), pos) {
            None => {
                let line = string_of_range(cs.as_slice(), pos, n);
                out.push(line);
                proof {
                    assert(string_views(out@) =~= before.push(line@));
                    assert(pieces_from(cs@, n as int) =~= Seq::<Seq<char>>::empty());
                    assert(before + seq![line@] =~= string_views(out@) + pieces_from(cs@, n as int));
                }
                pos = n;
            },
            Some(i) => {
                proof {
                    crate::text::lemma_find_from(cs@, seq!['\n'], pos as int);
                }
                let line = string_of_range(cs.as_slice(), pos, i + 1);
                out.push(line);
                proof {
                    assert(string_views(out@) =~= before.push(line@));
                    assert(before + (seq![line@] + pieces_from(cs@, i + 1)) =~= string_views(out@)
                        + pieces_from(cs@, i + 1));
                }
                pos = i + 1;
            },
        }
    }
    proof {
        assert(pieces_from(cs@, pos as int) =~= Seq::<Seq<char>>::empty());
        assert(string_views(out@) + Seq::<Seq<char>>::empty() =~= string_views(out@));
    }
    out
}

/// One uncolored row per line of `text`, without its line break.
pub open spec fn plain_rows_spec(text: Seq<char>) -> Seq<Seq<PieceView>> {
    lines_with_endings_spec(text).map_values(|l: Seq<char>| seq![colored(without_eol(l), None)])
}

/// The rows of `text` without colors (see [`plain_rows_spec`]).
pub fn plain_rows(text: &str) -> (r: Vec<Vec<Piece>>)
    ensures
        rows_view(r@) == plain_rows_spec(text@),
{
    let lines = lines_with_endings(text);
    let ghost want = plain_rows_spec(text@);
    let mut out: Vec<Vec<Piece>> = Vec::new();
    let mut i: usize = 0;
    while i < lines.len()
        invariant
            i <= lines@.len(),
            string_views(lines@) == lines_with_endings_spec(text@),
            want == plain_rows_spec(text@),
            rows_view(out@) == want.take(i as int),
        decreases lines@.len() - i,
    {
        let t = trim_eol(lines[i].as_str());
        let row = vec![Piece { text: t, fg: None, bg: None, bold: false, dim: false, blink: false }];
        let ghost before = rows_view(out@);
        out.push(row);
        proof {
            assert(string_views(lines@)[i as int] == lines@[i as int]@);
            assert(row_view(row@) =~= want[i as int]);
            assert(rows_view(out@) =~= before.push(row_view(row@)));
            assert(want.take(i + 1) =~= want.take(i as int).push(want[i as int]));
        }
        i += 1;
    }
    proof {
        assert(want.take(lines@.len() as int) =~= want);
    }
    out
}

/// A colored range of a highlighted line: red, green, blue and the text.
pub type Range = (u8, u8, u8, String);

/// A colored range as plain values: red, green, blue and the text.
pub type RangeView = (u8, u8, u8, Seq<char>);

/// The plain values of a colored range.
pub open spec fn range_view(r: Range) -> RangeView {
    (r.0, r.1, r.2, r.3@)
}

/// The plain values of a line's colored ranges.
pub open spec fn ranges_view(rs: Seq<Range>) -> Seq<RangeView> {
    rs.map_values(|r: Range| range_view(r))
}

/// The plain values of the highlighter's answer for a line.
pub open spec fn line_result_view(o: Option<Vec<Range>>) -> Option<Seq<RangeView>> {
    match o {
        Some(v) => Some(ranges_view(v@)),
        None => None,
    }
}

/// The plain values of the highlighter's answers for several lines.
pub open spec fn line_results_view(os: Seq<Option<Vec<Range>>>) -> Seq<Option<Seq<RangeView>>> {
    os.map_values(|o: Option<Vec<Range>>| line_result_view(o))
}

/// The row of a highlighted line: each range's text, without line break, in
/// its color.
pub open spec fn range_row(ranges: Seq<RangeView>) -> Seq<PieceView> {
    ranges.map_values(|r: RangeView| colored(without_eol(r.3), Some(Tint::Rgb(r.0, r.1, r.2))))
}

/// The rows of highlighted lines: a line the highlighter colored becomes the
/// row of its ranges; a line it failed on stays uncolored.
pub open spec fn highlighted_rows_spec(lines: Seq<Seq<char>>, results: Seq<Option<Seq<RangeView>>>) -> Seq<Seq<PieceView>>
    recommends
        lines.len() == results.len(),
{
    Seq::new(
        lines.len(),
        |i: int| match results[i] {
            Some(rs) => range_row(rs),
            None => seq![colored(without_eol(lines[i]), None)],
        },
    )
}

/// The row of one highlighted line (see [`range_row`]).
fn range_pieces(ranges: &Vec<Range>) -> (r: Vec<Piece>)
    ensures
        row_view(r@) == range_row(ranges_view(ranges@)),
{
    let ghost want = range_row(ranges_view(ranges@));
    let mut out: Vec<Piece> = Vec::new();
    let mut j: usize = 0;
    while j < ranges.len()
        invariant
            j <= ranges@.len(),
            want == range_row(ranges_view(ranges@)),
            want.len() == ranges@.len(),
            row_view(out@) == want.take(j as int),
        decreases ranges@.len() - j,
    {
        let (red, green, blue, t) = &ranges[j];
        let p = Piece {
            text: trim_eol(t.as_str()),
            fg: Some(Tint::Rgb(*red, *green, *blue)),
            bg: None,
            bold: false,
            dim: false,
            blink: false,
        };
        let ghost before = row_view(out@);
        out.push(p);
        proof {
            assert(ranges_view(ranges@)[j as int] == range_view(ranges@[j as int]));
            assert(p@ == want[j as int]);
            assert(row_view(out@) =~= before.push(p@));
            assert(want.take(j + 1) =~= want.take(j as int).push(want[j as int]));
        }
        j += 1;
    }
    proof {
        assert(want.take(ranges@.len() as int) =~= want);
    }
    out
}

/// The rows of highlighted lines (see [`highlighted_rows_spec`]); `results`
/// holds, for each line, the highlighter's ranges, or nothing where it
/// failed.
pub fn highlighted_rows(lines: &Vec<String>, results: &Vec<Option<Vec<Range>>>) -> (r: Vec<Vec<Piece>>)
    requires
        lines@.len() == results@.len(),
    ensures
        rows_view(r@) == highlighted_rows_spec(string_views(lines@), line_results_view(results@)),
{
    let ghost want = highlighted_rows_spec(string_views(lines@), line_results_view(results@));
    let mut out: Vec<Vec<Piece>> = Vec::new();
    let mut i: usize = 0;
    while i < lines.len()
        invariant
            i <= lines@.len(),
            lines@.len() == results@.len(),
            want == highlighted_rows_spec(string_views(lines@), line_results_view(results@)),
            rows_view(out@) == want.take(i as int),
        decreases lines@.len() - i,
    {
        let row = match &results[i] {
            Some(rs) => range_pieces(rs),
            None => vec![Piece {
                text: trim_eol(lines[i].as_str()),
                fg: None,
                bg: None,
                bold: false,
                dim: false,
                blink: false,
            }],
        };
        let ghost before = rows_view(out@);
        out.push(row);
        proof {
            assert(string_views(lines@)[i as int] == lines@[i as int]@);
            assert(line_results_view(results@)[i as int] == line_result_view(results@[i as int]));
            assert(row_view(row@) =~= want[i as int]);
            assert(rows_view(out@) =~= before.push(row_view(row@)));
            assert(want.take(i + 1) =~= want.take(i as int).push(want[i as int]));
        }
        i += 1;
    }
    proof {
        assert(want.take(lines@.len() as int) =~= want);
    }
    out
}

/// syntect's default syntax set (for lines that keep their line breaks) and
/// default theme set. The fields are private and filled only by
/// [`DefaultSets::load`], so every value of this type holds the defaults.
pub struct DefaultSets {
    syntaxes: SyntaxSet,
    themes: ThemeSet,
}

/// `SyntaxSet::load_defaults_newlines`: the syntaxes built into syntect.
#[verifier::external_body]
fn default_syntaxes() -> SyntaxSet {
    SyntaxSet::load_defaults_newlines()
}

/// `ThemeSet::load_defaults`: the themes built into syntect.
#[verifier::external_body]
fn default_themes() -> ThemeSet {
    ThemeSet::load_defaults()
}

impl DefaultSets {
    /// Loads syntect's default syntaxes and themes.
    pub fn load() -> DefaultSets {
        DefaultSets { syntaxes: default_syntaxes(), themes: default_themes() }
    }
}

/// The name of the syntax that syntect's default syntax set gives for files
/// with the extension `ext`, if it has one.
pub uninterp spec fn default_syntax_for_extension(ext: Seq<char>) -> Option<Seq<char>>;

/// Whether syntect's default syntax set has a syntax of that name.
pub uninterp spec fn default_has_syntax(name: Seq<char>) -> bool;

/// Whether syntect's default theme set has a theme of that name.
pub uninterp spec fn default_has_theme(name: Seq<char>) -> bool;

/// The colored ranges that a highlighter of syntect's default sets, for the
/// theme and the syntax of those names, gives for `line` once it has been
/// given the lines `before`; nothing where it fails on the line.
pub uninterp spec fn default_line_ranges(
    theme: Seq<char>,
    syntax: Seq<char>,
    before: Seq<Seq<char>>,
    line: Seq<char>,
) -> Option<Seq<RangeView>>;

/// A syntax of the default set, with its name.
struct Syntax<'a> {
    reference: &'a SyntaxReference,
    name: String,
}

/// A highlighter of the default sets, with the names of its theme and
/// syntax and the lines it has been given.
struct Highlighter<'a> {
    lines: HighlightLines<'a>,
    theme: Ghost<Seq<char>>,
    syntax: Ghost<Seq<char>>,
    seen: Ghost<Seq<Seq<char>>>,
}

/// `SyntaxSet::find_syntax_by_extension` on the default set: the syntax for
/// files with the extension, with its name, if the set has one.
#[verifier::external_body]
fn syntax_for_extension<'a>(sets: &'a DefaultSets, ext: &str) -> (r: Option<Syntax<'a>>)
    ensures
        match r {
            Some(s) => default_syntax_for_extension(ext@) == Some(s.name@),
            None => default_syntax_for_extension(ext@) is None,
        },
{
    sets.syntaxes.find_syntax_by_extension(ext).map(|s| Syntax { reference: s, name: s.name.clone() })
}

/// `SyntaxSet::find_syntax_by_name` on the default set: the syntax whose name
/// is `name`, if the set has one.
#[verifier::external_body]
fn syntax_named<'a>(sets: &'a DefaultSets, name: &str) -> (r: Option<Syntax<'a>>)
    ensures
        r is Some <==> default_has_syntax(name@),
        r matches Some(s) ==> s.name@ == name@,
{
    sets.syntaxes.find_syntax_by_name(name).map(|s| Syntax { reference: s, name: s.name.clone() })
}

/// `HighlightLines::new` with the theme of that name among the default
/// set's `themes`: a highlighter for the syntax that has been given no line
/// yet; nothing when the set has no such theme.
#[verifier::external_body]
fn highlighter_in<'a>(sets: &'a DefaultSets, theme: &str, syntax: &Syntax) -> (r: Option<Highlighter<'a>>)
    ensures
        r is Some <==> default_has_theme(theme@),
        r matches Some(h) ==> h.theme@ == theme@ && h.syntax@ == syntax.name@ && h.seen@ == Seq::<Seq<char>>::empty(),
{
    match sets.themes.themes.get(theme) {
        Some(t) => Some(Highlighter {
            lines: HighlightLines::new(syntax.reference, t),
            theme: Ghost(theme@),
            syntax: Ghost(syntax.name@),
            seen: Ghost(Seq::empty()),
        }),
        None => None,
    }
}

/// `HighlightLines::highlight_line`: the colored ranges of the next line, as
/// foreground colors and texts; nothing where the highlighter fails. The
/// highlighter has then been given one more line; the names of its theme and
/// syntax are left as they were.
#[verifier::external_body]
fn highlight_next_line(h: &mut Highlighter, line: &str, sets: &DefaultSets) -> (r: Option<Vec<Range>>)
    ensures
        final(h).theme == old(h).theme,
        final(h).syntax == old(h).syntax,
        final(h).seen@ == old(h).seen@.push(line@),
        line_result_view(r) == default_line_ranges(old(h).theme@, old(h).syntax@, old(h).seen@, line@),
{
    let r = match h.lines.highlight_line(line, &sets.syntaxes) {
        Ok(ranges) => Some(
            ranges.into_iter().map(|(st, t)| (st.foreground.r, st.foreground.g, st.foreground.b, t.to_string())).collect(),
        ),
        Err(_) => None,
    };
    h.seen = Ghost(h.seen@.push(line@));
    r
}

/// The syntax a JSON body is highlighted with: the default set's syntax for
/// `.json` files, else its plain text syntax; none if it has neither.
pub open spec fn json_syntax() -> Option<Seq<char>> {
    match default_syntax_for_extension("json"@) {
        Some(n) => Some(n),
        None => if default_has_syntax("Plain Text"@) {
            Some("Plain Text"@)
        } else {
            None
        },
    }
}

/// The highlighter's answers for `lines`, each line given after the ones
/// before it.
pub open spec fn default_ranges_of_lines(theme: Seq<char>, syntax: Seq<char>, lines: Seq<Seq<char>>) -> Seq<Option<Seq<RangeView>>> {
    Seq::new(lines.len(), |i: int| default_line_ranges(theme, syntax, lines.take(i), lines[i]))
}

/// The rows of `text` highlighted as JSON in the theme for a light or a dark
/// terminal; uncolored when the default sets lack the theme or any syntax.
pub open spec fn highlighted_text(text: Seq<char>, light: bool) -> Seq<Seq<PieceView>> {
    let lines = lines_with_endings_spec(text);
    match json_syntax() {
        Some(syntax) => if default_has_theme(theme_name_spec(light)) {
            highlighted_rows_spec(lines, default_ranges_of_lines(theme_name_spec(light), syntax, lines))
        } else {
            plain_rows_spec(text)
        },
        None => plain_rows_spec(text),
    }
}

/// Highlights `text` as JSON (plain text where the set has no JSON syntax)
/// in the theme for a light or dark terminal: one row per line, each made
/// of the highlighter's colored ranges of that line, or the line uncolored
/// where the highlighter failed (see [`highlighted_text`]).
pub fn compute(text: &str, light: bool, sets: &DefaultSets) -> (r: Vec<Vec<Piece>>)
    ensures
        rows_view(r@) == highlighted_text(text@, light),
        r@.len() == lines_with_endings_spec(text@).len(),
{
    let syntax = match syntax_for_extension(sets, "json") {
        Some(s) => Some(s),
        None => syntax_named(sets, "Plain Text"),
    };
    let theme = theme_name(light);
    let found = match &syntax {
        Some(s) => highlighter_in(sets, theme, s),
        None => None,
    };
    let mut h = match found {
        Some(h) => h,
        None => {
            let r = plain_rows(text);
            proof {
                assert(rows_view(r@).len() == r@.len());
            }
            return r;
        },
    };
    let ghost syntax_name = h.syntax@;
    let lines = lines_with_endings(text);
    let ghost ls = string_views(lines@);
    proof {
        assert(ls.take(0) =~= Seq::<Seq<char>>::empty());
        assert(default_ranges_of_lines(theme@, syntax_name, ls).take(0) =~= Seq::<Option<Seq<RangeView>>>::empty());
    }
    let mut results: Vec<Option<Vec<Range>>> = Vec::new();
    let mut i: usize = 0;
    while i < lines.len()
        invariant
            i <= lines@.len(),
            ls == string_views(lines@),
            results@.len() == i,
            h.theme@ == theme@,
            h.syntax@ == syntax_name,
            h.seen@ == ls.take(i as int),
            line_results_view(results@) == default_ranges_of_lines(theme@, syntax_name, ls).take(i as int),
        decreases lines@.len() - i,
    {
        let ghost before = line_results_view(results@);
        let res = highlight_next_line(&mut h, lines[i].as_str(), sets);
        results.push(res);
        proof {
            assert(ls[i as int] == lines@[i as int]@);
            assert(ls.take(i + 1) =~= ls.take(i as int).push(ls[i as int]));
            assert(line_results_view(results@) =~= before.push(line_result_view(res)));
            let want = default_ranges_of_lines(theme@, syntax_name, ls);
            assert(want.take(i + 1) =~= want.take(i as int).push(want[i as int]));
        }
        i += 1;
    }
    let r = highlighted_rows(&lines, &results);
    proof {
        let want = default_ranges_of_lines(theme@, syntax_name, ls);
        assert(want.take(lines@.len() as int) =~= want);
        assert(rows_view(r@).len() == r@.len());
    }
    r
}

/// The rows of a JSON body: uncolored when colors are off (see
/// [`plain_rows`]), else highlighted (see [`compute`]).
pub fn highlight_json(text: &str, light: bool, no_color: bool, sets: &DefaultSets) -> (r: Vec<Vec<Piece>>)
    ensures
        no_color ==> rows_view(r@) == plain_rows_spec(text@),
        !no_color ==> rows_view(r@) == highlighted_text(text@, light),
        r@.len() == lines_with_endings_spec(text@).len(),
{
    if no_color {
        let r = plain_rows(text);
        proof {
            assert(rows_view(r@).len() == r@.len());
        }
        r
    } else {
        compute(text, light, sets)
    }
}

/// The body of a response as the response panel shows it: when it is JSON,
/// its indented text highlighted (or uncolored when colors are off); else
/// its lines, uncolored.
pub open spec fn body_rows_spec(body: Seq<char>, light: bool, no_color: bool) -> Seq<Seq<PieceView>> {
    if json_text(body) {
        if no_color {
            plain_rows_spec(json_pretty(body))
        } else {
            highlighted_text(json_pretty(body), light)
        }
    } else {
        lines_of(body).map_values(|l: Seq<char>| seq![colored(l, None)])
    }
}

/// The rows of a response body in the response panel (see
/// [`body_rows_spec`]).
pub fn body_rows(resp: &Response, light: bool, no_color: bool, sets: &DefaultSets) -> (r: Vec<Vec<Piece>>)
    ensures
        rows_view(r@) == body_rows_spec(resp.body@, light, no_color),
{
    let pretty = resp.pretty_body();
    if resp.is_json() {
        return highlight_json(pretty.as_str(), light, no_color, sets);
    }
    let lines = split_lines(pretty.as_str());
    let ghost want = body_rows_spec(resp.body@, light, no_color);
    let mut out: Vec<Vec<Piece>> = Vec::new();
    let mut i: usize = 0;
    while i < lines.len()
        invariant
            i <= lines@.len(),
            string_views(lines@) == lines_of(resp.body@),
            want == lines_of(resp.body@).map_values(|l: Seq<char>| seq![colored(l, None)]),
            rows_view(out@) == want.take(i as int),
        decreases lines@.len() - i,
    {
        let row = vec![Piece { text: lines[i].clone(), fg: None, bg: None, bold: false, dim: false, blink: false }];
        let ghost before = rows_view(out@);
        out.push(row);
        proof {
            assert(string_views(lines@)[i as int] == lines@[i as int]@);
            assert(row_view(row@) =~= want[i as int]);
            assert(rows_view(out@) =~= before.push(row_view(row@)));
            assert(want.take(i + 1) =~= want.take(i as int).push(want[i as int]));
        }
        i += 1;
    }
    proof {
        assert(want.take(lines@.len() as int) =~= want);
    }
    out
}

} // verus!
