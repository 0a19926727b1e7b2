//! Character-level text utilities: the library treats every string as the
//! sequence of its `char`s, and states each operation over that sequence.

use vstd::prelude::*;

verus! {

/// `String::push` appends one character.
pub assume_specification[ String::push ](s: &mut String, ch: char)
    ensures
        final(s)@ == old(s)@.push(ch),
;

/// Unicode `White_Space`, the set that `char::is_whitespace` and `str::trim` use.
pub open spec fn is_ws(c: char) -> bool {
    ||| ('\u{09}' <= c && c <= '\u{0D}')
    ||| c == ' '
    ||| c == '\u{85}'
    ||| c == '\u{A0}'
    ||| c == '\u{1680}'
    ||| ('\u{2000}' <= c && c <= '\u{200A}')
    ||| c == '\u{2028}'
    ||| c == '\u{2029}'
    ||| c == '\u{202F}'
    ||| c == '\u{205F}'
    ||| c == '\u{3000}'
}

/// `s` without its leading white space.
pub open spec fn trim_start(s: Seq<char>) -> Seq<char>
    decreases s.len(),
{
    if s.len() > 0 && is_ws(s[0]) {
        trim_start(s.drop_first())
    } else {
        s
    }
}

/// `s` without its trailing white space.
pub open spec fn trim_end(s: Seq<char>) -> Seq<char>
    decreases s.len(),
{
    if s.len() > 0 && is_ws(s.last()) {
        trim_end(s.drop_last())
    } else {
        s
    }
}

/// `s` without leading and trailing white space (`str::trim`).
pub open spec fn trim(s: Seq<char>) -> Seq<char> {
    trim_end(trim_start(s))
}

/// `s` holds nothing but white space.
pub open spec fn is_blank(s: Seq<char>) -> bool {
    trim(s).len() == 0
}

/// `c` with an ASCII lower-case letter mapped to upper case.
pub open spec fn ascii_upper(c: char) -> char {
    if 'a' <= c && c <= 'z' {
        ((c as u32) - 32) as char
    } else {
        c
    }
}

/// `str::to_ascii_uppercase`.
pub open spec fn ascii_upper_seq(s: Seq<char>) -> Seq<char> {
    s.map_values(|c: char| ascii_upper(c))
}

/// `pat` occurs in `s` at index `i`.
pub open spec fn occurs_at(s: Seq<char>, pat: Seq<char>, i: int) -> bool {
    0 <= i && i + pat.len() <= s.len() && s.subrange(i, i + pat.len()) == pat
}

/// The first index at or after `i` where `pat` occurs in `s`.
pub open spec fn find_from(s: Seq<char>, pat: Seq<char>, i: int) -> Option<int>
    decreases s.len() + 1 - i,
{
    if i < 0 || i + pat.len() > s.len() {
        None
    } else if s.subrange(i, i + pat.len()) == pat {
        Some(i)
    } else {
        find_from(s, pat, i + 1)
    }
}

/// `s` begins with `p`.
pub open spec fn has_prefix(s: Seq<char>, p: Seq<char>) -> bool {
    p.len() <= s.len() && s.subrange(0, p.len() as int) == p
}

/// A search result lies where the pattern occurs, at or after the start,
/// and no earlier occurrence follows the start.
pub proof fn lemma_find_from(s: Seq<char>, pat: Seq<char>, i: int)
    requires
        0 <= i,
    ensures
        find_from(s, pat, i) matches Some(k) ==> i <= k && occurs_at(s, pat, k)
            && (forall|j: int| i <= j < k ==> !occurs_at(s, pat, j)),
        find_from(s, pat, i) is None ==> (forall|j: int| i <= j ==> !occurs_at(s, pat, j)),
    decreases s.len() + 1 - i,
{
    if i + pat.len() > s.len() {
    } else if s.subrange(i, i + pat.len()) == pat {
    } else {
        lemma_find_from(s, pat, i + 1);
    }
}

/// Whether `c` is white space (`char::is_whitespace`).
pub fn is_ws_char(c: char) -> (r: bool)
    ensures
        r == is_ws(c),
{
    ('\u{09}' <= c && c <= '\u{0D}') || c == ' ' || c == '\u{85}' || c == '\u{A0}' || c
        == '\u{1680}' || ('\u{2000}' <= c && c <= '\u{200A}') || c == '\u{2028}' || c
        == '\u{2029}' || c == '\u{202F}' || c == '\u{205F}' || c == '\u{3000}'
}

/// The characters of `s`, in order.
pub fn chars_of(s: &str) -> (v: Vec<char>)
    ensures
        v@ == s@,
{
    let mut v: Vec<char> = Vec::new();
    for c in it: s.chars()
        invariant
            v@ == it.seq().take(it.index()),
    {
        v.push(c);
    }
    v
}

/// A string holding the characters `cs[lo..hi]`.
pub fn string_of_range(cs: &[char], lo: usize, hi: usize) -> (s: String)
    requires
        lo <= hi <= cs@.len(),
    ensures
        s@ == cs@.subrange(lo as int, hi as int),
{
    let mut s = String::new();
    let mut i: usize = lo;
    while i < hi
        invariant
            lo <= i <= hi <= cs@.len(),
            s@ == cs@.subrange(lo as int, i as int),
        decreases hi - i,
    {
        s.push(cs[i]);
        i += 1;
        proof {
            assert(cs@.subrange(lo as int, i as int) =~= cs@.subrange(lo as int, i - 1).push(
                cs@[i - 1],
            ));
        }
    }
    s
}

/// A string holding exactly the characters `cs`.
pub fn string_of(cs: &[char]) -> (s: String)
    ensures
        s@ == cs@,
{
    let s = string_of_range(cs, 0, cs.len());
    proof {
        assert(cs@.subrange(0, cs@.len() as int) =~= cs@);
    }
    s
}

/// Appends the characters `cs` to `s`.
pub fn push_all(s: &mut String, cs: &[char])
    ensures
        final(s)@ == old(s)@ + cs@,
{
    let mut i: usize = 0;
    while i < cs.len()
        invariant
            i <= cs@.len(),
            s@ == old(s)@ + cs@.take(i as int),
        decreases cs@.len() - i,
    {
        s.push(cs[i]);
        i += 1;
        proof {
            assert(old(s)@ + cs@.take(i as int) =~= (old(s)@ + cs@.take(i - 1)).push(cs@[i - 1]));
        }
    }
    proof {
        assert(cs@.take(cs@.len() as int) =~= cs@);
    }
}

proof fn lemma_trim_start_skip(s: Seq<char>, i: int)
    requires
        0 <= i < s.len(),
        is_ws(s[i]),
        trim_start(s) == trim_start(s.subrange(i, s.len() as int)),
    ensures
        trim_start(s) == trim_start(s.subrange(i + 1, s.len() as int)),
{
    let t = s.subrange(i, s.len() as int);
    assert(t.drop_first() =~= s.subrange(i + 1, s.len() as int));
}

proof fn lemma_trim_end_drop(s: Seq<char>, lo: int, hi: int)
    requires
        0 <= lo < hi <= s.len(),
        is_ws(s[hi - 1]),
    ensures
        trim_end(s.subrange(lo, hi)) == trim_end(s.subrange(lo, hi - 1)),
{
    let t = s.subrange(lo, hi);
    assert(t.drop_last() =~= s.subrange(lo, hi - 1));
}

/// The bounds of `cs` without leading and trailing white space.
pub fn trim_bounds(cs: &[char]) -> (r: (usize, usize))
    ensures
        r.0 <= r.1 <= cs@.len(),
        cs@.subrange(r.0 as int, r.1 as int) == trim(cs@),
{
    let n = cs.len();
    let mut lo: usize = 0;
    proof {
        assert(cs@.subrange(0, n as int) =~= cs@);
    }
    while lo < n && is_ws_char(cs[lo])
        invariant
            lo <= n == cs@.len(),
            trim_start(cs@) == trim_start(cs@.subrange(lo as int, n as int)),
        decreases n - lo,
    {
        proof {
            lemma_trim_start_skip(cs@, lo as int);
        }
        lo += 1;
    }
    proof {
        let t = cs@.subrange(lo as int, n as int);
        if lo < n {
            assert(t[0] == cs@[lo as int]);
        }
        assert(trim_start(t) == t);
    }
    let mut hi: usize = n;
    while hi > lo && is_ws_char(cs[hi - 1])
        invariant
            lo <= hi <= n == cs@.len(),
            trim(cs@) == trim_end(cs@.subrange(lo as int, hi as int)),
        decreases hi,
    {
        proof {
            lemma_trim_end_drop(cs@, lo as int, hi as int);
        }
        hi -= 1;
    }
    proof {
        let t = cs@.subrange(lo as int, hi as int);
        if hi > lo {
            assert(t.last() == cs@[hi - 1]);
        }
        assert(trim_end(t) == t);
    }
    (lo, hi)
}

/// `s` without leading and trailing white space.
pub fn trim_str(s: &str) -> (r: String)
    ensures
        r@ == trim(s@),
{
    let cs = chars_of(s);
    let (lo, hi) = trim_bounds(cs.as_slice());
    string_of_range(cs.as_slice(), lo, hi)
}

/// Whether `s` holds nothing but white space.
pub fn is_blank_str(s: &str) -> (r: bool)
    ensures
        r == is_blank(s@),
{
    let cs = chars_of(s);
    let (lo, hi) = trim_bounds(cs.as_slice());
    lo == hi
}

/// `s` with ASCII lower-case letters in upper case (`str::to_ascii_uppercase`).
pub fn to_ascii_upper(s: &str) -> (r: String)
    ensures
        r@ == ascii_upper_seq(s@),
{
    let cs = chars_of(s);
    let mut out = String::new();
    let mut i: usize = 0;
    while i < cs.len()
        invariant
            i <= cs@.len(),
            cs@ == s@,
            out@ == ascii_upper_seq(s@).take(i as int),
        decreases cs@.len() - i,
    {
        let c = cs[i];
        let u = if 'a' <= c && c <= 'z' {
            ((c as u32) - 32) as u8 as char
        } else {
            c
        };
        proof {
            if 'a' <= c && c <= 'z' {
                assert(((c as u32) - 32) as u8 as char == ((c as u32) - 32) as char);
            }
        }
        out.push(u);
        i += 1;
        proof {
            assert(ascii_upper_seq(s@).take(i as int) =~= ascii_upper_seq(s@).take(i - 1).push(
                u,
            ));
        }
    }
    proof {
        assert(ascii_upper_seq(s@).take(cs@.len() as int) =~= ascii_upper_seq(s@));
    }
    out
}

/// Whether `pat` occurs in `cs` at index `i`.
pub fn occurs_at_exec(cs: &[char], pat: &[char], i: usize) -> (r: bool)
    ensures
        r == occurs_at(cs@, pat@, i as int),
{
    if pat.len() > cs.len() || i > cs.len() - pat.len() {
        return false;
    }
    let mut j: usize = 0;
    while j < pat.len()
        invariant
            j <= pat@.len(),
            i + pat@.len() <= cs@.len() <= usize::MAX,
            forall|k: int| 0 <= k < j ==> cs@[i + k] == pat@[k],
        decreases pat@.len() - j,
    {
        if cs[i + j] != pat[j] {
            proof {
                assert(cs@.subrange(i as int, i + pat@.len())[j as int] != pat@[j as int]);
            }
            return false;
        }
        j += 1;
    }
    proof {
        assert(cs@.subrange(i as int, i + pat@.len()) =~= pat@);
    }
    true
}

/// The first index at or after `from` where `pat` occurs in `cs`.
pub fn find_from_exec(cs: &[char], pat: &[char], from: usize) -> (r: Option<usize>)
    ensures
        r matches Some(k) ==> find_from(cs@, pat@, from as int) == Some(k as int),
        r is None ==> find_from(cs@, pat@, from as int) is None,
{
    if pat.len() > cs.len() {
        return None;
    }
    if pat.len() == 0 {
        if from <= cs.len() {
            proof {
                assert(cs@.subrange(from as int, from as int) =~= pat@);
            }
            return Some(from);
        }
        return None;
    }
    let mut i: usize = from;
    while i <= cs.len() - pat.len()
        invariant
            0 < pat@.len() <= cs@.len(),
            from <= i,
            find_from(cs@, pat@, from as int) == find_from(cs@, pat@, i as int),
        decreases cs@.len() - i,
    {
        if occurs_at_exec(cs, pat, i) {
            return Some(i);
        }
        i += 1;
    }
    None
}

/// Whether `cs` begins with `p`.
pub fn has_prefix_exec(cs: &[char], p: &[char]) -> (r: bool)
    ensures
        r == has_prefix(cs@, p@),
{
    occurs_at_exec(cs, p, 0)
}

/// Strict lexicographic order of character sequences, by code point (the
/// order of `String`'s `Ord`).
pub open spec fn str_lt(a: Seq<char>, b: Seq<char>) -> bool
    decreases a.len(),
{
    if a.len() == 0 {
        b.len() > 0
    } else if b.len() == 0 {
        false
    } else if a[0] != b[0] {
        a[0] < b[0]
    } else {
        str_lt(a.drop_first(), b.drop_first())
    }
}

/// No sequence is below itself.
pub proof fn lemma_str_lt_irreflexive(a: Seq<char>)
    ensures
        !str_lt(a, a),
    decreases a.len(),
{
    if a.len() > 0 {
        lemma_str_lt_irreflexive(a.drop_first());
    }
}

/// The order is transitive.
pub proof fn lemma_str_lt_transitive(a: Seq<char>, b: Seq<char>, c: Seq<char>)
    requires
        str_lt(a, b),
        str_lt(b, c),
    ensures
        str_lt(a, c),
    decreases a.len(),
{
    if a.len() > 0 && b.len() > 0 && c.len() > 0 && a[0] == b[0] && b[0] == c[0] {
        lemma_str_lt_transitive(a.drop_first(), b.drop_first(), c.drop_first());
    }
}

/// Of two different sequences, one is below the other, and never both.
pub proof fn lemma_str_lt_total(a: Seq<char>, b: Seq<char>)
    ensures
        a != b ==> (str_lt(a, b) || str_lt(b, a)),
        !(str_lt(a, b) && str_lt(b, a)),
    decreases a.len(),
{
    if a.len() > 0 && b.len() > 0 {
        if a[0] == b[0] {
            lemma_str_lt_total(a.drop_first(), b.drop_first());
            if a.drop_first() == b.drop_first() {
                assert(a =~= seq![a[0]] + a.drop_first());
                assert(b =~= seq![b[0]] + b.drop_first());
            }
        }
    } else if a.len() == 0 && b.len() == 0 {
        assert(a =~= b);
    }
}

/// Whether `a` is strictly below `b`.
pub fn str_less(a: &[char], b: &[char]) -> (r: bool)
    ensures
        r == str_lt(a@, b@),
{
    let mut i: usize = 0;
    proof {
        assert(a@.skip(0) =~= a@);
        assert(b@.skip(0) =~= b@);
    }
    while i < a.len() && i < b.len()
        invariant
            i <= a@.len(),
            i <= b@.len(),
            str_lt(a@, b@) == str_lt(a@.skip(i as int), b@.skip(i as int)),
        decreases a@.len() - i,
    {
        if a[i] != b[i] {
            proof {
                assert(a@.skip(i as int)[0] == a@[i as int]);
                assert(b@.skip(i as int)[0] == b@[i as int]);
            }
            return a[i] < b[i];
        }
        proof {
            assert(a@.skip(i as int).drop_first() =~= a@.skip(i + 1));
            assert(b@.skip(i as int).drop_first() =~= b@.skip(i + 1));
        }
        i += 1;
    }
    i == a.len() && i < b.len()
}

/// Whether `a` and `b` hold the same characters.
pub fn chars_eq(a: &[char], b: &[char]) -> (r: bool)
    ensures
        r == (a@ == b@),
{
    if a.len() != b.len() {
        return false;
    }
    let mut i: usize = 0;
    while i < a.len()
        invariant
            i <= a@.len() == b@.len(),
            forall|k: int| 0 <= k < i ==> a@[k] == b@[k],
        decreases a@.len() - i,
    {
        if a[i] != b[i] {
            return false;
        }
        i += 1;
    }
    proof {
        assert(a@ =~= b@);
    }
    true
}

/// The lines of `s` from index `pos` on (`str::lines`): split at `\n`; a
/// line ended by `\r\n` loses the `\r`; a final line ending is optional.
pub open spec fn lines_from(s: Seq<char>, pos: int) -> Seq<Seq<char>>
    decreases s.len() - pos,
{
    if pos < 0 || pos >= s.len() {
        Seq::empty()
    } else {
        match find_from(s, seq!['\n'], pos) {
            None => seq![s.subrange(pos, s.len() as int)],
            Some(i) => {
                let line = s.subrange(pos, i);
                let line = if line.len() > 0 && line.last() == '\r' {
                    line.drop_last()
                } else {
                    line
                };
                proof {
                    lemma_find_from(s, seq!['\n'], pos);
                }
                seq![line] + lines_from(s, i + 1)
            },
        }
    }
}

/// The lines of `s` (`str::lines`).
pub open spec fn lines_of(s: Seq<char>) -> Seq<Seq<char>> {
    lines_from(s, 0)
}

/// The views of a list of strings.
pub open spec fn string_views(v: Seq<String>) -> Seq<Seq<char>> {
    v.map_values(|s: String| s@)
}

/// The lines of `s`, each as a string.
pub fn split_lines(s: &str) -> (v: Vec<String>)
    ensures
        string_views(v@) == lines_of(s@),
{
    let cs = chars_of(s);
    let n = cs.len();
    let nl = vec!['\n'];
    proof {
        assert(nl@ =~= seq!['\n']);
    }
    let mut out: Vec<String> = Vec::new();
    let mut pos: usize = 0;
    while pos < n
        invariant
            n == cs@.len(),
            cs@ == s@,
            nl@ == seq!['\n'],
            pos <= n,
            lines_of(s@) == string_views(out@) + lines_from(cs@, pos as int),
        decreases n - pos,
    {
        let ghost before = string_views(out@);
        match find_from_exec(cs.as_slice(), nl.as_slice(), pos) {
            None => {
                let line = string_of_range(cs.as_slice(), pos, n);
                out.push(line);
                proof {
                    assert(string_views(out@) =~= before.push(line@));
                    assert(lines_from(cs@, n as int) =~= Seq::<Seq<char>>::empty());
                    assert(before + seq![line@] =~= string_views(out@) + lines_from(cs@, n as int));
                }
                pos = n;
            },
            Some(i) => {
                proof {
                    lemma_find_from(cs@, seq!['\n'], pos as int);
                }
                let end = if i > pos && cs[i - 1] == '\r' {
                    i - 1
                } else {
                    i
                };
                let line = string_of_range(cs.as_slice(), pos, end);
                proof {
                    let l = cs@.subrange(pos as int, i as int);
                    if i > pos && cs@[i - 1] == '\r' {
                        assert(l.drop_last() =~= cs@.subrange(pos as int, end as int));
                    }
                }
                out.push(line);
                proof {
                    assert(string_views(out@) =~= before.push(line@));
                    assert(before + (seq![line@] + lines_from(cs@, i + 1)) =~= string_views(out@)
                        + lines_from(cs@, i + 1));
                }
                pos = i + 1;
            },
        }
    }
    proof {
        assert(lines_from(cs@, pos as int) =~= Seq::<Seq<char>>::empty());
        assert(string_views(out@) + Seq::<Seq<char>>::empty() =~= string_views(out@));
    }
    out
}

/// The pieces of `xs` joined with `sep` between neighbours (`[..].join(sep)`).
pub open spec fn join_with(xs: Seq<Seq<char>>, sep: Seq<char>) -> Seq<char>
    decreases xs.len(),
{
    if xs.len() == 0 {
        Seq::empty()
    } else if xs.len() == 1 {
        xs[0]
    } else {
        join_with(xs.drop_last(), sep) + sep + xs.last()
    }
}

/// The strings `xs` joined with `sep` between neighbours.
pub fn join_strings(xs: &[String], sep: &str) -> (r: String)
    ensures
        r@ == join_with(string_views(xs@), sep@),
{
    let mut out = String::new();
    let sc = chars_of(sep);
    let mut i: usize = 0;
    while i < xs.len()
        invariant
            i <= xs@.len(),
            sc@ == sep@,
            out@ == join_with(string_views(xs@).take(i as int), sep@),
        decreases xs@.len() - i,
    {
        let ghost prev = string_views(xs@).take(i as int);
        if i > 0 {
            push_all(&mut out, sc.as_slice());
        }
        let xc = chars_of(xs[i].as_str());
        push_all(&mut out, xc.as_slice());
        proof {
            let next = string_views(xs@).take(i + 1);
            assert(next.drop_last() =~= prev);
            assert(next.last() == xs@[i as int]@);
            if i == 0 {
                assert(next.len() == 1);
                assert(out@ =~= next[0]);
            }
        }
        i += 1;
    }
    proof {
        assert(string_views(xs@).take(xs@.len() as int) =~= string_views(xs@));
    }
    out
}


/// Joining splits off the first piece: the first piece, the separator, then
/// the rest joined.
pub proof fn lemma_join_front(xs: Seq<Seq<char>>, sep: Seq<char>)
    requires
        xs.len() >= 2,
    ensures
        join_with(xs, sep) == xs[0] + sep + join_with(xs.drop_first(), sep),
    decreases xs.len(),
{
    if xs.len() == 2 {
        assert(xs.drop_last().len() == 1);
        assert(xs.drop_first().len() == 1);
        assert(join_with(xs.drop_last(), sep) == xs.drop_last()[0]);
        assert(xs.drop_last()[0] == xs[0]);
        assert(join_with(xs.drop_first(), sep) == xs.drop_first()[0]);
        assert(xs.drop_first()[0] == xs[1]);
        assert(join_with(xs, sep) == join_with(xs.drop_last(), sep) + sep + xs.last());
    } else {
        lemma_join_front(xs.drop_last(), sep);
        assert(xs.drop_last()[0] == xs[0]);
        assert(xs.drop_last().drop_first() =~= xs.drop_first().drop_last());
        assert(xs.drop_first().last() == xs.last());
        assert(join_with(xs, sep) == join_with(xs.drop_last(), sep) + sep + xs.last());
        assert(join_with(xs.drop_first(), sep) == join_with(xs.drop_first().drop_last(), sep) + sep
            + xs.drop_first().last());
        assert(join_with(xs, sep) =~= xs[0] + sep + join_with(xs.drop_first(), sep));
    }
}

/// `c` does not occur in `s`.
pub open spec fn lacks(s: Seq<char>, c: char) -> bool {
    forall|i: int| 0 <= i < s.len() ==> s[i] != c
}

/// The search for a one-character pattern finds its first occurrence.
pub proof fn lemma_find_char(s: Seq<char>, c: char, pos: int, e: int)
    requires
        0 <= pos <= e <= s.len(),
        forall|j: int| pos <= j < e ==> s[j] != c,
    ensures
        e < s.len() && s[e] == c ==> find_from(s, seq![c], pos) == Some(e),
        e == s.len() ==> find_from(s, seq![c], pos) is None,
{
    lemma_find_from(s, seq![c], pos);
    assert forall|j: int| pos <= j < s.len() implies occurs_at(s, seq![c], j) == (s[j] == c) by {
        if s[j] == c {
            assert(s.subrange(j, j + 1) =~= seq![c]);
        } else {
            assert(s.subrange(j, j + 1)[0] == s[j]);
        }
    }
    if e < s.len() && s[e] == c {
        match find_from(s, seq![c], pos) {
            Some(k) => {
                if k < e {
                    assert(s[k] == c);
                } else if k > e {
                    assert(occurs_at(s, seq![c], e));
                }
            },
            None => {
                assert(occurs_at(s, seq![c], e));
            },
        }
    }
    if e == s.len() {
        match find_from(s, seq![c], pos) {
            Some(k) => {
                assert(s[k] == c);
            },
            None => {},
        }
    }
}

/// Lines that hold no newline and do not end in a carriage return, the last
/// one not empty, are read back by `str::lines` from their newline-joined
/// text, whatever text comes before it.
proof fn lemma_lines_after_join(pre: Seq<char>, ls: Seq<Seq<char>>)
    requires
        ls.len() >= 1,
        forall|i: int| 0 <= i < ls.len() ==> lacks(#[trigger] ls[i], '\n'),
        forall|i: int| 0 <= i < ls.len() && ls[i].len() > 0 ==> (#[trigger] ls[i]).last() != '\r',
        ls.last().len() > 0,
    ensures
        lines_from(pre + join_with(ls, seq!['\n']), pre.len() as int) == ls,
    decreases ls.len(),
{
    let s = pre + join_with(ls, seq!['\n']);
    let p = pre.len() as int;
    let l0 = ls[0];
    if ls.len() == 1 {
        assert(s =~= pre + l0);
        lemma_find_char(s, '\n', p, s.len() as int);
        assert(s.subrange(p, s.len() as int) =~= l0);
        assert(lines_from(s, p) =~= seq![l0]);
        assert(seq![l0] =~= ls);
    } else {
        lemma_join_front(ls, seq!['\n']);
        let rest = ls.drop_first();
        let pre2 = pre + l0 + seq!['\n'];
        assert(s =~= pre2 + join_with(rest, seq!['\n']));
        let e = p + l0.len();
        assert forall|j: int| p <= j < e implies s[j] != '\n' by {
            assert(s[j] == l0[j - p]);
        }
        assert(s[e] == '\n');
        lemma_find_char(s, '\n', p, e);
        assert(s.subrange(p, e) =~= l0);
        assert forall|i: int| 0 <= i < rest.len() implies lacks(#[trigger] rest[i], '\n') by {
            assert(rest[i] == ls[i + 1]);
        }
        assert forall|i: int| 0 <= i < rest.len() && rest[i].len() > 0 implies (
        #[trigger] rest[i]).last() != '\r' by {
            assert(rest[i] == ls[i + 1]);
        }
        lemma_lines_after_join(pre2, rest);
        assert(pre2.len() == e + 1);
        assert(lines_from(s, p) == seq![l0] + lines_from(s, e + 1));
        assert(seq![l0] + rest =~= ls);
    }
}

/// `str::lines` reads back lines joined by newlines when no line holds a
/// newline or ends in a carriage return, and the last one is not empty.
pub proof fn lemma_lines_of_join(ls: Seq<Seq<char>>)
    requires
        ls.len() >= 1,
        forall|i: int| 0 <= i < ls.len() ==> lacks(#[trigger] ls[i], '\n'),
        forall|i: int| 0 <= i < ls.len() && ls[i].len() > 0 ==> (#[trigger] ls[i]).last() != '\r',
        ls.last().len() > 0,
    ensures
        lines_of(join_with(ls, seq!['\n'])) == ls,
{
    let e = Seq::<char>::empty();
    lemma_lines_after_join(e, ls);
    assert(e + join_with(ls, seq!['\n']) =~= join_with(ls, seq!['\n']));
}

/// `s` holds no carriage return directly before a newline and does not end
/// with a newline.
pub open spec fn plain_line_breaks(s: Seq<char>) -> bool {
    &&& forall|i: int| 0 < i < s.len() && #[trigger] s[i] == '\n' ==> s[i - 1] != '\r'
    &&& (s.len() > 0 ==> s.last() != '\n')
}

/// Joining the lines of `s` from `pos` with newlines gives the rest of `s`
/// back.
proof fn lemma_join_lines_from(s: Seq<char>, pos: int)
    requires
        plain_line_breaks(s),
        0 <= pos < s.len(),
    ensures
        join_with(lines_from(s, pos), seq!['\n']) == s.subrange(pos, s.len() as int),
    decreases s.len() - pos,
{
    lemma_find_from(s, seq!['\n'], pos);
    match find_from(s, seq!['\n'], pos) {
        None => {},
        Some(i) => {
            assert(s.subrange(i, i + 1) =~= seq!['\n']);
            assert(s[i] == s.subrange(i, i + 1)[0]);
            let line = s.subrange(pos, i);
            if line.len() > 0 {
                assert(line.last() == s[i - 1]);
            }
            assert(i + 1 < s.len());
            lemma_join_lines_from(s, i + 1);
            let rest = lines_from(s, i + 1);
            assert(rest.len() >= 1);
            let all = seq![line] + rest;
            assert(lines_from(s, pos) == all);
            lemma_join_front(all, seq!['\n']);
            assert(all.drop_first() =~= rest);
            assert(all[0] == line);
            assert(s.subrange(pos, s.len() as int) =~= line + seq!['\n'] + s.subrange(
                i + 1,
                s.len() as int,
            ));
        },
    }
}

/// Joining the lines of a non-empty `s` with newlines gives `s` back when it
/// has no carriage return before a newline and no final newline.
pub proof fn lemma_join_of_lines(s: Seq<char>)
    requires
        plain_line_breaks(s),
        s.len() > 0,
    ensures
        join_with(lines_of(s), seq!['\n']) == s,
{
    lemma_join_lines_from(s, 0);
    assert(s.subrange(0, s.len() as int) =~= s);
}

} // verus!
