//! The external editor's command line: which editor, how its command splits
//! into a program and arguments, and the temporary file it edits.

use vstd::prelude::*;
use crate::history::{decimal, push_padded};
use crate::text::{chars_of, is_ws, is_ws_char, push_all, string_of_range, string_views};

verus! {

/// The end of the word of `s` that runs from `i`: the first white space at
/// or after `i`, or the end.
pub open spec fn word_end(s: Seq<char>, i: int) -> int
    decreases s.len() - i,
{
    if i < 0 || i >= s.len() || is_ws(s[i]) {
        i
    } else {
        word_end(s, i + 1)
    }
}

/// A word runs from `i` to its end, which lies past `i` when `s[i]` is not
/// white space.
pub proof fn lemma_word_end(s: Seq<char>, i: int)
    requires
        0 <= i <= s.len(),
    ensures
        i <= word_end(s, i) <= s.len(),
        i < s.len() && !is_ws(s[i]) ==> word_end(s, i) > i,
        forall|j: int| i <= j < word_end(s, i) ==> !is_ws(#[trigger] s[j]),
        word_end(s, i) < s.len() ==> is_ws(s[word_end(s, i)]),
    decreases s.len() - i,
{
    if i < s.len() && !is_ws(s[i]) {
        lemma_word_end(s, i + 1);
    }
}

/// The words of `s` from `i` on: the runs of characters between white
/// space (`str::split_whitespace`).
pub open spec fn words_from(s: Seq<char>, i: int) -> Seq<Seq<char>>
    decreases s.len() - i,
{
    if i < 0 || i >= s.len() {
        Seq::empty()
    } else if is_ws(s[i]) {
        words_from(s, i + 1)
    } else {
        let e = word_end(s, i);
        proof {
            lemma_word_end(s, i);
        }
        seq![s.subrange(i, e)] + words_from(s, e)
    }
}

/// The words of `s` (`str::split_whitespace`).
pub open spec fn words(s: Seq<char>) -> Seq<Seq<char>> {
    words_from(s, 0)
}

/// The editor to run: `$VISUAL`, else `$EDITOR`, else `notepad` on Windows
/// and `vi` elsewhere.
pub open spec fn editor_choice(visual: Option<Seq<char>>, editor: Option<Seq<char>>, windows: bool) -> Seq<char> {
    match (visual, editor) {
        (Some(v), _) => v,
        (None, Some(e)) => e,
        (None, None) => if windows {
            "notepad"@
        } else {
            "vi"@
        },
    }
}

/// The editor to run (see [`editor_choice`]).
pub fn editor_command(visual: Option<String>, editor: Option<String>, windows: bool) -> (r: String)
    ensures
        r@ == editor_choice(
            match visual {
                Some(v) => Some(v@),
                None => None,
            },
            match editor {
                Some(e) => Some(e@),
                None => None,
            },
            windows,
        ),
{
    match (visual, editor) {
        (Some(v), _) => v,
        (None, Some(e)) => e,
        (None, None) => if windows {
            String::from_str("notepad")
        } else {
            String::from_str("vi")
        },
    }
}

/// The words of `cmd` (see [`words`]).
pub fn split_words(cmd: &str) -> (r: Vec<String>)
    ensures
        string_views(r@) == words(cmd@),
{
    let cs = chars_of(cmd);
    let n = cs.len();
    let mut out: Vec<String> = Vec::new();
    let mut i: usize = 0;
    while i < n
        invariant
            n == cs@.len(),
            cs@ == cmd@,
            i <= n,
            words(cmd@) == string_views(out@) + words_from(cs@, i as int),
        decreases n - i,
    {
        let ghost before = string_views(out@);
        if is_ws_char(cs[i]) {
            i += 1;
        } else {
            let mut e = i;
            while e < n && !is_ws_char(cs[e])
                invariant
                    n == cs@.len(),
                    i <= e <= n,
                    word_end(cs@, i as int) == word_end(cs@, e as int),
                decreases n - e,
            {
                e += 1;
            }
            proof {
                lemma_word_end(cs@, i as int);
            }
            let w = string_of_range(cs.as_slice(), i, e);
            out.push(w);
            proof {
                assert(word_end(cs@, i as int) == e);
                assert(string_views(out@) =~= before.push(w@));
                assert(before + (seq![w@] + words_from(cs@, e as int)) =~= string_views(out@)
                    + words_from(cs@, e as int));
            }
            i = e;
        }
    }
    proof {
        assert(words_from(cs@, n as int) =~= Seq::<Seq<char>>::empty());
        assert(string_views(out@) + Seq::<Seq<char>>::empty() =~= string_views(out@));
    }
    out
}

/// The program of an editor command and its arguments: the first word and
/// the rest; `notepad` when the command has no words.
pub fn command_parts(cmd: &str) -> (r: (String, Vec<String>))
    ensures
        words(cmd@).len() > 0 ==> r.0@ == words(cmd@)[0] && string_views(r.1@) == words(
            cmd@,
        ).drop_first(),
        words(cmd@).len() == 0 ==> r.0@ == "notepad"@ && r.1@.len() == 0,
{
    let mut ws = split_words(cmd);
    if ws.len() == 0 {
        return (String::from_str("notepad"), Vec::new());
    }
    let ghost all = string_views(ws@);
    let program = ws.remove(0);
    proof {
        assert(string_views(ws@) =~= all.drop_first());
    }
    (program, ws)
}

/// The temporary file the body is edited in, for process `pid`.
pub fn body_file_name(pid: u32) -> (r: String)
    ensures
        r@ == "apitester-body-"@ + decimal(pid as nat) + ".json"@,
{
    let mut r = String::from_str("apitester-body-");
    push_padded(&mut r, pid as u64, 0);
    let ext = chars_of(".json");
    push_all(&mut r, ext.as_slice());
    r
}

} // verus!
