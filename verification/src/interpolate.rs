//! `{{var}}` substitution.

use vstd::prelude::*;
use crate::error::ApiTesterError;
use crate::strmap::StringMap;
use crate::text::{chars_of, find_from, find_from_exec, lemma_find_from, push_all, string_of_range,
    trim, trim_str};

verus! {

/// The opening delimiter `{{`.
pub open spec fn open_delim() -> Seq<char> {
    seq!['{', '{']
}

/// The closing delimiter `}}`.
pub open spec fn close_delim() -> Seq<char> {
    seq!['}', '}']
}

/// What `{{key}}` stands for: the collection's variable of that name, else
/// the OS environment's.
pub open spec fn lookup_var(
    vars: Map<Seq<char>, Seq<char>>,
    os_env: Map<Seq<char>, Seq<char>>,
    key: Seq<char>,
) -> Option<Seq<char>> {
    if vars.contains_key(key) {
        Some(vars[key])
    } else if os_env.contains_key(key) {
        Some(os_env[key])
    } else {
        None
    }
}

/// `r` with `prefix` put in front of its text (an error stays as it is).
pub open spec fn prepend(prefix: Seq<char>, r: Result<Seq<char>, Seq<char>>) -> Result<
    Seq<char>,
    Seq<char>,
> {
    match r {
        Ok(t) => Ok(prefix + t),
        Err(k) => Err(k),
    }
}

/// Interpolation of `s` from index `pos` on. The first `{{` is closed by the
/// first `}}` after it; the trimmed text between them is the variable's name.
/// An unclosed `{{` and everything after it is kept as it is. The result is
/// the text or the name of the first undefined variable.
pub open spec fn interp_from(
    s: Seq<char>,
    pos: int,
    vars: Map<Seq<char>, Seq<char>>,
    os_env: Map<Seq<char>, Seq<char>>,
) -> Result<Seq<char>, Seq<char>>
    decreases s.len() - pos,
{
    if pos < 0 || pos > s.len() {
        Ok(Seq::empty())
    } else {
        match find_from(s, open_delim(), pos) {
            None => Ok(s.subrange(pos, s.len() as int)),
            Some(start) => match find_from(s, close_delim(), start + 2) {
                None => Ok(s.subrange(pos, s.len() as int)),
                Some(end) => {
                    let key = trim(s.subrange(start + 2, end));
                    match lookup_var(vars, os_env, key) {
                        None => Err(key),
                        Some(val) => {
                            proof {
                                lemma_find_from(s, open_delim(), pos);
                                lemma_find_from(s, close_delim(), start + 2);
                            }
                            prepend(s.subrange(pos, start) + val, interp_from(s, end + 2, vars, os_env))
                        },
                    }
                },
            },
        }
    }
}

/// Interpolation of the whole of `s`.
pub open spec fn interp(
    s: Seq<char>,
    vars: Map<Seq<char>, Seq<char>>,
    os_env: Map<Seq<char>, Seq<char>>,
) -> Result<Seq<char>, Seq<char>> {
    interp_from(s, 0, vars, os_env)
}

/// The result of [`interpolate`] matches the spec result `r`.
pub open spec fn matches_interp(res: Result<String, ApiTesterError>, r: Result<Seq<char>, Seq<char>>) -> bool {
    match r {
        Ok(t) => res matches Ok(out) && out@ == t,
        Err(k) => res matches Err(ApiTesterError::UndefinedVar(name)) && name@ == k,
    }
}

/// Substitutes every `{{var}}` in `input` with the collection variable of
/// that (trimmed) name, falling back to `os_env`, the values of the OS
/// environment variables. Text without a closing `}}` is kept as it is. An
/// undefined variable is an error that names it.
pub fn interpolate(
    input: &str,
    vars: &StringMap<String>,
    os_env: &StringMap<String>,
) -> (res: Result<String, ApiTesterError>)
    ensures
        matches_interp(res, interp(input@, vars@, os_env@)),
{
    let cs = chars_of(input);
    let n = cs.len();
    let open = vec!['{', '{'];
    let close = vec!['}', '}'];
    proof {
        assert(open@ =~= open_delim());
        assert(close@ =~= close_delim());
    }
    let mut out = String::new();
    let mut pos: usize = 0;
    loop
        invariant
            n == cs@.len(),
            cs@ == input@,
            open@ == open_delim(),
            close@ == close_delim(),
            pos <= n,
            interp(input@, vars@, os_env@) == prepend(out@, interp_from(cs@, pos as int, vars@, os_env@)),
        decreases n - pos,
    {
        let ghost s = cs@;
        match find_from_exec(cs.as_slice(), open.as_slice(), pos) {
            None => {
                push_all(&mut out, &cs.as_slice()[pos..n]);
                return Ok(out);
            },
            Some(start) => {
                proof {
                    lemma_find_from(s, open_delim(), pos as int);
                }
                match find_from_exec(cs.as_slice(), close.as_slice(), start + 2) {
                    None => {
                        push_all(&mut out, &cs.as_slice()[pos..n]);
                        return Ok(out);
                    },
                    Some(end) => {
                        proof {
                            lemma_find_from(s, close_delim(), start + 2);
                        }
                        let raw = string_of_range(cs.as_slice(), start + 2, end);
                        let key = trim_str(raw.as_str());
                        let val: &String = match vars.get(key.as_str()) {
                            Some(v) => v,
                            None => match os_env.get(key.as_str()) {
                                Some(v) => v,
                                None => {
                                    return Err(ApiTesterError::UndefinedVar(key));
                                },
                            },
                        };
                        let ghost before = out@;
                        push_all(&mut out, &cs.as_slice()[pos..start]);
                        let vc = chars_of(val.as_str());
                        push_all(&mut out, vc.as_slice());
                        proof {
                            assert(out@ =~= before + (s.subrange(pos as int, start as int) + val@));
                            let rest = interp_from(s, end + 2, vars@, os_env@);
                            match rest {
                                Ok(t) => {
                                    assert(before + ((s.subrange(pos as int, start as int) + val@)
                                        + t) =~= out@ + t);
                                },
                                Err(k) => {},
                            }
                        }
                        pos = end + 2;
                    },
                }
            },
        }
    }
}

/// The trimmed names of the closed `{{...}}` placeholders of `s` from index
/// `pos` on, in order.
pub open spec fn placeholders_from(s: Seq<char>, pos: int) -> Seq<Seq<char>>
    decreases s.len() - pos,
{
    if pos < 0 || pos > s.len() {
        Seq::empty()
    } else {
        match find_from(s, open_delim(), pos) {
            None => Seq::empty(),
            Some(start) => match find_from(s, close_delim(), start + 2) {
                None => Seq::empty(),
                Some(end) => {
                    proof {
                        lemma_find_from(s, open_delim(), pos);
                        lemma_find_from(s, close_delim(), start + 2);
                    }
                    seq![trim(s.subrange(start + 2, end))] + placeholders_from(s, end + 2)
                },
            },
        }
    }
}

/// Interpolation fails exactly on an undefined placeholder: when every
/// placeholder's name is defined the result is the text, and an error names
/// the first placeholder whose name is undefined.
pub proof fn law_interp_fails_on_first_undefined(
    s: Seq<char>,
    pos: int,
    vars: Map<Seq<char>, Seq<char>>,
    os_env: Map<Seq<char>, Seq<char>>,
)
    requires
        0 <= pos <= s.len(),
    ensures
        (forall|i: int|
            0 <= i < placeholders_from(s, pos).len() ==> #[trigger] lookup_var(
                vars,
                os_env,
                placeholders_from(s, pos)[i],
            ) is Some) ==> interp_from(s, pos, vars, os_env) is Ok,
        interp_from(s, pos, vars, os_env) matches Err(k) ==> exists|i: int|
            0 <= i < placeholders_from(s, pos).len() && placeholders_from(s, pos)[i] == k
                && lookup_var(vars, os_env, k) is None && (forall|j: int|
                0 <= j < i ==> #[trigger] lookup_var(vars, os_env, placeholders_from(s, pos)[j])
                    is Some),
    decreases s.len() - pos,
{
    match find_from(s, open_delim(), pos) {
        None => {},
        Some(start) => {
            lemma_find_from(s, open_delim(), pos);
            match find_from(s, close_delim(), start + 2) {
                None => {},
                Some(end) => {
                    lemma_find_from(s, close_delim(), start + 2);
                    let ph = placeholders_from(s, pos);
                    let rest = placeholders_from(s, end + 2);
                    let key = trim(s.subrange(start + 2, end));
                    assert(ph == seq![key] + rest);
                    assert(ph[0] == key);
                    law_interp_fails_on_first_undefined(s, end + 2, vars, os_env);
                    if forall|i: int|
                        0 <= i < ph.len() ==> #[trigger] lookup_var(vars, os_env, ph[i]) is Some {
                        assert(lookup_var(vars, os_env, ph[0]) is Some);
                        assert forall|i: int| 0 <= i < rest.len() implies #[trigger] lookup_var(
                            vars,
                            os_env,
                            rest[i],
                        ) is Some by {
                            assert(rest[i] == ph[i + 1]);
                        }
                    }
                    match interp_from(s, pos, vars, os_env) {
                        Err(k) => {
                            if lookup_var(vars, os_env, key) is None {
                                assert(ph[0] == k);
                            } else {
                                let i = choose|i: int|
                                    0 <= i < rest.len() && rest[i] == k && lookup_var(
                                        vars,
                                        os_env,
                                        k,
                                    ) is None && (forall|j: int|
                                        0 <= j < i ==> #[trigger] lookup_var(
                                            vars,
                                            os_env,
                                            rest[j],
                                        ) is Some);
                                assert(ph[i + 1] == k);
                                assert forall|j: int| 0 <= j < i + 1 implies #[trigger] lookup_var(
                                    vars,
                                    os_env,
                                    ph[j],
                                ) is Some by {
                                    if j > 0 {
                                        assert(ph[j] == rest[j - 1]);
                                    }
                                }
                            }
                        },
                        Ok(_) => {},
                    }
                },
            }
        },
    }
}

} // verus!
