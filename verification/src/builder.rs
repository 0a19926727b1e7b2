//! Turning a stored request into the request to send: environment
//! resolution, `{{var}}` interpolation and URL resolution.

use vstd::prelude::*;
use crate::error::ApiTesterError;
use crate::interpolate::{interp, interpolate};
use crate::model::{Collection, Request};
use crate::strmap::StringMap;
use crate::text::{ascii_upper_seq, chars_eq, chars_of, has_prefix, has_prefix_exec, push_all,
    to_ascii_upper};

verus! {

/// The request as it goes out: method upper-cased, URL resolved, and every
/// value interpolated. Query parameters and headers are in ascending key
/// order.
pub struct EffectiveRequest {
    pub method: String,
    pub url: String,
    pub query: Vec<(String, String)>,
    pub headers: Vec<(String, String)>,
    pub body: Option<String>,
}

/// The plain-value form of an [`EffectiveRequest`].
pub struct EffectiveSpec {
    pub method: Seq<char>,
    pub url: Seq<char>,
    pub query: Seq<(Seq<char>, Seq<char>)>,
    pub headers: Seq<(Seq<char>, Seq<char>)>,
    pub body: Option<Seq<char>>,
}

/// The views of a list of string pairs.
pub open spec fn pair_views(v: Seq<(String, String)>) -> Seq<(Seq<char>, Seq<char>)> {
    v.map_values(|p: (String, String)| (p.0@, p.1@))
}

impl View for EffectiveRequest {
    type V = EffectiveSpec;

    open spec fn view(&self) -> EffectiveSpec {
        EffectiveSpec {
            method: self.method@,
            url: self.url@,
            query: pair_views(self.query@),
            headers: pair_views(self.headers@),
            body: match self.body {
                Some(b) => Some(b@),
                None => None,
            },
        }
    }
}

/// The name of the base environment, `default`.
pub open spec fn default_env_name() -> Seq<char> {
    seq!['d', 'e', 'f', 'a', 'u', 'l', 't']
}

/// The variables of environment `name`: those of `default`, overlaid by
/// those of `name` when that is another environment that exists.
pub open spec fn env_overlay(
    envs: Map<Seq<char>, Map<Seq<char>, Seq<char>>>,
    name: Seq<char>,
) -> Map<Seq<char>, Seq<char>> {
    let base = if envs.contains_key(default_env_name()) {
        envs[default_env_name()]
    } else {
        Map::empty()
    };
    if name != default_env_name() && envs.contains_key(name) {
        base.union_prefer_right(envs[name])
    } else {
        base
    }
}

/// Merges `[env.default]` then `[env.<name>]`: the named environment's
/// values override the default's.
pub fn resolve_env(coll: &Collection, env_name: &str) -> (r: StringMap<String>)
    ensures
        r@ == env_overlay(coll.env@, env_name@),
{
    let mut vars: StringMap<String> = match coll.env.get("default") {
        Some(d) => d.duplicate(),
        None => StringMap::new(),
    };
    proof {
        reveal_strlit("default");
        assert("default"@ =~= default_env_name());
    }
    let name = chars_of(env_name);
    let dflt = chars_of("default");
    if !chars_eq(name.as_slice(), dflt.as_slice()) {
        if let Some(specific) = coll.env.get(env_name) {
            vars.extend_with(specific);
        }
    }
    vars
}

/// `s` without its trailing characters `c` (`trim_end_matches(c)`).
pub open spec fn strip_trailing(s: Seq<char>, c: char) -> Seq<char>
    decreases s.len(),
{
    if s.len() > 0 && s.last() == c {
        strip_trailing(s.drop_last(), c)
    } else {
        s
    }
}

/// `http://`
pub open spec fn http_scheme() -> Seq<char> {
    seq!['h', 't', 't', 'p', ':', '/', '/']
}

/// `https://`
pub open spec fn https_scheme() -> Seq<char> {
    seq!['h', 't', 't', 'p', 's', ':', '/', '/']
}

/// An absolute URL (`http://` or `https://`) is kept; a relative one is joined
/// onto the base URL, whose trailing slashes are dropped, with exactly the
/// one slash between them that the relative URL does not already begin with.
/// Without a base URL the URL is kept.
pub open spec fn resolve_url_spec(url: Seq<char>, base: Option<Seq<char>>) -> Seq<char> {
    if has_prefix(url, http_scheme()) || has_prefix(url, https_scheme()) {
        url
    } else {
        match base {
            None => url,
            Some(b) => {
                let b = strip_trailing(b, '/');
                if has_prefix(url, seq!['/']) {
                    b + url
                } else {
                    b + seq!['/'] + url
                }
            },
        }
    }
}

/// The interpolation of each value of `ps`, keys kept, or the name of the
/// first undefined variable.
pub open spec fn interp_pairs(
    ps: Seq<(Seq<char>, Seq<char>)>,
    vars: Map<Seq<char>, Seq<char>>,
    os_env: Map<Seq<char>, Seq<char>>,
) -> Result<Seq<(Seq<char>, Seq<char>)>, Seq<char>>
    decreases ps.len(),
{
    if ps.len() == 0 {
        Ok(Seq::empty())
    } else {
        match interp(ps[0].1, vars, os_env) {
            Err(k) => Err(k),
            Ok(v) => match interp_pairs(ps.drop_first(), vars, os_env) {
                Err(k) => Err(k),
                Ok(rest) => Ok(seq![(ps[0].0, v)] + rest),
            },
        }
    }
}

/// The effective request: the URL is interpolated then resolved, then the
/// headers and the query parameters are interpolated in ascending key order,
/// then the body; the first undefined variable met is the error.
pub open spec fn effective_spec(
    req: Request,
    base: Option<Seq<char>>,
    vars: Map<Seq<char>, Seq<char>>,
    os_env: Map<Seq<char>, Seq<char>>,
) -> Result<EffectiveSpec, Seq<char>> {
    match interp(req.url@, vars, os_env) {
        Err(k) => Err(k),
        Ok(u) => match interp_pairs(req.headers.pairs(), vars, os_env) {
            Err(k) => Err(k),
            Ok(h) => match interp_pairs(req.query.pairs(), vars, os_env) {
                Err(k) => Err(k),
                Ok(q) => {
                    let body: Result<Option<Seq<char>>, Seq<char>> = match req.body {
                        None => Ok(None),
                        Some(b) => match interp(b.content@, vars, os_env) {
                            Err(k) => Err(k),
                            Ok(t) => Ok(Some(t)),
                        },
                    };
                    match body {
                        Err(k) => Err(k),
                        Ok(bo) => Ok(
                            EffectiveSpec {
                                method: ascii_upper_seq(req.method@),
                                url: resolve_url_spec(u, base),
                                query: q,
                                headers: h,
                                body: bo,
                            },
                        ),
                    }
                },
            },
        },
    }
}

/// A string option's view.
pub open spec fn opt_view(o: Option<&str>) -> Option<Seq<char>> {
    match o {
        Some(s) => Some(s@),
        None => None,
    }
}

/// The interpolated values of `map`, keys kept, in ascending key order.
fn interpolate_pairs(
    map: &StringMap<String>,
    vars: &StringMap<String>,
    os_env: &StringMap<String>,
) -> (res: Result<Vec<(String, String)>, ApiTesterError>)
    ensures
        match interp_pairs(map.pairs(), vars@, os_env@) {
            Ok(ps) => res matches Ok(v) && pair_views(v@) == ps,
            Err(k) => res matches Err(ApiTesterError::UndefinedVar(name)) && name@ == k,
        },
{
    proof {
        use_type_invariant(map);
        map.lemma_pairs();
        assert(map.pairs().skip(0) =~= map.pairs());
    }
    let n = map.len();
    let mut out: Vec<(String, String)> = Vec::new();
    let mut i: usize = 0;
    while i < n
        invariant
            n == map.pairs().len(),
            n == map.keys().len(),
            forall|j: int| 0 <= j < n ==> #[trigger] map.pairs()[j].0 == map.keys()[j],
            i <= n,
            interp_pairs(map.pairs(), vars@, os_env@) == match interp_pairs(
                map.pairs().skip(i as int),
                vars@,
                os_env@,
            ) {
                Ok(rest) => Ok(pair_views(out@) + rest),
                Err(k) => Err(k),
            },
        decreases n - i,
    {
        let ghost ps = map.pairs().skip(i as int);
        proof {
            assert(ps.drop_first() =~= map.pairs().skip(i + 1));
            assert(ps[0] == map.pairs()[i as int]);
        }
        let v = interpolate(map.value_at(i).as_str(), vars, os_env)?;
        let k = map.key_at(i).clone();
        let ghost before = pair_views(out@);
        proof {
            assert(k@ == ps[0].0);
            assert(interp(ps[0].1, vars@, os_env@) == Ok::<Seq<char>, Seq<char>>(v@));
            assert(interp_pairs(ps, vars@, os_env@) == match interp_pairs(ps.drop_first(), vars@, os_env@) {
                Ok(rest) => Ok(seq![(ps[0].0, v@)] + rest),
                Err(k) => Err(k),
            });
        }
        out.push((k, v));
        proof {
            assert(pair_views(out@) =~= before.push((k@, v@)));
            match interp_pairs(map.pairs().skip(i + 1), vars@, os_env@) {
                Ok(rest) => {
                    assert(before + (seq![(k@, v@)] + rest) =~= pair_views(out@) + rest);
                },
                Err(_) => {},
            }
        }
        i += 1;
    }
    proof {
        assert(map.pairs().skip(n as int) =~= Seq::<(Seq<char>, Seq<char>)>::empty());
        assert(pair_views(out@) + Seq::<(Seq<char>, Seq<char>)>::empty() =~= pair_views(out@));
    }
    Ok(out)
}

/// Builds the request to send from `req`: interpolates the URL, headers,
/// query and body with `env_vars` (falling back to `os_env`, the OS
/// environment's values), resolves the URL against `base_url`, and
/// upper-cases the method. Headers and query parameters come out in
/// ascending key order.
pub fn build_effective(
    req: &Request,
    base_url: Option<&str>,
    env_vars: &StringMap<String>,
    os_env: &StringMap<String>,
) -> (res: Result<EffectiveRequest, ApiTesterError>)
    ensures
        match effective_spec(*req, opt_view(base_url), env_vars@, os_env@) {
            Ok(e) => res matches Ok(r) && r@ == e,
            Err(k) => res matches Err(ApiTesterError::UndefinedVar(name)) && name@ == k,
        },
{
    let url_resolved = interpolate(req.url.as_str(), env_vars, os_env)?;
    let url = resolve_url(url_resolved.as_str(), base_url);
    let headers = interpolate_pairs(&req.headers, env_vars, os_env)?;
    let query = interpolate_pairs(&req.query, env_vars, os_env)?;
    let body = match &req.body {
        Some(b) => Some(interpolate(b.content.as_str(), env_vars, os_env)?),
        None => None,
    };
    let method = to_ascii_upper(req.method.as_str());
    Ok(EffectiveRequest { method, url, query, headers, body })
}

/// Joins a relative URL onto the base URL (see [`resolve_url_spec`]).
pub fn resolve_url(url: &str, base_url: Option<&str>) -> (r: String)
    ensures
        r@ == resolve_url_spec(url@, opt_view(base_url)),
{
    let u = chars_of(url);
    let http = chars_of("http://");
    let https = chars_of("https://");
    let slash = chars_of("/");
    proof {
        reveal_strlit("http://");
        reveal_strlit("https://");
        reveal_strlit("/");
        assert(http@ =~= http_scheme());
        assert(https@ =~= https_scheme());
        assert(slash@ =~= seq!['/']);
    }
    if has_prefix_exec(u.as_slice(), http.as_slice()) || has_prefix_exec(
        u.as_slice(),
        https.as_slice(),
    ) {
        return String::from_str(url);
    }
    match base_url {
        None => String::from_str(url),
        Some(base) => {
            let b = chars_of(base);
            let mut end = b.len();
            proof {
                assert(b@.take(end as int) =~= b@);
            }
            while end > 0 && b[end - 1] == '/'
                invariant
                    end <= b@.len(),
                    strip_trailing(base@, '/') == strip_trailing(b@.take(end as int), '/'),
                    b@ == base@,
                decreases end,
            {
                proof {
                    assert(b@.take(end as int).drop_last() =~= b@.take(end - 1));
                }
                end -= 1;
            }
            proof {
                if end == b@.len() {
                    assert(b@.take(end as int) =~= b@);
                }
            }
            let mut out = String::new();
            push_all(&mut out, &b.as_slice()[0..end]);
            proof {
                assert(b@.subrange(0, end as int) =~= b@.take(end as int));
            }
            if !has_prefix_exec(u.as_slice(), slash.as_slice()) {
                out.push('/');
            }
            push_all(&mut out, u.as_slice());
            out
        },
    }
}

} // verus!
