//! The library's error type.

use vstd::prelude::*;
use std::path::PathBuf;
use crate::text::{chars_of, find_from, find_from_exec, join_strings, join_with, string_views};

verus! {

/// Everything that can go wrong loading a collection, building a request or
/// sending it.
#[derive(Debug)]
pub enum ApiTesterError {
    /// The collection file does not exist.
    CollectionNotFound(PathBuf),
    /// The collection is not valid TOML.
    TomlParse(String),
    /// The method is not a valid HTTP method token.
    InvalidMethod(String),
    /// The URL cannot be used.
    InvalidUrl(String),
    /// `{{name}}` names a variable that neither the environment nor the OS
    /// defines; the payload is the trimmed name.
    UndefinedVar(String),
    /// The HTTP client failed.
    Http(reqwest::Error),
    /// An I/O operation failed.
    Io(std::io::Error),
    /// A file to upload could not be read.
    FileRead { path: String, source: std::io::Error },
    /// The collection could not be decoded.
    TomlDe(toml::de::Error),
    /// The collection could not be encoded.
    TomlSer(toml::ser::Error),
}

/// The message of an error. `detail` is the text of what an outside value in
/// the error says of itself: the path of a missing collection, the
/// classified client failure (see [`classify_reqwest`]), or the text of an
/// I/O or TOML error.
pub open spec fn error_message(e: ApiTesterError, detail: Seq<char>) -> Seq<char> {
    match e {
        ApiTesterError::CollectionNotFound(_) => "collection file not found: "@ + detail,
        ApiTesterError::TomlParse(s) => "invalid TOML: "@ + s@,
        ApiTesterError::InvalidMethod(s) => "invalid HTTP method: "@ + s@,
        ApiTesterError::InvalidUrl(s) => "invalid URL: "@ + s@,
        ApiTesterError::UndefinedVar(s) => "undefined variable: {{"@ + s@ + "}}"@,
        ApiTesterError::Http(_) => detail,
        ApiTesterError::Io(_) => "io error: "@ + detail,
        ApiTesterError::FileRead { path, .. } => "cannot read upload file '"@ + path@ + "': "@ + detail,
        ApiTesterError::TomlDe(_) => "toml decode error: "@ + detail,
        ApiTesterError::TomlSer(_) => "toml encode error: "@ + detail,
    }
}

impl ApiTesterError {
    /// The message of the error (see [`error_message`]); `detail` is the
    /// text of the outside value it carries, unused by the variants that
    /// carry only text.
    pub fn message(&self, detail: &str) -> (r: String)
        ensures
            r@ == error_message(*self, detail@),
    {
        let mut m = match self {
            ApiTesterError::CollectionNotFound(_) => String::from_str("collection file not found: "),
            ApiTesterError::TomlParse(_) => String::from_str("invalid TOML: "),
            ApiTesterError::InvalidMethod(_) => String::from_str("invalid HTTP method: "),
            ApiTesterError::InvalidUrl(_) => String::from_str("invalid URL: "),
            ApiTesterError::UndefinedVar(_) => String::from_str("undefined variable: {{"),
            ApiTesterError::Http(_) => String::new(),
            ApiTesterError::Io(_) => String::from_str("io error: "),
            ApiTesterError::FileRead { .. } => String::from_str("cannot read upload file '"),
            ApiTesterError::TomlDe(_) => String::from_str("toml decode error: "),
            ApiTesterError::TomlSer(_) => String::from_str("toml encode error: "),
        };
        match self {
            ApiTesterError::TomlParse(s) => m.append(s.as_str()),
            ApiTesterError::InvalidMethod(s) => m.append(s.as_str()),
            ApiTesterError::InvalidUrl(s) => m.append(s.as_str()),
            ApiTesterError::UndefinedVar(s) => {
                m.append(s.as_str());
                m.append("}}");
            },
            ApiTesterError::FileRead { path, .. } => {
                m.append(path.as_str());
                m.append("': ");
                m.append(detail);
            },
            _ => m.append(detail),
        }
        proof {
            reveal_strlit("");
        }
        m
    }
}

/// The lower-case form of `s` (`str::to_lowercase`, Unicode case mapping).
pub uninterp spec fn lowercase(s: Seq<char>) -> Seq<char>;

/// `str::to_lowercase`: the Unicode lower-case mapping of `s`.
#[verifier::external_body]
pub(crate) fn to_lowercase(s: &str) -> (r: String)
    ensures
        r@ == lowercase(s@),
{
    s.to_lowercase()
}

/// `p` occurs in `s`.
pub open spec fn contains_text(s: Seq<char>, p: Seq<char>) -> bool {
    find_from(s, p, 0) is Some
}

/// Whether `p` occurs in `s`.
pub(crate) fn contains_exec(s: &[char], p: &str) -> (r: bool)
    ensures
        r == contains_text(s@, p@),
{
    let pc = chars_of(p);
    find_from_exec(s, pc.as_slice(), 0).is_some()
}

/// The lower-cased failure text points at TLS.
pub open spec fn mentions_tls(low: Seq<char>) -> bool {
    contains_text(low, "certificate"@) || contains_text(low, "tls"@) || contains_text(
        low,
        "handshake"@,
    ) || contains_text(low, "self-signed"@) || contains_text(low, "self signed"@)
        || contains_text(low, "unknownissuer"@)
}

/// The lower-cased failure text points at name resolution.
pub open spec fn mentions_dns(low: Seq<char>) -> bool {
    contains_text(low, "dns"@) || contains_text(low, "resolve"@) || contains_text(low, "lookup"@)
        || contains_text(low, "name or service not known"@) || contains_text(
        low,
        "no such host"@,
    )
}

/// The message for a failed request, from what the client reports: whether
/// it timed out, failed to connect or hit the redirect limit, and `chain`,
/// the failure and its causes joined by `: `.
pub open spec fn transport_message(timeout: bool, connect: bool, redirect: bool, chain: Seq<char>) -> Seq<char> {
    let low = lowercase(chain);
    if timeout {
        "request timed out (raise --timeout if the server is just slow)"@
    } else if mentions_tls(low) {
        "TLS error: "@ + chain + " (pass --insecure to skip verification for trusted hosts)"@
    } else if connect {
        if mentions_dns(low) {
            "DNS resolution failed: "@ + chain
        } else if contains_text(low, "refused"@) {
            "connection refused: "@ + chain + " (is the server running on that host/port?)"@
        } else {
            "connection failed: "@ + chain
        }
    } else if redirect {
        "too many redirects: "@ + chain
    } else {
        "request failed: "@ + chain
    }
}

/// Turns what the HTTP client reports about a failure into an actionable,
/// human-readable message (see [`transport_message`]).
pub fn classify_transport_error(timeout: bool, connect: bool, redirect: bool, chain: &str) -> (r: String)
    ensures
        r@ == transport_message(timeout, connect, redirect, chain@),
{
    if timeout {
        return String::from_str("request timed out (raise --timeout if the server is just slow)");
    }
    let low = to_lowercase(chain);
    let lc = chars_of(low.as_str());
    let l = lc.as_slice();
    if contains_exec(l, "certificate") || contains_exec(l, "tls") || contains_exec(l, "handshake")
        || contains_exec(l, "self-signed") || contains_exec(l, "self signed") || contains_exec(
        l,
        "unknownissuer",
    ) {
        let mut m = String::from_str("TLS error: ");
        m.append(chain);
        m.append(" (pass --insecure to skip verification for trusted hosts)");
        return m;
    }
    if connect {
        if contains_exec(l, "dns") || contains_exec(l, "resolve") || contains_exec(l, "lookup")
            || contains_exec(l, "name or service not known") || contains_exec(l, "no such host") {
            let mut m = String::from_str("DNS resolution failed: ");
            m.append(chain);
            return m;
        }
        if contains_exec(l, "refused") {
            let mut m = String::from_str("connection refused: ");
            m.append(chain);
            m.append(" (is the server running on that host/port?)");
            return m;
        }
        let mut m = String::from_str("connection failed: ");
        m.append(chain);
        return m;
    }
    if redirect {
        let mut m = String::from_str("too many redirects: ");
        m.append(chain);
        return m;
    }
    let mut m = String::from_str("request failed: ");
    m.append(chain);
    m
}

/// Whether the HTTP client failure `e` is a timeout (`reqwest::Error::is_timeout`).
pub uninterp spec fn timed_out(e: reqwest::Error) -> bool;

/// Whether the HTTP client failure `e` happened while connecting
/// (`reqwest::Error::is_connect`).
pub uninterp spec fn connect_failed(e: reqwest::Error) -> bool;

/// Whether the HTTP client failure `e` came from following redirects
/// (`reqwest::Error::is_redirect`).
pub uninterp spec fn redirect_failed(e: reqwest::Error) -> bool;

/// `reqwest::Error::is_timeout`: whether the failure is a timeout, read from
/// the error's kind and sources alone.
#[verifier::external_body]
fn reqwest_is_timeout(e: &reqwest::Error) -> (r: bool)
    ensures
        r == timed_out(*e),
{
    e.is_timeout()
}

/// `reqwest::Error::is_connect`: whether the failure happened while
/// connecting, read from the error's sources alone.
#[verifier::external_body]
fn reqwest_is_connect(e: &reqwest::Error) -> (r: bool)
    ensures
        r == connect_failed(*e),
{
    e.is_connect()
}

/// `reqwest::Error::is_redirect`: whether the failure came from following
/// redirects, read from the error's kind alone.
#[verifier::external_body]
fn reqwest_is_redirect(e: &reqwest::Error) -> (r: bool)
    ensures
        r == redirect_failed(*e),
{
    e.is_redirect()
}

/// The message for the HTTP client failure `e`, whose messages and causes
/// read `chain` (see [`error_chain`]): [`transport_message`] of what `e`
/// reports about timing out, connecting and redirects.
pub fn classify_reqwest(e: &reqwest::Error, chain: &str) -> (r: String)
    ensures
        r@ == transport_message(timed_out(*e), connect_failed(*e), redirect_failed(*e), chain@),
{
    let timeout = reqwest_is_timeout(e);
    let connect = reqwest_is_connect(e);
    let redirect = reqwest_is_redirect(e);
    classify_transport_error(timeout, connect, redirect, chain)
}

/// `xs` with each run of equal neighbours reduced to its first element
/// (`Vec::dedup`).
pub open spec fn dedup_runs(xs: Seq<Seq<char>>) -> Seq<Seq<char>>
    decreases xs.len(),
{
    if xs.len() <= 1 {
        xs
    } else if xs.last() == xs[xs.len() - 2] {
        dedup_runs(xs.drop_last())
    } else {
        dedup_runs(xs.drop_last()).push(xs.last())
    }
}

/// Joins an error's messages and those of its causes into one `a: b: c`
/// text, dropping a message that repeats the one before it.
pub fn error_chain(parts: &[String]) -> (r: String)
    ensures
        r@ == join_with(dedup_runs(string_views(parts@)), ": "@),
{
    let mut kept: Vec<String> = Vec::new();
    let mut i: usize = 0;
    while i < parts.len()
        invariant
            i <= parts@.len(),
            string_views(kept@) == dedup_runs(string_views(parts@).take(i as int)),
        decreases parts@.len() - i,
    {
        let ghost t = string_views(parts@).take(i + 1);
        proof {
            assert(t.drop_last() =~= string_views(parts@).take(i as int));
            assert(t.last() == parts@[i as int]@);
            if i > 0 {
                assert(t[t.len() - 2] == parts@[i - 1]@);
            }
        }
        let repeat = i > 0 && parts[i] == parts[i - 1];
        if !repeat {
            let ghost before = string_views(kept@);
            kept.push(parts[i].clone());
            proof {
                assert(string_views(kept@) =~= before.push(parts@[i as int]@));
            }
        }
        i += 1;
    }
    proof {
        assert(string_views(parts@).take(parts@.len() as int) =~= string_views(parts@));
    }
    join_strings(kept.as_slice(), ": ")
}

} // verus!
