//! What the HTTP layer computes: send options, the response and its status
//! class, and method validation.

use vstd::prelude::*;
use std::sync::Arc;
use std::time::Duration;
use crate::error::ApiTesterError;
use crate::text::{ascii_upper_seq, to_ascii_upper};

verus! {

/// The `Duration` of `secs` whole seconds (`Duration::from_secs`).
pub uninterp spec fn secs_duration(secs: u64) -> Duration;

/// `Duration::from_secs` is the duration of that many seconds.
pub assume_specification[ Duration::from_secs ](secs: u64) -> (d: Duration)
    ensures
        d == secs_duration(secs),
;

/// Cloning a `Duration` (a `Copy` type) gives the same duration.
pub assume_specification[ <Duration as Clone>::clone ](d: &Duration) -> (r: Duration)
    ensures
        r == *d,
;

/// How a request is sent.
#[derive(Clone)]
pub struct SendOpts {
    pub timeout: Duration,
    /// Accept invalid TLS certificates.
    pub insecure: bool,
    pub follow_redirects: bool,
    /// An explicit proxy URL; without one the standard proxy environment
    /// variables apply.
    pub proxy: Option<String>,
    /// Shared cookie jar; when present, cookies are sent and captured.
    pub cookies: Option<Arc<reqwest_cookie_store::CookieStoreMutex>>,
}

impl Default for SendOpts {
    /// A 30 s timeout, certificates verified, redirects followed, no proxy,
    /// no cookie jar.
    fn default() -> (r: Self)
        ensures
            r.timeout == secs_duration(30),
            !r.insecure,
            r.follow_redirects,
            r.proxy is None,
            r.cookies is None,
    {
        SendOpts {
            timeout: Duration::from_secs(30),
            insecure: false,
            follow_redirects: true,
            proxy: None,
            cookies: None,
        }
    }
}

/// A received response.
pub struct Response {
    pub status: u16,
    pub elapsed: Duration,
    pub headers: reqwest::header::HeaderMap,
    pub body: String,
}

/// The class of an HTTP status code.
#[derive(Clone, Copy, PartialEq, Eq, Debug, Structural)]
pub enum StatusClass {
    Info,
    Success,
    Redirect,
    ClientError,
    ServerError,
    Unknown,
}

/// 1xx informational, 2xx success, 3xx redirect, 4xx client error, 5xx
/// server error; anything else is unknown.
pub open spec fn status_class_of(status: u16) -> StatusClass {
    if 100 <= status <= 199 {
        StatusClass::Info
    } else if 200 <= status <= 299 {
        StatusClass::Success
    } else if 300 <= status <= 399 {
        StatusClass::Redirect
    } else if 400 <= status <= 499 {
        StatusClass::ClientError
    } else if 500 <= status <= 599 {
        StatusClass::ServerError
    } else {
        StatusClass::Unknown
    }
}

/// `s` is JSON text: `serde_json` parses it into a value.
pub uninterp spec fn json_text(s: Seq<char>) -> bool;

/// `serde_json::from_str::<serde_json::Value>`: the value of `s`, when `s`
/// is JSON text.
#[verifier::external_body]
fn parse_json(s: &str) -> (r: Option<serde_json::Value>)
    ensures
        r is Some <==> json_text(s@),
{
    serde_json::from_str::<serde_json::Value>(s).ok()
}

/// The text that `serde_json` prints for the value of JSON text `s`, in its
/// indented layout.
pub uninterp spec fn json_pretty(s: Seq<char>) -> Seq<char>;

/// `serde_json::from_str::<serde_json::Value>` followed by
/// `serde_json::to_string_pretty`: `Some` exactly when `s` is JSON text, and
/// then the indented text of its value, which depends on `s` alone (a
/// `Value` always serializes, so the empty fallback is never taken).
#[verifier::external_body]
fn pretty_json_text(s: &str) -> (r: Option<String>)
    ensures
        r is Some <==> json_text(s@),
        r matches Some(p) ==> p@ == json_pretty(s@),
{
    match serde_json::from_str::<serde_json::Value>(s) {
        Ok(v) => Some(serde_json::to_string_pretty(&v).unwrap_or_default()),
        Err(_) => None,
    }
}

impl Response {
    /// Whether the body is JSON text.
    pub fn is_json(&self) -> (r: bool)
        ensures
            r == json_text(self.body@),
    {
        parse_json(self.body.as_str()).is_some()
    }

    /// The body for display and export: the indented text of its value when
    /// it is JSON, the body as it is otherwise.
    pub fn pretty_body(&self) -> (r: String)
        ensures
            json_text(self.body@) ==> r@ == json_pretty(self.body@),
            !json_text(self.body@) ==> r@ == self.body@,
    {
        match pretty_json_text(self.body.as_str()) {
            Some(p) => p,
            None => self.body.clone(),
        }
    }

    /// The body's length in bytes (UTF-8).
    pub fn size_bytes(&self) -> (n: usize)
        ensures
            n == vstd::utf8::encode_utf8(self.body@).len() as usize,
    {
        self.body.as_str().len()
    }

    /// The class of the status code.
    pub fn status_class(&self) -> (c: StatusClass)
        ensures
            c == status_class_of(self.status),
    {
        let s = self.status;
        if 100 <= s && s <= 199 {
            StatusClass::Info
        } else if 200 <= s && s <= 299 {
            StatusClass::Success
        } else if 300 <= s && s <= 399 {
            StatusClass::Redirect
        } else if 400 <= s && s <= 499 {
            StatusClass::ClientError
        } else if 500 <= s && s <= 599 {
            StatusClass::ServerError
        } else {
            StatusClass::Unknown
        }
    }
}

/// A token character of RFC 7230, the bytes an HTTP method may hold:
/// `!#$%&'*+-.^_`|~`, digits and letters.
pub open spec fn is_tchar(b: u8) -> bool {
    ||| b == 0x21
    ||| (0x23 <= b <= 0x27)
    ||| b == 0x2a
    ||| b == 0x2b
    ||| b == 0x2d
    ||| b == 0x2e
    ||| (0x30 <= b <= 0x39)
    ||| (0x41 <= b <= 0x5a)
    ||| (0x5e <= b <= 0x7a)
    ||| b == 0x7c
    ||| b == 0x7e
}

/// `bytes` is a valid method: non-empty and made of token characters.
pub open spec fn valid_method_bytes(bytes: Seq<u8>) -> bool {
    bytes.len() > 0 && forall|i: int| 0 <= i < bytes.len() ==> is_tchar(#[trigger] bytes[i])
}

/// The method that `Method::from_bytes` makes of valid method bytes (a
/// standard method for its name, an extension method holding the bytes
/// otherwise).
pub uninterp spec fn method_of(bytes: Seq<u8>) -> reqwest::Method;

/// `Method::from_bytes`: a method exactly when the bytes are non-empty and
/// all token characters (the crate's `METHOD_CHARS` table); which method
/// depends on the bytes alone.
#[verifier::external_body]
fn method_from_bytes(src: &[u8]) -> (r: Option<reqwest::Method>)
    ensures
        r is Some <==> valid_method_bytes(src@),
        r matches Some(m) ==> m == method_of(src@),
{
    reqwest::Method::from_bytes(src).ok()
}

/// The method to send: `method` upper-cased (ASCII). An upper-cased method
/// that is not a valid token is an `InvalidMethod` error carrying `method`
/// as given.
pub fn parse_method(method: &str) -> (r: Result<reqwest::Method, ApiTesterError>)
    ensures
        r is Ok <==> valid_method_bytes(vstd::utf8::encode_utf8(ascii_upper_seq(method@))),
        r matches Ok(m) ==> m == method_of(vstd::utf8::encode_utf8(ascii_upper_seq(method@))),
        r matches Err(e) ==> e matches ApiTesterError::InvalidMethod(m) && m@ == method@,
{
    let upper = to_ascii_upper(method);
    match method_from_bytes(upper.as_str().as_bytes()) {
        Some(m) => Ok(m),
        None => Err(ApiTesterError::InvalidMethod(String::from_str(method))),
    }
}

} // verus!
