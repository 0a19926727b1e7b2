//! What the screen shows, decided from plain values: colors by method and
//! status, status texts, and the highlight cache key.

use vstd::prelude::*;
use crate::app::{ActivePanel, StatusKind, m_delete, m_get, m_patch, m_post, m_put};
use crate::http::StatusClass;
use crate::text::{ascii_upper_seq, chars_eq, chars_of, push_all, to_ascii_upper};

verus! {

/// A foreground color of the interface.
#[derive(Clone, Copy, PartialEq, Eq, Debug, Structural)]
pub enum Tint {
    Green,
    Yellow,
    Blue,
    Red,
    Gray,
    DarkGray,
    Cyan,
    Magenta,
    Black,
    White,
    /// A color given by its red, green and blue components.
    Rgb(u8, u8, u8),
}

/// GET green, POST yellow, PUT and PATCH blue, DELETE red (case ignored),
/// anything else gray.
pub open spec fn method_tint(m: Seq<char>) -> Tint {
    let u = ascii_upper_seq(m);
    if u == m_get() {
        Tint::Green
    } else if u == m_post() {
        Tint::Yellow
    } else if u == m_put() || u == m_patch() {
        Tint::Blue
    } else if u == m_delete() {
        Tint::Red
    } else {
        Tint::Gray
    }
}

/// The color of a method.
pub fn method_color(method: &str) -> (t: Tint)
    ensures
        t == method_tint(method@),
{
    let u = to_ascii_upper(method);
    let uc = chars_of(u.as_str());
    let get = chars_of("GET");
    let post = chars_of("POST");
    let put = chars_of("PUT");
    let patch = chars_of("PATCH");
    let delete = chars_of("DELETE");
    proof {
        reveal_strlit("GET");
        reveal_strlit("POST");
        reveal_strlit("PUT");
        reveal_strlit("PATCH");
        reveal_strlit("DELETE");
        assert(get@ =~= m_get());
        assert(post@ =~= m_post());
        assert(put@ =~= m_put());
        assert(patch@ =~= m_patch());
        assert(delete@ =~= m_delete());
    }
    if chars_eq(uc.as_slice(), get.as_slice()) {
        Tint::Green
    } else if chars_eq(uc.as_slice(), post.as_slice()) {
        Tint::Yellow
    } else if chars_eq(uc.as_slice(), put.as_slice()) || chars_eq(uc.as_slice(), patch.as_slice()) {
        Tint::Blue
    } else if chars_eq(uc.as_slice(), delete.as_slice()) {
        Tint::Red
    } else {
        Tint::Gray
    }
}

/// The border color of `panel`: cyan when it has the focus, dark gray
/// otherwise.
pub fn panel_border(active: ActivePanel, panel: ActivePanel) -> (t: Tint)
    ensures
        t == (if active == panel {
            Tint::Cyan
        } else {
            Tint::DarkGray
        }),
{
    if active == panel {
        Tint::Cyan
    } else {
        Tint::DarkGray
    }
}

/// Info cyan, success green, redirect magenta, client error yellow, server
/// error red, unknown gray.
pub open spec fn class_tint(class: StatusClass) -> Tint {
    match class {
        StatusClass::Info => Tint::Cyan,
        StatusClass::Success => Tint::Green,
        StatusClass::Redirect => Tint::Magenta,
        StatusClass::ClientError => Tint::Yellow,
        StatusClass::ServerError => Tint::Red,
        StatusClass::Unknown => Tint::Gray,
    }
}

/// The color of a status class in the response panel.
pub fn status_class_color(class: StatusClass) -> (t: Tint)
    ensures
        t == class_tint(class),
{
    match class {
        StatusClass::Info => Tint::Cyan,
        StatusClass::Success => Tint::Green,
        StatusClass::Redirect => Tint::Magenta,
        StatusClass::ClientError => Tint::Yellow,
        StatusClass::ServerError => Tint::Red,
        StatusClass::Unknown => Tint::Gray,
    }
}

/// 2xx green, 3xx magenta, 4xx yellow, 5xx red, anything else gray.
pub open spec fn status_tint(status: u16) -> Tint {
    if 200 <= status <= 299 {
        Tint::Green
    } else if 300 <= status <= 399 {
        Tint::Magenta
    } else if 400 <= status <= 499 {
        Tint::Yellow
    } else if 500 <= status <= 599 {
        Tint::Red
    } else {
        Tint::Gray
    }
}

/// The color of a status code in the history list: 2xx green, 3xx
/// magenta, 4xx yellow, 5xx red, anything else gray.
pub fn status_color(status: u16) -> (t: Tint)
    ensures
        t == status_tint(status),
{
    if 200 <= status && status <= 299 {
        Tint::Green
    } else if 300 <= status && status <= 399 {
        Tint::Magenta
    } else if 400 <= status && status <= 499 {
        Tint::Yellow
    } else if 500 <= status && status <= 599 {
        Tint::Red
    } else {
        Tint::Gray
    }
}

/// The color of a status-bar message: info cyan, warning yellow, error red.
pub fn status_kind_color(kind: StatusKind) -> (t: Tint)
    ensures
        t == match kind {
            StatusKind::Info => Tint::Cyan,
            StatusKind::Warn => Tint::Yellow,
            StatusKind::Error => Tint::Red,
        },
{
    match kind {
        StatusKind::Info => Tint::Cyan,
        StatusKind::Warn => Tint::Yellow,
        StatusKind::Error => Tint::Red,
    }
}

/// A finished response is reported as a warning for 4xx and 5xx, as info
/// otherwise.
pub fn response_status_kind(class: StatusClass) -> (k: StatusKind)
    ensures
        k == (if class == StatusClass::ClientError || class == StatusClass::ServerError {
            StatusKind::Warn
        } else {
            StatusKind::Info
        }),
{
    match class {
        StatusClass::ClientError | StatusClass::ServerError => StatusKind::Warn,
        _ => StatusKind::Info,
    }
}

/// The reason phrase shown next to a status code; empty for codes without
/// one.
pub open spec fn reason_phrase(code: u16) -> Seq<char> {
    if code == 200 {
        "OK"@
    } else if code == 201 {
        "Created"@
    } else if code == 202 {
        "Accepted"@
    } else if code == 204 {
        "No Content"@
    } else if code == 301 {
        "Moved Permanently"@
    } else if code == 302 {
        "Found"@
    } else if code == 304 {
        "Not Modified"@
    } else if code == 400 {
        "Bad Request"@
    } else if code == 401 {
        "Unauthorized"@
    } else if code == 403 {
        "Forbidden"@
    } else if code == 404 {
        "Not Found"@
    } else if code == 405 {
        "Method Not Allowed"@
    } else if code == 409 {
        "Conflict"@
    } else if code == 422 {
        "Unprocessable Entity"@
    } else if code == 429 {
        "Too Many Requests"@
    } else if code == 500 {
        "Internal Server Error"@
    } else if code == 502 {
        "Bad Gateway"@
    } else if code == 503 {
        "Service Unavailable"@
    } else if code == 504 {
        "Gateway Timeout"@
    } else {
        ""@
    }
}

/// The reason phrase of a status code (see [`reason_phrase`]).
pub fn canonical_status_text(code: u16) -> (r: &'static str)
    ensures
        r@ == reason_phrase(code),
{
    match code {
        200 => "OK",
        201 => "Created",
        202 => "Accepted",
        204 => "No Content",
        301 => "Moved Permanently",
        302 => "Found",
        304 => "Not Modified",
        400 => "Bad Request",
        401 => "Unauthorized",
        403 => "Forbidden",
        404 => "Not Found",
        405 => "Method Not Allowed",
        409 => "Conflict",
        422 => "Unprocessable Entity",
        429 => "Too Many Requests",
        500 => "Internal Server Error",
        502 => "Bad Gateway",
        503 => "Service Unavailable",
        504 => "Gateway Timeout",
        _ => "",
    }
}

/// The key under which a highlighting is remembered: the two flags as `0` or
/// `1`, then the text, separated by `|`.
pub fn cache_key(text: &str, light: bool, no_color: bool) -> (k: String)
    ensures
        k@ == seq![if light {
            '1'
        } else {
            '0'
        }, '|', if no_color {
            '1'
        } else {
            '0'
        }, '|'] + text@,
{
    let mut k = String::new();
    k.push(if light {
        '1'
    } else {
        '0'
    });
    k.push('|');
    k.push(if no_color {
        '1'
    } else {
        '0'
    });
    k.push('|');
    let tc = chars_of(text);
    push_all(&mut k, tc.as_slice());
    k
}

/// `s` without its trailing `\n` and `\r` characters.
pub open spec fn without_eol(s: Seq<char>) -> Seq<char>
    decreases s.len(),
{
    if s.len() > 0 && (s.last() == '\n' || s.last() == '\r') {
        without_eol(s.drop_last())
    } else {
        s
    }
}

/// `s` without its line ending (any trailing `\n` and `\r`).
pub fn trim_eol(s: &str) -> (r: String)
    ensures
        r@ == without_eol(s@),
{
    let cs = chars_of(s);
    let mut end = cs.len();
    proof {
        assert(cs@.take(end as int) =~= cs@);
    }
    while end > 0 && (cs[end - 1] == '\n' || cs[end - 1] == '\r')
        invariant
            end <= cs@.len(),
            cs@ == s@,
            without_eol(s@) == without_eol(cs@.take(end as int)),
        decreases end,
    {
        proof {
            assert(cs@.take(end as int).drop_last() =~= cs@.take(end - 1));
        }
        end -= 1;
    }
    let mut r = String::new();
    push_all(&mut r, &cs.as_slice()[0..end]);
    proof {
        assert(cs@.subrange(0, end as int) =~= cs@.take(end as int));
    }
    r
}

/// The height of the response-header pane: off when headers are hidden,
/// else one row per header plus the title row, at most 10.
pub open spec fn header_pane_rows(count: nat, show: bool) -> nat {
    if !show {
        0
    } else if count + 1 < 10 {
        count + 1
    } else {
        10
    }
}

/// The height of the response-header pane for `count` headers (see
/// [`header_pane_rows`]).
pub fn header_pane_height(count: usize, show: bool) -> (h: u16)
    ensures
        h == header_pane_rows(count as nat, show),
{
    if !show {
        0
    } else if count < 9 {
        (count + 1) as u16
    } else {
        10
    }
}

} // verus!
