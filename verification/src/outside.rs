//! Types of std and of outside crates that the library carries as opaque
//! values.

use vstd::prelude::*;

verus! {

/// A file-system path (`std::path::PathBuf`).
#[verifier::external_type_specification]
#[verifier::external_body]
pub struct ExPathBuf(std::path::PathBuf);

/// A clock reading (`std::time::SystemTime`).
#[verifier::external_type_specification]
#[verifier::external_body]
pub struct ExSystemTime(std::time::SystemTime);

/// An I/O failure (`std::io::Error`).
#[verifier::external_type_specification]
#[verifier::external_body]
pub struct ExIoError(std::io::Error);

/// A failure of the HTTP client (`reqwest::Error`).
#[verifier::external_type_specification]
#[verifier::external_body]
pub struct ExReqwestError(reqwest::Error);

/// A TOML decoding failure (`toml::de::Error`).
#[verifier::external_type_specification]
#[verifier::external_body]
pub struct ExTomlDeError(toml::de::Error);

/// A TOML encoding failure (`toml::ser::Error`).
#[verifier::external_type_specification]
#[verifier::external_body]
pub struct ExTomlSerError(toml::ser::Error);

/// Response headers (`reqwest::header::HeaderMap`).
#[verifier::external_type_specification]
#[verifier::external_body]
#[verifier::reject_recursive_types(T)]
pub struct ExHeaderMap<T>(reqwest::header::HeaderMap<T>);

/// One header value (`reqwest::header::HeaderValue`).
#[verifier::external_type_specification]
#[verifier::external_body]
pub struct ExHeaderValue(reqwest::header::HeaderValue);

/// A handle on a spawned task (`tokio::task::JoinHandle`).
#[verifier::external_type_specification]
#[verifier::external_body]
#[verifier::reject_recursive_types(T)]
pub struct ExJoinHandle<T>(tokio::task::JoinHandle<T>);

/// The failure of a spawned task (`tokio::task::JoinError`), named by the
/// handle's `Future` impl.
#[verifier::external_type_specification]
#[verifier::external_body]
pub struct ExJoinError(tokio::task::JoinError);

/// The shared cookie store (`reqwest_cookie_store::CookieStoreMutex`).
#[verifier::external_type_specification]
#[verifier::external_body]
pub struct ExCookieStoreMutex(reqwest_cookie_store::CookieStoreMutex);

/// A key press as the field editor takes it (`tui_textarea::Input`).
#[verifier::external_type_specification]
#[verifier::external_body]
pub struct ExTextInput(tui_textarea::Input);

/// The syntax definitions of the highlighter (`syntect::parsing::SyntaxSet`).
#[verifier::external_type_specification]
#[verifier::external_body]
pub struct ExSyntaxSet(syntect::parsing::SyntaxSet);

/// One syntax definition (`syntect::parsing::SyntaxReference`).
#[verifier::external_type_specification]
#[verifier::external_body]
pub struct ExSyntaxReference(syntect::parsing::SyntaxReference);

/// The color themes of the highlighter (`syntect::highlighting::ThemeSet`).
#[verifier::external_type_specification]
#[verifier::external_body]
pub struct ExThemeSet(syntect::highlighting::ThemeSet);

/// A line-by-line highlighter (`syntect::easy::HighlightLines`).
#[verifier::external_type_specification]
#[verifier::external_body]
pub struct ExHighlightLines<'a>(syntect::easy::HighlightLines<'a>);

/// A parsed JSON value (`serde_json::Value`).
#[verifier::external_type_specification]
#[verifier::external_body]
pub struct ExJsonValue(serde_json::Value);

/// An HTTP method (`reqwest::Method`).
#[verifier::external_type_specification]
#[verifier::external_body]
pub struct ExMethod(reqwest::Method);

} // verus!
