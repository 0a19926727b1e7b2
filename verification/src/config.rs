//! Command-line configuration.

use vstd::prelude::*;
use std::path::PathBuf;
use std::time::Duration;
use crate::http::secs_duration;

verus! {

/// Color theme for syntax highlighting in the response viewer.
#[derive(Clone, Copy, PartialEq, Eq, Debug, Structural)]
pub enum Theme {
    Dark,
    Light,
}

impl Default for Theme {
    /// The dark theme.
    fn default() -> (t: Self)
        ensures
            t == Theme::Dark,
    {
        Theme::Dark
    }
}

impl Theme {
    /// Whether this is the light theme.
    pub fn is_light(self) -> (r: bool)
        ensures
            r == (self == Theme::Light),
    {
        match self {
            Theme::Light => true,
            Theme::Dark => false,
        }
    }
}

/// The command line.
#[derive(Debug)]
pub struct Cli {
    /// Path to collection file (.toml)
    pub collection: Option<PathBuf>,
    /// Environment to use for variable interpolation
    pub env: String,
    /// Request timeout in seconds (at least 1)
    pub timeout: u64,
    /// Skip TLS certificate verification
    pub insecure: bool,
    /// Disable following redirects
    pub no_redirect: bool,
    /// HTTP/HTTPS proxy URL
    pub proxy: Option<String>,
    /// Disable ANSI colors
    pub no_color: bool,
    /// Color theme for syntax highlighting
    pub theme: Theme,
    /// Disable the persistent cookie jar
    pub no_cookies: bool,
    /// Run a single request non-interactively, print response, exit
    pub headless: Option<String>,
}

impl Cli {
    /// The request timeout as a `Duration`.
    pub fn timeout_duration(&self) -> (d: Duration)
        ensures
            d == secs_duration(self.timeout),
    {
        Duration::from_secs(self.timeout)
    }
}

} // verus!
