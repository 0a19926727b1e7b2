//! The decisions of the interactive loop and of the non-interactive mode:
//! what the editor state becomes around sending, cancelling, saving,
//! exporting and external editing, given what the outside work reported.

use vstd::prelude::*;
use std::sync::Arc;
use crate::app::{App, StatusKind, body_changes, body_set, request_count, request_replaced};
use crate::builder::{EffectiveRequest, build_effective, effective_spec, env_overlay, resolve_env};
use crate::config::Cli;
use crate::error::ApiTesterError;
use crate::export::{sanitize_filename, sanitized};
use crate::headless::{find_request, request_name_list, request_names};
use crate::history::{decimal, duration_millis, push_padded, whole_millis};
use crate::http::{Response, SendOpts, secs_duration, status_class_of};
use crate::model::{Collection, Request};
use crate::strmap::StringMap;
use crate::text::{chars_of, join_with, push_all};
use crate::ui::response_status_kind;

verus! {

/// `a` followed by `b`.
fn cat(a: &str, b: &str) -> (r: String)
    ensures
        r@ == a@ + b@,
{
    let mut r = String::from_str(a);
    let bc = chars_of(b);
    push_all(&mut r, bc.as_slice());
    r
}

/// `b` is `a` with the status line set to `msg` of severity `k`.
pub open spec fn with_status(a: App, b: App, k: StatusKind, msg: Seq<char>) -> bool {
    &&& b.status_message matches Some((bk, bm)) && bk == k && bm@ == msg
    &&& b == App { status_message: b.status_message, ..a }
}

/// Sets the status line.
fn set_status(app: &mut App, k: StatusKind, msg: String)
    ensures
        with_status(*old(app), *final(app), k, msg@),
{
    app.status_message = Some((k, msg));
}

/// How a request is sent for the command line `cli`: its timeout, TLS
/// checking, redirects, proxy, and the cookie jar unless cookies are off.
pub open spec fn send_opts_spec(cli: Cli, jar: Option<Arc<reqwest_cookie_store::CookieStoreMutex>>, o: SendOpts) -> bool {
    &&& o.timeout == secs_duration(cli.timeout)
    &&& o.insecure == cli.insecure
    &&& o.follow_redirects == !cli.no_redirect
    &&& match (o.proxy, cli.proxy) {
        (Some(a), Some(b)) => a@ == b@,
        (None, None) => true,
        _ => false,
    }
    &&& o.cookies == if cli.no_cookies {
        None
    } else {
        jar
    }
}

/// How requests are sent for `cli` (see [`send_opts_spec`]).
pub fn send_opts_for(cli: &Cli, jar: Option<Arc<reqwest_cookie_store::CookieStoreMutex>>) -> (o: SendOpts)
    ensures
        send_opts_spec(*cli, jar, o),
{
    let proxy = match &cli.proxy {
        Some(p) => Some(p.clone()),
        None => None,
    };
    SendOpts {
        timeout: cli.timeout_duration(),
        insecure: cli.insecure,
        follow_redirects: !cli.no_redirect,
        proxy,
        cookies: if cli.no_cookies {
            None
        } else {
            jar
        },
    }
}

/// The warning shown at start when TLS verification is off.
pub open spec fn insecure_warning() -> Seq<char> {
    "⚠ TLS verification disabled (--insecure)"@
}

/// The editor state the interactive mode starts in: a fresh state on
/// `collection` and the file it came from, in the environment, theme and
/// colors that `cli` asks for, sending with `opts`, warning when TLS
/// verification is off.
pub fn startup(collection: Collection, path: Option<std::path::PathBuf>, cli: &Cli, opts: SendOpts) -> (a: App)
    ensures
        a.collection == collection,
        a.collection_path == path,
        a.env@ == cli.env@,
        a.send_opts == opts,
        a.light_theme == (cli.theme == crate::config::Theme::Light),
        a.no_color == cli.no_color,
        cli.insecure ==> (a.status_message matches Some((k, m)) && k == StatusKind::Warn && m@
            == insecure_warning()),
        !cli.insecure ==> a.status_message is None,
        a.selected == 0,
        a.response is None && a.in_flight is None && a.editor is None && a.confirm is None,
        a.history is None && a.search is None,
        !a.dirty && !a.is_loading && !a.help_open && !a.should_quit && !a.show_response_headers,
        a.response_scroll == 0,
        a.active_panel == crate::app::ActivePanel::CollectionList,
        a.active_field == crate::app::RequestField::Url,
        a.input_mode == crate::app::InputMode::Normal,
{
    let mut app = App::new(collection, cli.env.clone(), opts);
    app.collection_path = path;
    app.light_theme = cli.theme.is_light();
    app.no_color = cli.no_color;
    if cli.insecure {
        app.status_message = Some((StatusKind::Warn, String::from_str("⚠ TLS verification disabled (--insecure)")));
    }
    app
}

/// The status text while a request is in flight: `→ METHOD URL`.
pub open spec fn sending_message(method: Seq<char>, url: Seq<char>) -> Seq<char> {
    "→ "@ + method + " "@ + url
}

/// The message of an undefined variable: `undefined variable: {{name}}`.
pub open spec fn undefined_var_message(name: Seq<char>) -> Seq<char> {
    "undefined variable: {{"@ + name + "}}"@
}

/// The message when sending with no request selected.
pub open spec fn no_selection_message() -> Seq<char> {
    "no request selected"@
}

/// The request the selected one becomes in `a`'s environment (see
/// [`effective_spec`]), with `os_env` as the fallback for variables.
pub open spec fn selected_effective(a: App, os_env: Map<Seq<char>, Seq<char>>) -> Result<crate::builder::EffectiveSpec, Seq<char>> {
    effective_spec(
        a.collection.requests@[a.selected as int],
        match a.collection.base_url {
            Some(b) => Some(b@),
            None => None,
        },
        env_overlay(a.collection.env@, a.env@),
        os_env,
    )
}

/// Gets the selected request ready to send: builds it in the current
/// environment; on success marks the state loading, clears the response and
/// shows what is sent, and returns it; with no selection or an undefined
/// variable, says so in the status line and returns nothing.
pub fn prepare_send(app: &mut App, os_env: &StringMap<String>) -> (r: Option<EffectiveRequest>)
    ensures
        old(app).selected >= request_count(*old(app)) ==> r is None && with_status(
            *old(app),
            *final(app),
            StatusKind::Warn,
            no_selection_message(),
        ),
        old(app).selected < request_count(*old(app)) ==> match selected_effective(*old(app), os_env@) {
            Ok(e) => r matches Some(b) && b@ == e && with_status(
                App { is_loading: true, response: None, response_scroll: 0, ..*old(app) },
                *final(app),
                StatusKind::Info,
                sending_message(e.method, e.url),
            ),
            Err(k) => r is None && with_status(
                *old(app),
                *final(app),
                StatusKind::Error,
                undefined_var_message(k),
            ),
        },
{
    if app.selected >= app.collection.requests.len() {
        set_status(app, StatusKind::Warn, String::from_str("no request selected"));
        return None;
    }
    let vars = resolve_env(&app.collection, app.env.as_str());
    let base = match &app.collection.base_url {
        Some(b) => Some(b.as_str()),
        None => None,
    };
    let built = build_effective(&app.collection.requests[app.selected], base, &vars, os_env);
    match built {
        Ok(b) => {
            app.is_loading = true;
            app.response = None;
            app.response_scroll = 0;
            let mut msg = cat("→ ", b.method.as_str());
            msg.push(' ');
            let uc = chars_of(b.url.as_str());
            push_all(&mut msg, uc.as_slice());
            proof {
                reveal_strlit(" ");
                assert(msg@ =~= sending_message(b@.method, b@.url));
            }
            set_status(app, StatusKind::Info, msg);
            Some(b)
        },
        Err(e) => {
            let name = match e {
                ApiTesterError::UndefinedVar(n) => n,
                _ => String::new(),
            };
            let mut msg = cat("undefined variable: {{", name.as_str());
            let close = chars_of("}}");
            push_all(&mut msg, close.as_slice());
            set_status(app, StatusKind::Error, msg);
            None
        },
    }
}

/// `JoinHandle::abort`: asks the runtime to cancel the task.
#[verifier::external_body]
fn abort_task(h: &tokio::task::JoinHandle<()>) {
    h.abort()
}

/// The message when a request is cancelled.
pub open spec fn cancelled_message() -> Seq<char> {
    "request cancelled"@
}

/// Cancels the request in flight, if any: the task is aborted, loading
/// stops and the status line says so. Without one, nothing changes.
pub fn cancel_inflight(app: &mut App)
    ensures
        old(app).in_flight is None ==> *final(app) == *old(app),
        old(app).in_flight is Some ==> with_status(
            App { in_flight: None, is_loading: false, ..*old(app) },
            *final(app),
            StatusKind::Warn,
            cancelled_message(),
        ),
{
    if let Some(handle) = app.in_flight.take() {
        abort_task(&handle);
        app.is_loading = false;
        set_status(app, StatusKind::Warn, String::from_str("request cancelled"));
    }
}

/// What saving the collection came to.
pub enum SaveOutcome {
    /// There is no file to save to.
    NoPath,
    /// Saved to the file displayed as the text.
    Saved(String),
    /// Writing failed with the message.
    Failed(String),
}

/// Records the outcome of saving: saved clears the unsaved mark; each
/// outcome has its status line.
pub fn record_save(app: &mut App, outcome: SaveOutcome)
    ensures
        match outcome {
            SaveOutcome::NoPath => with_status(
                *old(app),
                *final(app),
                StatusKind::Warn,
                "no path — pass a .toml as arg to enable save"@,
            ),
            SaveOutcome::Saved(p) => with_status(
                App { dirty: false, ..*old(app) },
                *final(app),
                StatusKind::Info,
                "saved "@ + p@,
            ),
            SaveOutcome::Failed(e) => with_status(
                *old(app),
                *final(app),
                StatusKind::Error,
                "save failed: "@ + e@,
            ),
        },
{
    match outcome {
        SaveOutcome::NoPath => {
            set_status(app, StatusKind::Warn, String::from_str("no path — pass a .toml as arg to enable save"));
        },
        SaveOutcome::Saved(p) => {
            app.dirty = false;
            set_status(app, StatusKind::Info, cat("saved ", p.as_str()));
        },
        SaveOutcome::Failed(e) => {
            set_status(app, StatusKind::Error, cat("save failed: ", e.as_str()));
        },
    }
}

/// After saving on the way out: quits when nothing is left unsaved.
pub fn quit_if_saved(app: &mut App)
    ensures
        *final(app) == if old(app).dirty {
            *old(app)
        } else {
            App { should_quit: true, ..*old(app) }
        },
{
    if !app.dirty {
        app.should_quit = true;
    }
}

/// Applies what the external editor gave back: new content replaces the
/// selected request's body (see [`body_set`]) and marks the collection
/// unsaved if that changed it; an editor that exited without saving, or
/// failed, leaves the body alone. Each outcome has its status line.
pub fn apply_editor_result(app: &mut App, result: Result<Option<String>, String>)
    ensures
        match result {
            Ok(Some(c)) => {
                if old(app).selected < request_count(*old(app)) {
                    let i = old(app).selected as int;
                    let o = old(app).collection.requests@[i];
                    let n = final(app).collection.requests@[i];
                    &&& request_replaced(old(app).collection, final(app).collection, i, n)
                    &&& body_set(o, n, c@)
                    &&& with_status(
                        App {
                            collection: final(app).collection,
                            dirty: old(app).dirty || body_changes(o, c@),
                            ..*old(app)
                        },
                        *final(app),
                        StatusKind::Info,
                        "body updated from $EDITOR"@,
                    )
                } else {
                    with_status(*old(app), *final(app), StatusKind::Info, "body updated from $EDITOR"@)
                }
            },
            Ok(None) => with_status(
                *old(app),
                *final(app),
                StatusKind::Warn,
                "editor exited — body unchanged"@,
            ),
            Err(e) => with_status(*old(app), *final(app), StatusKind::Error, "editor failed: "@ + e@),
        },
{
    match result {
        Ok(Some(content)) => {
            if app.set_body_content(content) {
                app.dirty = true;
            }
            set_status(app, StatusKind::Info, String::from_str("body updated from $EDITOR"));
        },
        Ok(None) => {
            set_status(app, StatusKind::Warn, String::from_str("editor exited — body unchanged"));
        },
        Err(e) => {
            set_status(app, StatusKind::Error, cat("editor failed: ", e.as_str()));
        },
    }
}

/// The file a response is exported to: the selected request's name (or
/// `response`) made safe (see [`sanitized`]), with `.json` for a JSON body
/// and `.txt` otherwise.
pub open spec fn export_name(a: App, json: bool) -> Seq<char> {
    let name = if a.selected < request_count(a) {
        a.collection.requests@[a.selected as int].name@
    } else {
        "response"@
    };
    sanitized(name) + "."@ + if json {
        "json"@
    } else {
        "txt"@
    }
}

/// The file a response is exported to (see [`export_name`]).
pub fn export_file_name(app: &App, json: bool) -> (r: String)
    ensures
        r@ == export_name(*app, json),
{
    let stem = if app.selected < app.collection.requests.len() {
        sanitize_filename(app.collection.requests[app.selected].name.as_str())
    } else {
        sanitize_filename("response")
    };
    let mut r = cat(stem.as_str(), ".");
    let ext = chars_of(if json {
        "json"
    } else {
        "txt"
    });
    push_all(&mut r, ext.as_slice());
    r
}

/// Records the outcome of exporting to `file`.
pub fn record_export(app: &mut App, file: &str, result: Result<(), String>)
    ensures
        match result {
            Ok(_) => with_status(*old(app), *final(app), StatusKind::Info, "exported → "@ + file@),
            Err(e) => with_status(*old(app), *final(app), StatusKind::Error, "export failed: "@ + e@),
        },
{
    match result {
        Ok(()) => set_status(app, StatusKind::Info, cat("exported → ", file)),
        Err(e) => set_status(app, StatusKind::Error, cat("export failed: ", e.as_str())),
    }
}

/// Records the outcome of copying the response to the clipboard.
pub fn record_yank(app: &mut App, result: Result<(), String>)
    ensures
        match result {
            Ok(_) => with_status(*old(app), *final(app), StatusKind::Info, "response copied to clipboard"@),
            Err(e) => with_status(*old(app), *final(app), StatusKind::Error, "clipboard failed: "@ + e@),
        },
{
    match result {
        Ok(()) => set_status(app, StatusKind::Info, String::from_str("response copied to clipboard")),
        Err(e) => set_status(app, StatusKind::Error, cat("clipboard failed: ", e.as_str())),
    }
}

/// The status text of a finished request: `← STATUS in MSms`.
pub open spec fn done_message(status: u16, ms: u64) -> Seq<char> {
    "← "@ + decimal(status as nat) + " in "@ + decimal(ms as nat) + "ms"@
}

/// Records a finished request: loading stops and nothing is in flight; a
/// response is kept and reported (a warning for 4xx and 5xx); a failure is
/// reported as an error. The time reported is the response's own, in whole
/// milliseconds.
pub fn finish_request(app: &mut App, outcome: Result<Response, String>)
    ensures
        match outcome {
            Ok(resp) => {
                &&& final(app).response == Some(resp)
                &&& final(app).status_message matches Some((k, m)) && k == (if status_class_of(
                    resp.status,
                ) == crate::http::StatusClass::ClientError || status_class_of(resp.status)
                    == crate::http::StatusClass::ServerError {
                    StatusKind::Warn
                } else {
                    StatusKind::Info
                }) && m@ == done_message(resp.status, duration_millis(resp.elapsed) as u64)
                &&& *final(app) == App {
                    is_loading: false,
                    in_flight: None,
                    response: final(app).response,
                    status_message: final(app).status_message,
                    ..*old(app)
                }
            },
            Err(e) => with_status(
                App { is_loading: false, in_flight: None, ..*old(app) },
                *final(app),
                StatusKind::Error,
                "✗ "@ + e@,
            ),
        },
{
    app.is_loading = false;
    app.in_flight = None;
    match outcome {
        Ok(resp) => {
            let kind = response_status_kind(resp.status_class());
            let ms = whole_millis(&resp.elapsed) as u64;
            let mut msg = String::from_str("← ");
            push_padded(&mut msg, resp.status as u64, 0);
            let mid = chars_of(" in ");
            push_all(&mut msg, mid.as_slice());
            push_padded(&mut msg, ms, 0);
            msg.push('m');
            msg.push('s');
            proof {
                reveal_strlit("ms");
                assert(msg@ =~= done_message(resp.status, ms));
            }
            app.status_message = Some((kind, msg));
            app.response = Some(resp);
        },
        Err(e) => {
            set_status(app, StatusKind::Error, cat("✗ ", e.as_str()));
        },
    }
}

/// Opens the history list on `entries` (newest first).
pub fn open_history(app: &mut App, entries: Vec<crate::history::HistoryEntry>)
    ensures
        *final(app) == (App { history: Some(entries), ..*old(app) }),
{
    app.history = Some(entries);
}

/// The history entry of a send at `ts_ms` of request `name` as `method` to
/// `url`: a received response gives its status and time taken; a failure
/// its message.
pub fn history_entry(
    ts_ms: u64,
    name: String,
    method: String,
    url: String,
    outcome: Result<(u16, u64), String>,
) -> (e: crate::history::HistoryEntry)
    ensures
        e.ts_ms == ts_ms && e.name == name && e.method == method && e.url == url,
        match outcome {
            Ok((status, ms)) => e.status == Some(status) && e.elapsed_ms == Some(ms) && e.error is None,
            Err(msg) => e.status is None && e.elapsed_ms is None && e.error == Some(msg),
        },
{
    let (status, elapsed_ms, error) = match outcome {
        Ok((s, ms)) => (Some(s), Some(ms), None),
        Err(m) => (None, None, Some(m)),
    };
    crate::history::HistoryEntry { ts_ms, name, method, url, status, elapsed_ms, error }
}

/// Request `i` is the first in `reqs` named `name`.
pub open spec fn first_named(reqs: Seq<Request>, name: Seq<char>, i: int) -> bool {
    &&& 0 <= i < reqs.len()
    &&& reqs[i].name@ == name
    &&& forall|j: int| 0 <= j < i ==> (#[trigger] reqs[j]).name@ != name
}

/// What the non-interactive mode does with a collection and a request name.
pub enum HeadlessPlan {
    /// Send this request.
    Send(EffectiveRequest),
    /// No request has that name; the names there are, joined by `, `, if
    /// the collection has any.
    NotFound(Option<String>),
    /// The request could not be built.
    Failed(ApiTesterError),
}

/// Decides the non-interactive run: the first request named `name`, built
/// in environment `env` (with `os_env` as the fallback for variables); or
/// that there is none, with the names there are; or the build's error.
pub fn plan_headless(coll: &Collection, name: &str, env: &str, os_env: &StringMap<String>) -> (r: HeadlessPlan)
    ensures
        match r {
            HeadlessPlan::NotFound(avail) => {
                &&& forall|j: int| 0 <= j < coll.requests@.len() ==> (#[trigger] coll.requests@[j]).name@ != name@
                &&& coll.requests@.len() == 0 ==> avail is None
                &&& coll.requests@.len() > 0 ==> (avail matches Some(s) && s@ == join_with(
                    request_name_list(coll.requests@),
                    ", "@,
                ))
            },
            HeadlessPlan::Send(b) => exists|i: int| #[trigger] first_named(coll.requests@, name@, i)
                && effective_spec(
                coll.requests@[i],
                match coll.base_url {
                    Some(u) => Some(u@),
                    None => None,
                },
                env_overlay(coll.env@, env@),
                os_env@,
            ) == Ok::<crate::builder::EffectiveSpec, Seq<char>>(b@),
            HeadlessPlan::Failed(e) => exists|i: int| #[trigger] first_named(coll.requests@, name@, i)
                && (effective_spec(
                coll.requests@[i],
                match coll.base_url {
                    Some(u) => Some(u@),
                    None => None,
                },
                env_overlay(coll.env@, env@),
                os_env@,
            ) matches Err(k) && (e matches ApiTesterError::UndefinedVar(n) && n@ == k)),
        },
{
    match find_request(coll, name) {
        None => {
            if coll.requests.len() == 0 {
                HeadlessPlan::NotFound(None)
            } else {
                HeadlessPlan::NotFound(Some(request_names(coll)))
            }
        },
        Some(i) => {
            let vars = resolve_env(coll, env);
            let base = match &coll.base_url {
                Some(b) => Some(b.as_str()),
                None => None,
            };
            let built = build_effective(&coll.requests[i], base, &vars, os_env);
            proof {
                assert(first_named(coll.requests@, name@, i as int));
            }
            match built {
                Ok(b) => HeadlessPlan::Send(b),
                Err(e) => HeadlessPlan::Failed(e),
            }
        },
    }
}

} // verus!
