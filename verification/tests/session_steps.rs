use apitester::app::{App, StatusKind};
use apitester::config::{Cli, Theme};
use apitester::error::ApiTesterError;
use apitester::http::{Response, SendOpts};
use apitester::model::{Body, Collection, Request};
use apitester::session::{
    apply_editor_result, cancel_inflight, export_file_name, finish_request, plan_headless,
    prepare_send, quit_if_saved, record_export, record_save, record_yank, send_opts_for, startup,
    HeadlessPlan, SaveOutcome,
};
use apitester::strmap::StringMap;
use std::time::Duration;

fn cli() -> Cli {
    Cli {
        collection: None,
        env: "dev".into(),
        timeout: 7,
        insecure: false,
        no_redirect: true,
        proxy: Some("http://proxy:3128".into()),
        no_color: true,
        theme: Theme::Light,
        no_cookies: true,
        headless: None,
    }
}

fn req(name: &str, url: &str) -> Request {
    Request {
        name: name.into(),
        method: "get".into(),
        url: url.into(),
        headers: StringMap::new(),
        query: StringMap::new(),
        body: None,
    }
}

fn coll(reqs: Vec<Request>) -> Collection {
    Collection { base_url: Some("https://api.test/".into()), requests: reqs, ..Default::default() }
}

fn status(app: &App) -> (StatusKind, String) {
    app.status_message.clone().unwrap()
}

#[test]
fn send_options_follow_the_command_line() {
    let o = send_opts_for(&cli(), None);
    assert_eq!(o.timeout, Duration::from_secs(7));
    assert!(!o.insecure);
    assert!(!o.follow_redirects);
    assert_eq!(o.proxy.as_deref(), Some("http://proxy:3128"));
    assert!(o.cookies.is_none());
}

#[test]
fn startup_takes_theme_colors_and_warns_when_insecure() {
    let mut c = cli();
    let app = startup(Collection::default(), None, &c, SendOpts::default());
    assert!(app.light_theme);
    assert!(app.no_color);
    assert_eq!(app.env, "dev");
    assert!(app.status_message.is_none());
    c.insecure = true;
    let app = startup(Collection::default(), None, &c, SendOpts::default());
    assert_eq!(status(&app), (StatusKind::Warn, "⚠ TLS verification disabled (--insecure)".to_string()));
}

#[test]
fn prepare_send_builds_the_selected_request() {
    let mut app = App::new(coll(vec![req("a", "/users")]), "default".into(), SendOpts::default());
    app.response_scroll = 4;
    let built = prepare_send(&mut app, &StringMap::new()).unwrap();
    assert_eq!(built.method, "GET");
    assert_eq!(built.url, "https://api.test/users");
    assert!(app.is_loading);
    assert_eq!(app.response_scroll, 0);
    assert_eq!(status(&app), (StatusKind::Info, "→ GET https://api.test/users".to_string()));
}

#[test]
fn prepare_send_reports_an_undefined_variable() {
    let mut app = App::new(coll(vec![req("a", "/u/{{ id }}")]), "default".into(), SendOpts::default());
    assert!(prepare_send(&mut app, &StringMap::new()).is_none());
    assert!(!app.is_loading);
    assert_eq!(status(&app), (StatusKind::Error, "undefined variable: {{id}}".to_string()));
}

#[test]
fn prepare_send_without_selection_warns() {
    let mut app = App::new(coll(vec![]), "default".into(), SendOpts::default());
    assert!(prepare_send(&mut app, &StringMap::new()).is_none());
    assert_eq!(status(&app), (StatusKind::Warn, "no request selected".to_string()));
}

#[test]
fn cancel_without_a_request_in_flight_changes_nothing() {
    let mut app = App::new(coll(vec![]), "default".into(), SendOpts::default());
    cancel_inflight(&mut app);
    assert!(app.status_message.is_none());
}

#[test]
fn save_outcomes() {
    let mut app = App::new(coll(vec![]), "default".into(), SendOpts::default());
    app.dirty = true;
    record_save(&mut app, SaveOutcome::NoPath);
    assert!(app.dirty);
    assert_eq!(status(&app).1, "no path — pass a .toml as arg to enable save");
    record_save(&mut app, SaveOutcome::Failed("disk full".into()));
    assert_eq!(status(&app), (StatusKind::Error, "save failed: disk full".to_string()));
    quit_if_saved(&mut app);
    assert!(!app.should_quit);
    record_save(&mut app, SaveOutcome::Saved("api.toml".into()));
    assert!(!app.dirty);
    assert_eq!(status(&app), (StatusKind::Info, "saved api.toml".to_string()));
    quit_if_saved(&mut app);
    assert!(app.should_quit);
}

#[test]
fn editor_results() {
    let mut app = App::new(coll(vec![req("a", "/")]), "default".into(), SendOpts::default());
    apply_editor_result(&mut app, Ok(Some("{}".into())));
    assert!(app.dirty);
    assert_eq!(app.collection.requests[0].body.as_ref().unwrap().content, "{}");
    assert_eq!(status(&app).1, "body updated from $EDITOR");
    app.dirty = false;
    apply_editor_result(&mut app, Ok(Some("{}".into())));
    assert!(!app.dirty);
    apply_editor_result(&mut app, Ok(None));
    assert_eq!(status(&app), (StatusKind::Warn, "editor exited — body unchanged".to_string()));
    apply_editor_result(&mut app, Err("not found".into()));
    assert_eq!(status(&app), (StatusKind::Error, "editor failed: not found".to_string()));
}

#[test]
fn export_names_and_outcomes() {
    let mut app = App::new(coll(vec![req("Get Status", "/")]), "default".into(), SendOpts::default());
    assert_eq!(export_file_name(&app, true), "Get_Status.json");
    assert_eq!(export_file_name(&app, false), "Get_Status.txt");
    let empty = App::new(coll(vec![]), "default".into(), SendOpts::default());
    assert_eq!(export_file_name(&empty, true), "response.json");
    record_export(&mut app, "Get_Status.json", Ok(()));
    assert_eq!(status(&app).1, "exported → Get_Status.json");
    record_export(&mut app, "x", Err("denied".into()));
    assert_eq!(status(&app).1, "export failed: denied");
    record_yank(&mut app, Ok(()));
    assert_eq!(status(&app).1, "response copied to clipboard");
    record_yank(&mut app, Err("no display".into()));
    assert_eq!(status(&app), (StatusKind::Error, "clipboard failed: no display".to_string()));
}

#[test]
fn finished_requests_are_reported() {
    let mut app = App::new(coll(vec![]), "default".into(), SendOpts::default());
    app.is_loading = true;
    let resp = Response {
        status: 503,
        elapsed: Duration::from_millis(1234),
        headers: reqwest::header::HeaderMap::new(),
        body: "down".into(),
    };
    finish_request(&mut app, Ok(resp));
    assert!(!app.is_loading);
    assert_eq!(status(&app), (StatusKind::Warn, "← 503 in 1234ms".to_string()));
    assert_eq!(app.response.as_ref().unwrap().body, "down");
    finish_request(&mut app, Err("request timed out".into()));
    assert_eq!(status(&app), (StatusKind::Error, "✗ request timed out".to_string()));
}

#[test]
fn headless_plans() {
    let mut c = coll(vec![req("a", "/one"), req("b", "/two"), req("b", "/three")]);
    match plan_headless(&c, "b", "default", &StringMap::new()) {
        HeadlessPlan::Send(b) => assert_eq!(b.url, "https://api.test/two"),
        _ => panic!("expected a request to send"),
    }
    match plan_headless(&c, "zzz", "default", &StringMap::new()) {
        HeadlessPlan::NotFound(names) => assert_eq!(names.as_deref(), Some("a, b, b")),
        _ => panic!("expected not found"),
    }
    c.requests[0].body = Some(Body { kind: "raw".into(), content: "{{token}}".into(), parts: vec![] });
    match plan_headless(&c, "a", "default", &StringMap::new()) {
        HeadlessPlan::Failed(ApiTesterError::UndefinedVar(n)) => assert_eq!(n, "token"),
        _ => panic!("expected an undefined variable"),
    }
    match plan_headless(&Collection::default(), "a", "default", &StringMap::new()) {
        HeadlessPlan::NotFound(names) => assert!(names.is_none()),
        _ => panic!("expected not found"),
    }
}
