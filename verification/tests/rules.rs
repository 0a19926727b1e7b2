use apitester::app::{ActivePanel, StatusKind};
use apitester::config::Theme;
use apitester::error::{classify_transport_error, error_chain, ApiTesterError};
use apitester::export::sanitize_filename;
use apitester::headless::{
    exit_code_for_outcome, exit_code_for_status, find_request, request_names, HeadlessOutcome,
    EXIT_HTTP_ERROR, EXIT_OK,
};
use apitester::http::{parse_method, Response, StatusClass};
use apitester::model::{default_body_type, Collection, Request};
use apitester::strmap::StringMap;
use apitester::ui::{
    cache_key, canonical_status_text, method_color, panel_border, response_status_kind,
    status_class_color, status_color, status_kind_color, trim_eol, Tint,
};
use std::time::Duration;

#[test]
fn sanitize_replaces_unsafe_chars() {
    assert_eq!(sanitize_filename("Get Status"), "Get_Status");
    assert_eq!(sanitize_filename("user/by:id?x"), "user_by_id_x");
}

#[test]
fn sanitize_keeps_safe_chars() {
    assert_eq!(sanitize_filename("get-user_01"), "get-user_01");
}

#[test]
fn sanitizing_twice_changes_nothing() {
    for name in ["Get Status", "__a b__", "///", "", "é-x_", "get-user_01"] {
        let once = sanitize_filename(name);
        assert_eq!(sanitize_filename(&once), once);
    }
}

#[test]
fn sanitize_empty_falls_back() {
    assert_eq!(sanitize_filename("///"), "response");
}

#[test]
fn sanitize_strips_leading_underscores_and_masks_non_ascii() {
    assert_eq!(sanitize_filename(" leading"), "leading");
    assert_eq!(sanitize_filename("café"), "caf");
    assert_eq!(sanitize_filename("café x"), "caf__x");
    assert_eq!(sanitize_filename(""), "response");
}

fn resp(status: u16, body: &str) -> Response {
    Response {
        status,
        elapsed: Duration::from_millis(5),
        headers: reqwest::header::HeaderMap::new(),
        body: body.into(),
    }
}

#[test]
fn status_classes_follow_the_hundreds() {
    assert_eq!(resp(101, "").status_class(), StatusClass::Info);
    assert_eq!(resp(204, "").status_class(), StatusClass::Success);
    assert_eq!(resp(302, "").status_class(), StatusClass::Redirect);
    assert_eq!(resp(404, "").status_class(), StatusClass::ClientError);
    assert_eq!(resp(503, "").status_class(), StatusClass::ServerError);
    assert_eq!(resp(99, "").status_class(), StatusClass::Unknown);
    assert_eq!(resp(600, "").status_class(), StatusClass::Unknown);
}

#[test]
fn size_counts_utf8_bytes() {
    assert_eq!(resp(200, "").size_bytes(), 0);
    assert_eq!(resp(200, "abc").size_bytes(), 3);
    assert_eq!(resp(200, "é").size_bytes(), 2);
}

#[test]
fn method_is_upper_cased_before_parsing() {
    assert_eq!(parse_method("post").unwrap(), reqwest::Method::POST);
    assert_eq!(parse_method("GET").unwrap(), reqwest::Method::GET);
    assert_eq!(parse_method("purge").unwrap().as_str(), "PURGE");
}

#[test]
fn invalid_method_is_reported_as_given() {
    match parse_method("bad method") {
        Err(ApiTesterError::InvalidMethod(m)) => assert_eq!(m, "bad method"),
        other => panic!("unexpected {:?}", other),
    }
    assert!(matches!(parse_method(""), Err(ApiTesterError::InvalidMethod(_))));
}

#[test]
fn timeout_message_wins() {
    assert_eq!(
        classify_transport_error(true, true, false, "operation timed out"),
        "request timed out (raise --timeout if the server is just slow)"
    );
}

#[test]
fn tls_failures_suggest_insecure() {
    assert_eq!(
        classify_transport_error(false, true, false, "invalid peer Certificate: UnknownIssuer"),
        "TLS error: invalid peer Certificate: UnknownIssuer (pass --insecure to skip verification for trusted hosts)"
    );
}

#[test]
fn connect_failures_are_told_apart() {
    assert_eq!(
        classify_transport_error(false, true, false, "dns error: failed to lookup address"),
        "DNS resolution failed: dns error: failed to lookup address"
    );
    assert_eq!(
        classify_transport_error(false, true, false, "tcp connect error: Connection refused (os error 111)"),
        "connection refused: tcp connect error: Connection refused (os error 111) (is the server running on that host/port?)"
    );
    assert_eq!(
        classify_transport_error(false, true, false, "network unreachable"),
        "connection failed: network unreachable"
    );
}

#[test]
fn redirect_and_other_failures() {
    assert_eq!(
        classify_transport_error(false, false, true, "error following redirect"),
        "too many redirects: error following redirect"
    );
    assert_eq!(
        classify_transport_error(false, false, false, "body decode"),
        "request failed: body decode"
    );
}

#[test]
fn error_chain_drops_repeated_neighbours() {
    let parts: Vec<String> = vec!["a".into(), "a".into(), "b".into(), "a".into()];
    assert_eq!(error_chain(&parts), "a: b: a");
    assert_eq!(error_chain(&[]), "");
    assert_eq!(error_chain(&["only".to_string()]), "only");
}

#[test]
fn method_colors() {
    assert_eq!(method_color("get"), Tint::Green);
    assert_eq!(method_color("POST"), Tint::Yellow);
    assert_eq!(method_color("put"), Tint::Blue);
    assert_eq!(method_color("Patch"), Tint::Blue);
    assert_eq!(method_color("DELETE"), Tint::Red);
    assert_eq!(method_color("HEAD"), Tint::Gray);
}

#[test]
fn focused_panel_gets_the_accent_border() {
    assert_eq!(panel_border(ActivePanel::RequestEditor, ActivePanel::RequestEditor), Tint::Cyan);
    assert_eq!(panel_border(ActivePanel::RequestEditor, ActivePanel::ResponseViewer), Tint::DarkGray);
}

#[test]
fn status_and_kind_colors() {
    assert_eq!(status_color(200), Tint::Green);
    assert_eq!(status_color(301), Tint::Magenta);
    assert_eq!(status_color(418), Tint::Yellow);
    assert_eq!(status_color(599), Tint::Red);
    assert_eq!(status_color(0), Tint::Gray);
    assert_eq!(status_class_color(StatusClass::Info), Tint::Cyan);
    assert_eq!(status_class_color(StatusClass::Unknown), Tint::Gray);
    assert_eq!(status_kind_color(StatusKind::Warn), Tint::Yellow);
    assert_eq!(status_kind_color(StatusKind::Error), Tint::Red);
    assert_eq!(response_status_kind(StatusClass::ServerError), StatusKind::Warn);
    assert_eq!(response_status_kind(StatusClass::Success), StatusKind::Info);
}

#[test]
fn reason_phrases() {
    assert_eq!(canonical_status_text(200), "OK");
    assert_eq!(canonical_status_text(404), "Not Found");
    assert_eq!(canonical_status_text(504), "Gateway Timeout");
    assert_eq!(canonical_status_text(299), "");
}

#[test]
fn cache_key_holds_flags_and_text() {
    assert_eq!(cache_key("{}", true, false), "1|0|{}");
    assert_eq!(cache_key("", false, true), "0|1|");
}

#[test]
fn trim_eol_strips_only_line_endings() {
    assert_eq!(trim_eol("a b\r\n"), "a b");
    assert_eq!(trim_eol("x\n\n"), "x");
    assert_eq!(trim_eol(" y "), " y ");
    assert_eq!(trim_eol(""), "");
}

fn named(name: &str) -> Request {
    Request {
        name: name.into(),
        method: "GET".into(),
        url: "/".into(),
        headers: StringMap::new(),
        query: StringMap::new(),
        body: None,
    }
}

#[test]
fn find_request_takes_the_first_match() {
    let c = Collection {
        requests: vec![named("a"), named("b"), named("b")],
        ..Default::default()
    };
    assert_eq!(find_request(&c, "b"), Some(1));
    assert_eq!(find_request(&c, "a"), Some(0));
    assert_eq!(find_request(&c, "B"), None);
    assert_eq!(request_names(&c), "a, b, b");
    assert_eq!(request_names(&Collection::default()), "");
}

#[test]
fn exit_codes_split_at_400() {
    assert_eq!(exit_code_for_status(200), EXIT_OK);
    assert_eq!(exit_code_for_status(399), 0);
    assert_eq!(exit_code_for_status(400), EXIT_HTTP_ERROR);
    assert_eq!(exit_code_for_status(503), 1);
}

#[test]
fn theme_and_body_defaults() {
    assert_eq!(Theme::default(), Theme::Dark);
    assert!(!Theme::Dark.is_light());
    assert!(Theme::Light.is_light());
    assert_eq!(default_body_type(), "raw");
}

#[test]
fn string_map_keeps_one_value_per_key() {
    let mut m = StringMap::new();
    assert!(m.is_empty());
    m.insert("b".to_string(), "1".to_string());
    m.insert("a".to_string(), "2".to_string());
    m.insert("b".to_string(), "3".to_string());
    assert_eq!(m.len(), 2);
    assert_eq!(m.key_at(0), "a");
    assert_eq!(m.get("b").map(String::as_str), Some("3"));
    assert_eq!(m.get("c"), None);
}

#[test]
fn json_bodies_are_detected_and_pretty_printed() {
    let r = resp(200, "{\"b\":1,\"a\":[true,null]}");
    assert!(r.is_json());
    assert_eq!(r.pretty_body(), "{\n  \"a\": [\n    true,\n    null\n  ],\n  \"b\": 1\n}");
    let plain = resp(200, "hello {");
    assert!(!plain.is_json());
    assert_eq!(plain.pretty_body(), "hello {");
}

#[test]
fn error_messages_name_what_went_wrong() {
    let e = ApiTesterError::UndefinedVar("token".into());
    assert_eq!(e.message(""), "undefined variable: {{token}}");
    assert_eq!(ApiTesterError::InvalidMethod("GE T".into()).message(""), "invalid HTTP method: GE T");
    assert_eq!(ApiTesterError::InvalidUrl("::".into()).message(""), "invalid URL: ::");
    assert_eq!(ApiTesterError::TomlParse("line 3".into()).message(""), "invalid TOML: line 3");
    let missing = ApiTesterError::CollectionNotFound(std::path::PathBuf::from("/x.toml"));
    assert_eq!(missing.message("/x.toml"), "collection file not found: /x.toml");
    let io = ApiTesterError::Io(std::io::Error::other("disk full"));
    assert_eq!(io.message("disk full"), "io error: disk full");
    let read = ApiTesterError::FileRead { path: "a.bin".into(), source: std::io::Error::other("gone") };
    assert_eq!(read.message("gone"), "cannot read upload file 'a.bin': gone");
}

#[test]
fn exit_codes_tell_how_a_run_ended() {
    assert_eq!(exit_code_for_outcome(HeadlessOutcome::Status(204)), 0);
    assert_eq!(exit_code_for_outcome(HeadlessOutcome::Status(404)), 1);
    assert_eq!(exit_code_for_outcome(HeadlessOutcome::NoCollection), 2);
    assert_eq!(exit_code_for_outcome(HeadlessOutcome::NotFound), 3);
    assert_eq!(exit_code_for_outcome(HeadlessOutcome::Transport), 4);
}

#[test]
fn each_method_goes_out_as_written_in_capitals() {
    assert_eq!(parse_method("get").unwrap(), reqwest::Method::GET);
    assert_eq!(parse_method("Patch").unwrap(), reqwest::Method::PATCH);
    assert_eq!(parse_method("delete").unwrap(), reqwest::Method::DELETE);
    assert_ne!(parse_method("put").unwrap(), reqwest::Method::GET);
}

#[test]
fn header_pane_is_capped_at_ten_rows() {
    assert_eq!(apitester::ui::header_pane_height(3, false), 0);
    assert_eq!(apitester::ui::header_pane_height(0, true), 1);
    assert_eq!(apitester::ui::header_pane_height(3, true), 4);
    assert_eq!(apitester::ui::header_pane_height(9, true), 10);
    assert_eq!(apitester::ui::header_pane_height(40, true), 10);
}
