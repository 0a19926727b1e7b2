use apitester::app::{map_to_text, next_method, parse_map, ActivePanel, App, InputMode, RequestField};
use apitester::editor::Editor;
use apitester::http::SendOpts;
use apitester::model::{Body, Collection, Request};
use apitester::strmap::StringMap;
use tui_textarea::TextArea;

fn mk(name: &str, method: &str, url: &str) -> Request {
    Request {
        name: name.into(),
        method: method.into(),
        url: url.into(),
        headers: StringMap::new(),
        query: StringMap::new(),
        body: None,
    }
}

fn fixture() -> App {
    let c = Collection {
        requests: vec![mk("a", "GET", "/a"), mk("b", "POST", "/b"), mk("c", "GET", "/c")],
        ..Default::default()
    };
    App::new(c, "default".into(), SendOpts::default())
}

fn empty_app() -> App {
    App::new(Collection::default(), "default".into(), SendOpts::default())
}

fn type_into_editor(app: &mut App, text: &str) {
    app.editor.as_mut().unwrap().area.insert_str(text);
}

#[test]
fn select_next_wraps() {
    let mut app = fixture();
    app.selected = 2;
    app.select_next();
    assert_eq!(app.selected, 0);
}

#[test]
fn select_prev_wraps() {
    let mut app = fixture();
    app.selected = 0;
    app.select_prev();
    assert_eq!(app.selected, 2);
}

#[test]
fn cycle_panel_full_loop() {
    let mut app = fixture();
    assert_eq!(app.active_panel, ActivePanel::CollectionList);
    app.cycle_panel();
    assert_eq!(app.active_panel, ActivePanel::RequestEditor);
    app.cycle_panel();
    assert_eq!(app.active_panel, ActivePanel::ResponseViewer);
    app.cycle_panel();
    assert_eq!(app.active_panel, ActivePanel::CollectionList);
}

#[test]
fn select_on_empty_is_noop() {
    let mut app = empty_app();
    app.select_next();
    app.select_prev();
    assert_eq!(app.selected, 0);
}

#[test]
fn select_field_cycles() {
    let mut app = fixture();
    assert_eq!(app.active_field, RequestField::Url);
    app.select_field_next();
    assert_eq!(app.active_field, RequestField::Query);
    app.select_field_prev();
    assert_eq!(app.active_field, RequestField::Url);
    app.select_field_prev();
    assert_eq!(app.active_field, RequestField::Method);
}

#[test]
fn cycle_method_advances_and_marks_dirty() {
    let mut app = fixture();
    assert!(!app.dirty);
    assert_eq!(app.collection.requests[0].method, "GET");
    assert!(app.cycle_method());
    assert_eq!(app.collection.requests[0].method, "POST");
    assert!(app.dirty);
}

#[test]
fn cycle_method_full_loop() {
    let mut app = fixture();
    for expected in &["POST", "PUT", "PATCH", "DELETE", "GET"] {
        app.cycle_method();
        assert_eq!(app.collection.requests[0].method, *expected);
    }
}

#[test]
fn begin_edit_method_returns_false() {
    let mut app = fixture();
    app.active_panel = ActivePanel::RequestEditor;
    app.active_field = RequestField::Method;
    assert!(!app.begin_edit());
    assert_eq!(app.input_mode, InputMode::Normal);
}

#[test]
fn begin_edit_outside_request_panel_returns_false() {
    let mut app = fixture();
    app.active_panel = ActivePanel::CollectionList;
    app.active_field = RequestField::Url;
    assert!(!app.begin_edit());
}

#[test]
fn commit_edit_url_appends_and_dirties() {
    let mut app = fixture();
    app.active_panel = ActivePanel::RequestEditor;
    app.active_field = RequestField::Url;
    assert!(app.begin_edit());
    type_into_editor(&mut app, "X");
    app.commit_edit();
    assert_eq!(app.collection.requests[0].url, "/aX");
    assert!(app.dirty);
    assert_eq!(app.input_mode, InputMode::Normal);
    assert!(app.editor.is_none());
}

#[test]
fn commit_edit_unchanged_stays_clean() {
    let mut app = fixture();
    app.active_panel = ActivePanel::RequestEditor;
    app.active_field = RequestField::Url;
    app.begin_edit();
    app.commit_edit();
    assert!(!app.dirty);
}

#[test]
fn cancel_edit_discards() {
    let mut app = fixture();
    app.active_panel = ActivePanel::RequestEditor;
    app.active_field = RequestField::Url;
    app.begin_edit();
    type_into_editor(&mut app, "ZZZ");
    app.cancel_edit();
    assert_eq!(app.collection.requests[0].url, "/a");
    assert!(!app.dirty);
    assert!(app.editor.is_none());
}

#[test]
fn commit_edit_body_sets_content() {
    let mut app = fixture();
    app.active_panel = ActivePanel::RequestEditor;
    app.active_field = RequestField::Body;
    app.begin_edit();
    type_into_editor(&mut app, "{\"a\":1}");
    app.commit_edit();
    let body = app.collection.requests[0].body.as_ref().unwrap();
    assert_eq!(body.content, "{\"a\":1}");
    assert_eq!(body.kind, "raw");
    assert!(app.dirty);
}

#[test]
fn commit_empty_body_clears_to_none() {
    let mut app = fixture();
    app.collection.requests[0].body = Some(Body {
        kind: "raw".into(),
        content: "x".into(),
        parts: vec![],
    });
    app.active_panel = ActivePanel::RequestEditor;
    app.active_field = RequestField::Body;
    app.editor = Some(Editor { area: TextArea::default() });
    app.input_mode = InputMode::Insert;
    app.commit_edit();
    assert!(app.collection.requests[0].body.is_none());
    assert!(app.dirty);
}

#[test]
fn commit_edit_headers_parses_lines() {
    let mut app = fixture();
    app.active_panel = ActivePanel::RequestEditor;
    app.active_field = RequestField::Headers;
    app.begin_edit();
    type_into_editor(&mut app, "Authorization: Bearer xyz");
    app.commit_edit();
    assert_eq!(
        app.collection.requests[0].headers.get("Authorization").map(String::as_str),
        Some("Bearer xyz")
    );
    assert!(app.dirty);
}

#[test]
fn commit_edit_query_parses_lines() {
    let mut app = fixture();
    app.active_panel = ActivePanel::RequestEditor;
    app.active_field = RequestField::Query;
    app.begin_edit();
    type_into_editor(&mut app, "page=2");
    app.commit_edit();
    assert_eq!(app.collection.requests[0].query.get("page").map(String::as_str), Some("2"));
}

#[test]
fn map_text_round_trips() {
    let mut m = StringMap::new();
    m.insert("A".to_string(), "1".to_string());
    m.insert("B".to_string(), "two words".to_string());
    let text = map_to_text(&m, ':');
    assert_eq!(text, "A: 1\nB: two words");
    let lines: Vec<String> = text.lines().map(str::to_string).collect();
    assert_eq!(parse_map(&lines, ':'), m);
}

#[test]
fn parse_map_skips_blank_and_separatorless_lines() {
    let lines = vec!["x=1".to_string(), String::new(), "garbage".to_string(), "y=2".to_string()];
    let m = parse_map(&lines, '=');
    assert_eq!(m.len(), 2);
    assert_eq!(m.get("x").map(String::as_str), Some("1"));
    assert_eq!(m.get("y").map(String::as_str), Some("2"));
}

#[test]
fn set_body_content_applies_and_clears() {
    let mut app = fixture();
    assert!(app.set_body_content("hi".into()));
    assert_eq!(app.collection.requests[0].body.as_ref().unwrap().content, "hi");
    assert!(!app.set_body_content("hi".into()));
    assert!(app.set_body_content("  ".into()));
    assert!(app.collection.requests[0].body.is_none());
}

#[test]
fn add_request_inserts_after_selection_and_selects_it() {
    let mut app = fixture();
    app.selected = 0;
    app.add_request();
    assert_eq!(app.collection.requests.len(), 4);
    assert_eq!(app.selected, 1);
    assert_eq!(app.collection.requests[1].name, "new-request");
    assert!(app.dirty);
}

#[test]
fn add_request_on_empty_inserts_at_front() {
    let mut app = empty_app();
    app.add_request();
    assert_eq!(app.collection.requests.len(), 1);
    assert_eq!(app.selected, 0);
}

#[test]
fn delete_selected_removes_and_clamps() {
    let mut app = fixture();
    app.selected = 2;
    assert!(app.delete_selected());
    assert_eq!(app.collection.requests.len(), 2);
    assert_eq!(app.selected, 1);
    assert!(app.dirty);
}

#[test]
fn delete_selected_middle_keeps_index() {
    let mut app = fixture();
    app.selected = 1;
    app.delete_selected();
    assert_eq!(app.collection.requests.len(), 2);
    assert_eq!(app.selected, 1);
    assert_eq!(app.collection.requests[1].name, "c");
}

#[test]
fn delete_selected_on_empty_is_false() {
    let mut app = empty_app();
    assert!(!app.delete_selected());
}

#[test]
fn scroll_saturates_at_zero() {
    let mut app = fixture();
    app.scroll_response_up();
    assert_eq!(app.response_scroll, 0);
}

#[test]
fn scroll_down_increments() {
    let mut app = fixture();
    app.scroll_response_down();
    app.scroll_response_down();
    assert_eq!(app.response_scroll, 2);
}

#[test]
fn select_resets_scroll() {
    let mut app = fixture();
    app.response_scroll = 10;
    app.select_next();
    assert_eq!(app.response_scroll, 0);
}

#[test]
fn scroll_down_saturates_at_the_top_of_u16() {
    let mut app = fixture();
    app.response_scroll = u16::MAX;
    app.scroll_response_down();
    assert_eq!(app.response_scroll, u16::MAX);
}

#[test]
fn next_method_cycles_and_falls_back_to_get() {
    assert_eq!(next_method("GET"), "POST");
    assert_eq!(next_method("post"), "PUT");
    assert_eq!(next_method("PUT"), "PATCH");
    assert_eq!(next_method("PATCH"), "DELETE");
    assert_eq!(next_method("DELETE"), "GET");
    assert_eq!(next_method("OPTIONS"), "GET");
}

#[test]
fn map_to_text_of_empty_map_is_empty() {
    assert_eq!(map_to_text(&StringMap::new(), '='), "");
}

#[test]
fn parse_map_trims_keys_and_values_and_later_lines_win() {
    let lines = vec![" a = 1 ".to_string(), "a=2".to_string(), "b==3".to_string()];
    let m = parse_map(&lines, '=');
    assert_eq!(m.len(), 2);
    assert_eq!(m.get("a").map(String::as_str), Some("2"));
    assert_eq!(m.get("b").map(String::as_str), Some("=3"));
}

#[test]
fn current_body_reads_the_selected_body() {
    let mut app = fixture();
    assert_eq!(app.current_body(), "");
    app.set_body_content("payload".into());
    assert_eq!(app.current_body(), "payload");
}

#[test]
fn commit_keeps_the_body_kind() {
    let mut app = fixture();
    app.collection.requests[0].body = Some(Body {
        kind: "json".into(),
        content: "{}".into(),
        parts: vec![],
    });
    app.active_panel = ActivePanel::RequestEditor;
    app.active_field = RequestField::Body;
    app.begin_edit();
    type_into_editor(&mut app, "x");
    app.commit_edit();
    let body = app.collection.requests[0].body.as_ref().unwrap();
    assert_eq!(body.kind, "json");
    assert_eq!(body.content, "{}x");
}

#[test]
fn untouched_edits_of_every_field_keep_the_request_clean() {
    let mut app = fixture();
    app.collection.requests[0].headers.insert("Accept".into(), "text/plain".into());
    app.collection.requests[0].query.insert("page".into(), "2".into());
    app.collection.requests[0].body = Some(Body {
        kind: "json".into(),
        content: "line one\nline two".into(),
        parts: vec![],
    });
    app.active_panel = ActivePanel::RequestEditor;
    for f in [RequestField::Url, RequestField::Query, RequestField::Headers, RequestField::Body] {
        app.active_field = f;
        assert!(app.begin_edit());
        app.commit_edit();
        assert_eq!(app.input_mode, InputMode::Normal);
    }
    assert!(!app.dirty);
    let r = &app.collection.requests[0];
    assert_eq!(r.url, "/a");
    assert_eq!(r.headers.get("Accept").map(String::as_str), Some("text/plain"));
    assert_eq!(r.query.get("page").map(String::as_str), Some("2"));
    assert_eq!(r.body.as_ref().unwrap().content, "line one\nline two");
}

#[test]
fn map_text_with_an_empty_header_value_reads_back() {
    let mut m = StringMap::new();
    m.insert("X-Empty".to_string(), String::new());
    m.insert("Host".to_string(), "example.com".to_string());
    let text = map_to_text(&m, ':');
    assert_eq!(text, "Host: example.com\nX-Empty: ");
    let lines: Vec<String> = text.lines().map(str::to_string).collect();
    assert_eq!(parse_map(&lines, ':'), m);
}
