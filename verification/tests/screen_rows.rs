use apitester::app::{ActivePanel, App, Confirm, InputMode, RequestField, StatusKind};
use apitester::history::HistoryEntry;
use apitester::http::SendOpts;
use apitester::model::{Body, Collection, Request};
use apitester::screen::{
    confirm_dialog, editor_title, history_row, history_rows, render_keys, request_list,
    response_header_row, response_placeholder, response_summary, render_status, title_row,
};
use apitester::strmap::StringMap;
use apitester::ui::Tint;
use apitester::view::{request_panel_lines, Piece};

fn texts(row: &[Piece]) -> Vec<String> {
    row.iter().map(|p| p.text.clone()).collect()
}

fn joined(rows: &[Vec<Piece>]) -> Vec<String> {
    rows.iter().map(|r| texts(r).concat()).collect()
}

fn app_with(reqs: Vec<Request>) -> App {
    let c = Collection { requests: reqs, ..Default::default() };
    App::new(c, "dev".into(), SendOpts::default())
}

fn req(method: &str, name: &str) -> Request {
    Request {
        name: name.into(),
        method: method.into(),
        url: "/users".into(),
        headers: StringMap::new(),
        query: StringMap::new(),
        body: None,
    }
}

#[test]
fn request_panel_shows_every_field() {
    let mut r = req("post", "create");
    r.query.insert("b".into(), "2".into());
    r.query.insert("a".into(), "1".into());
    r.headers.insert("X-Id".into(), "7".into());
    r.body = Some(Body { kind: "json".into(), content: "{\n}".into(), parts: vec![] });
    let mut app = app_with(vec![r]);
    app.active_panel = ActivePanel::RequestEditor;
    app.active_field = RequestField::Headers;
    let rows = request_panel_lines(&app);
    assert_eq!(
        joined(&rows),
        vec![
            "Method  : POST   [m] cycle",
            "URL     : /users",
            "Query   : a=1&b=2",
            "Headers : ",
            "  X-Id: 7",
            "Body    : [json]",
            "  {",
            "  }",
        ]
    );
    assert_eq!(rows[0][1].fg, Some(Tint::Yellow));
    assert_eq!(rows[3][0].fg, Some(Tint::Cyan));
    assert!(rows[3][0].bold);
    assert_eq!(rows[0][0].fg, Some(Tint::DarkGray));
}

#[test]
fn request_panel_marks_empty_fields_and_url_cursor() {
    let mut app = app_with(vec![req("GET", "list")]);
    app.active_panel = ActivePanel::RequestEditor;
    app.active_field = RequestField::Url;
    app.input_mode = InputMode::Insert;
    let rows = request_panel_lines(&app);
    assert_eq!(texts(&rows[1]), vec!["URL     : ", "/users", "█"]);
    assert!(rows[1][2].blink);
    assert_eq!(joined(&rows[2..]), vec!["Query   : <empty>", "Headers : <empty>", "Body    : <empty>"]);
}

#[test]
fn request_panel_shows_at_most_twenty_body_lines() {
    let mut r = req("GET", "big");
    let content: Vec<String> = (0..25).map(|i| format!("l{i}")).collect();
    r.body = Some(Body { kind: "raw".into(), content: content.join("\n"), parts: vec![] });
    let rows = request_panel_lines(&app_with(vec![r]));
    assert_eq!(rows.len(), 5 + 20);
    assert_eq!(texts(&rows[24]), vec!["  l19"]);
}

#[test]
fn request_panel_without_selection_shows_a_hint() {
    let rows = request_panel_lines(&app_with(vec![]));
    assert_eq!(joined(&rows), vec!["No request — press [a] to add one, or load a .toml file"]);
}

#[test]
fn key_hints_follow_the_mode() {
    let mut app = app_with(vec![req("GET", "x")]);
    assert!(texts(&render_keys(&app))[0].starts_with("[↑↓/jk] nav"));
    app.is_loading = true;
    assert_eq!(texts(&render_keys(&app)), vec!["[Esc] cancel  [Tab] panel  [?] help  [q] quit"]);
    app.input_mode = InputMode::Insert;
    app.active_field = RequestField::Query;
    let hints = render_keys(&app);
    assert_eq!(texts(&hints), vec![" INSERT ", "  ", "editing query (key=value per line)  [Esc] save"]);
    assert_eq!(hints[0].bg, Some(Tint::Cyan));
}

#[test]
fn status_row_colors_the_message() {
    let mut app = app_with(vec![]);
    assert!(render_status(&app).is_empty());
    app.status_message = Some((StatusKind::Warn, "careful".into()));
    let row = render_status(&app);
    assert_eq!(texts(&row), vec!["careful"]);
    assert_eq!(row[0].fg, Some(Tint::Yellow));
}

#[test]
fn title_row_names_collection_file_env_and_dirt() {
    let mut app = app_with(vec![]);
    assert_eq!(texts(&title_row(&app, None)).concat(), " ApiTester   untitled  [<no file>]  env=dev");
    app.collection.name = Some("Shop".into());
    app.dirty = true;
    assert_eq!(
        texts(&title_row(&app, Some("api.toml"))).concat(),
        " ApiTester   Shop  [api.toml]  env=dev ● dirty"
    );
}

#[test]
fn request_list_pads_methods() {
    let rows = request_list(&app_with(vec![req("get", "list"), req("DELETE", "remove")]));
    assert_eq!(joined(&rows), vec!["GET    list", "DELETE remove"]);
    assert_eq!(rows[1][0].fg, Some(Tint::Red));
    assert_eq!(joined(&request_list(&app_with(vec![]))), vec!["  empty — pass a .toml file as arg"]);
}

#[test]
fn confirm_dialogs() {
    let (title, rows) = confirm_dialog(Confirm::QuitDirty);
    assert_eq!(title, " unsaved changes ");
    assert_eq!(
        joined(&rows),
        vec!["", "You have unsaved changes. Quit anyway?", "", "y discard & quit    w save & quit    n / Esc cancel"]
    );
    let (title, rows) = confirm_dialog(Confirm::DeleteRequest);
    assert_eq!(title, " delete request ");
    assert_eq!(joined(&rows)[3], "y yes    n / Esc cancel");
}

fn entry(status: Option<u16>, elapsed: Option<u64>, error: Option<&str>) -> HistoryEntry {
    HistoryEntry {
        ts_ms: 0,
        name: "ping".into(),
        method: "GET".into(),
        url: "http://x/".into(),
        status,
        elapsed_ms: elapsed,
        error: error.map(String::from),
    }
}

#[test]
fn history_rows_show_outcome_and_timing() {
    assert_eq!(
        texts(&history_row(&entry(Some(200), Some(12), None))).concat(),
        "1970-01-01 00:00:00 200 GET   ping http://x/ 12ms"
    );
    let failed = history_row(&entry(None, None, Some("refused")));
    assert_eq!(texts(&failed)[1], "ERR");
    assert_eq!(texts(&failed)[5], " refused");
    assert_eq!(texts(&history_row(&entry(None, None, None)))[1], "???");
    assert_eq!(texts(&history_row(&entry(Some(42), None, None)))[1], "42 ");
    let rows = history_rows(&[]);
    assert_eq!(joined(&rows)[2], "  no history yet — send a request first");
    assert_eq!(history_rows(&[entry(Some(404), None, None)]).len(), 5);
}

#[test]
fn response_rows() {
    assert_eq!(texts(&response_placeholder(true)), vec!["  ⏳ Sending... [Esc] to cancel"]);
    assert_eq!(texts(&response_placeholder(false)), vec!["  No response yet — press [s] to send"]);
    let row = response_summary(404, 35, "1.2 KB", false);
    assert_eq!(texts(&row).concat(), "Status: 404 Not Found   Time: 35ms   Size: 1.2 KB   [h] show hdrs");
    assert_eq!(row[0].fg, Some(Tint::Yellow));
    assert_eq!(texts(&response_header_row("content-type", Some("text/plain"))).concat(), "content-type: text/plain");
    assert_eq!(texts(&response_header_row("x-bin", None)).concat(), "x-bin: ?");
}

#[test]
fn editor_titles() {
    assert_eq!(editor_title(RequestField::Url), " edit URL — Enter/Esc save ");
    assert_eq!(editor_title(RequestField::Method), " edit method —  ");
}
