use apitester::app::{ActivePanel, App, Confirm, InputMode, RequestField};
use apitester::http::SendOpts;
use apitester::input::{handle_key, Action};
use apitester::keys::{KeyCode, KeyInput};
use apitester::model::{Collection, Request};
use apitester::strmap::StringMap;
use tui_textarea::{Input, Key};

fn raw_key(code: KeyCode) -> Key {
    match code {
        KeyCode::Char(c) => Key::Char(c),
        KeyCode::F(n) => Key::F(n),
        KeyCode::Backspace => Key::Backspace,
        KeyCode::Enter => Key::Enter,
        KeyCode::Left => Key::Left,
        KeyCode::Right => Key::Right,
        KeyCode::Up => Key::Up,
        KeyCode::Down => Key::Down,
        KeyCode::Tab => Key::Tab,
        KeyCode::Delete => Key::Delete,
        KeyCode::Home => Key::Home,
        KeyCode::End => Key::End,
        KeyCode::PageUp => Key::PageUp,
        KeyCode::PageDown => Key::PageDown,
        KeyCode::Esc => Key::Esc,
        KeyCode::Null => Key::Null,
    }
}

fn press(code: KeyCode, ctrl: bool) -> KeyInput {
    KeyInput {
        code,
        ctrl,
        raw: Input { key: raw_key(code), ctrl, alt: false, shift: false },
    }
}

fn key(code: KeyCode) -> KeyInput {
    press(code, false)
}

fn ctrl(code: KeyCode) -> KeyInput {
    press(code, true)
}

fn empty_app() -> App {
    App::new(Collection::default(), "default".into(), SendOpts::default())
}

fn app_with_request() -> App {
    let mut c = Collection::default();
    c.requests.push(Request {
        name: "x".into(),
        method: "GET".into(),
        url: "/api".into(),
        headers: StringMap::new(),
        query: StringMap::new(),
        body: None,
    });
    App::new(c, "default".into(), SendOpts::default())
}

#[test]
fn q_sets_quit() {
    let mut app = empty_app();
    assert!(handle_key(&mut app, key(KeyCode::Char('q'))).is_none());
    assert!(app.should_quit);
}

#[test]
fn ctrl_c_sets_quit() {
    let mut app = empty_app();
    handle_key(&mut app, ctrl(KeyCode::Char('c')));
    assert!(app.should_quit);
}

#[test]
fn tab_cycles_panel() {
    let mut app = empty_app();
    handle_key(&mut app, key(KeyCode::Tab));
    assert_eq!(app.active_panel, ActivePanel::RequestEditor);
}

#[test]
fn help_toggle() {
    let mut app = empty_app();
    handle_key(&mut app, key(KeyCode::Char('?')));
    assert!(app.help_open);
    handle_key(&mut app, key(KeyCode::Esc));
    assert!(!app.help_open);
}

#[test]
fn quit_blocked_when_help_open() {
    let mut app = empty_app();
    app.help_open = true;
    handle_key(&mut app, key(KeyCode::Char('q')));
    assert!(!app.should_quit);
    assert!(!app.help_open);
}

#[test]
fn s_returns_send_action() {
    let mut app = empty_app();
    let action = handle_key(&mut app, key(KeyCode::Char('s')));
    assert!(matches!(action, Some(Action::Send)));
}

#[test]
fn s_blocked_while_loading() {
    let mut app = empty_app();
    app.is_loading = true;
    let action = handle_key(&mut app, key(KeyCode::Char('s')));
    assert!(action.is_none());
}

#[test]
fn esc_cancels_when_loading() {
    let mut app = empty_app();
    app.is_loading = true;
    let action = handle_key(&mut app, key(KeyCode::Esc));
    assert!(matches!(action, Some(Action::Cancel)));
}

#[test]
fn esc_noop_when_idle() {
    let mut app = empty_app();
    let action = handle_key(&mut app, key(KeyCode::Esc));
    assert!(action.is_none());
}

#[test]
fn h_toggles_response_headers() {
    let mut app = empty_app();
    assert!(!app.show_response_headers);
    handle_key(&mut app, key(KeyCode::Char('h')));
    assert!(app.show_response_headers);
    handle_key(&mut app, key(KeyCode::Char('h')));
    assert!(!app.show_response_headers);
}

#[test]
fn arrow_in_response_panel_scrolls_not_select() {
    let mut app = empty_app();
    app.active_panel = ActivePanel::ResponseViewer;
    handle_key(&mut app, key(KeyCode::Down));
    assert_eq!(app.response_scroll, 1);
    assert_eq!(app.selected, 0);
}

#[test]
fn arrow_in_request_editor_cycles_field() {
    let mut app = app_with_request();
    app.active_panel = ActivePanel::RequestEditor;
    assert_eq!(app.active_field, RequestField::Url);
    handle_key(&mut app, key(KeyCode::Down));
    assert_eq!(app.active_field, RequestField::Query);
}

#[test]
fn m_cycles_method_and_marks_dirty() {
    let mut app = app_with_request();
    handle_key(&mut app, key(KeyCode::Char('m')));
    assert_eq!(app.collection.requests[0].method, "POST");
    assert!(app.dirty);
}

#[test]
fn w_returns_save_action() {
    let mut app = empty_app();
    let action = handle_key(&mut app, key(KeyCode::Char('w')));
    assert!(matches!(action, Some(Action::Save)));
}

fn start_url_edit() -> App {
    let mut app = app_with_request();
    app.active_panel = ActivePanel::RequestEditor;
    app.active_field = RequestField::Url;
    handle_key(&mut app, key(KeyCode::Char('e')));
    app
}

#[test]
fn e_enters_insert_for_url() {
    let app = start_url_edit();
    assert_eq!(app.input_mode, InputMode::Insert);
    assert!(app.editor.is_some());
}

#[test]
fn editing_starts_at_the_end_of_the_text() {
    let app = start_url_edit();
    assert_eq!(app.editor.as_ref().unwrap().area.cursor(), (0, 4));
    let mut app = app_with_request();
    app.collection.requests[0].headers.insert("A".into(), "1".into());
    app.collection.requests[0].headers.insert("Bee".into(), "22".into());
    app.active_panel = ActivePanel::RequestEditor;
    app.active_field = RequestField::Headers;
    handle_key(&mut app, key(KeyCode::Char('e')));
    let editor = app.editor.as_ref().unwrap();
    assert_eq!(editor.area.lines(), ["A: 1", "Bee: 22"]);
    assert_eq!(editor.area.cursor(), (1, 7));
}

#[test]
fn typed_keys_reach_the_field_editor() {
    let mut app = start_url_edit();
    for k in [KeyCode::Char('/'), KeyCode::Char('v'), KeyCode::Char('2'), KeyCode::Backspace, KeyCode::Char('1')] {
        assert!(handle_key(&mut app, key(k)).is_none());
    }
    assert_eq!(app.editor.as_ref().unwrap().area.lines(), ["/api/v1"]);
    handle_key(&mut app, key(KeyCode::Enter));
    assert!(app.editor.is_none());
    assert_eq!(app.collection.requests[0].url, "/api/v1");
}

#[test]
fn e_blocked_when_not_in_request_editor() {
    let mut app = app_with_request();
    app.active_panel = ActivePanel::CollectionList;
    handle_key(&mut app, key(KeyCode::Char('e')));
    assert_eq!(app.input_mode, InputMode::Normal);
    assert!(app.editor.is_none());
}

#[test]
fn e_edits_body_field() {
    let mut app = app_with_request();
    app.active_panel = ActivePanel::RequestEditor;
    app.active_field = RequestField::Body;
    handle_key(&mut app, key(KeyCode::Char('e')));
    assert_eq!(app.input_mode, InputMode::Insert);
    assert!(app.editor.is_some());
}

#[test]
fn insert_mode_chars_commit_to_url() {
    let mut app = start_url_edit();
    handle_key(&mut app, key(KeyCode::Char('z')));
    handle_key(&mut app, key(KeyCode::Enter)); // Enter commits single-line URL
    assert_eq!(app.collection.requests[0].url, "/apiz");
    assert!(app.dirty);
    assert_eq!(app.input_mode, InputMode::Normal);
}

#[test]
fn insert_mode_backspace_removes() {
    let mut app = start_url_edit();
    handle_key(&mut app, key(KeyCode::Backspace));
    handle_key(&mut app, key(KeyCode::Esc)); // Esc commits
    assert_eq!(app.collection.requests[0].url, "/ap");
}

#[test]
fn enter_inserts_newline_in_body() {
    let mut app = app_with_request();
    app.active_panel = ActivePanel::RequestEditor;
    app.active_field = RequestField::Body;
    handle_key(&mut app, key(KeyCode::Char('e')));
    handle_key(&mut app, key(KeyCode::Char('a')));
    handle_key(&mut app, key(KeyCode::Enter)); // newline, not commit
    assert_eq!(app.input_mode, InputMode::Insert); // still editing
    handle_key(&mut app, key(KeyCode::Char('b')));
    handle_key(&mut app, key(KeyCode::Esc));
    assert_eq!(app.collection.requests[0].body.as_ref().unwrap().content, "a\nb");
}

#[test]
fn esc_in_insert_mode_returns_to_normal() {
    let mut app = start_url_edit();
    handle_key(&mut app, key(KeyCode::Esc));
    assert_eq!(app.input_mode, InputMode::Normal);
    assert!(app.editor.is_none());
}

#[test]
fn enter_in_url_insert_returns_to_normal() {
    let mut app = start_url_edit();
    handle_key(&mut app, key(KeyCode::Enter));
    assert_eq!(app.input_mode, InputMode::Normal);
}

#[test]
fn shift_e_returns_edit_external_on_body() {
    let mut app = app_with_request();
    app.active_panel = ActivePanel::RequestEditor;
    app.active_field = RequestField::Body;
    let action = handle_key(&mut app, key(KeyCode::Char('E')));
    assert!(matches!(action, Some(Action::EditExternal)));
}

#[test]
fn shift_e_noop_off_body() {
    let mut app = app_with_request();
    app.active_panel = ActivePanel::RequestEditor;
    app.active_field = RequestField::Url;
    let action = handle_key(&mut app, key(KeyCode::Char('E')));
    assert!(action.is_none());
}

#[test]
fn confirm_quit_w_returns_save_and_quit() {
    let mut app = app_with_request();
    app.dirty = true;
    handle_key(&mut app, key(KeyCode::Char('q')));
    let action = handle_key(&mut app, key(KeyCode::Char('w')));
    assert!(matches!(action, Some(Action::SaveAndQuit)));
    assert!(app.confirm.is_none());
}

#[test]
fn q_when_dirty_opens_confirm_not_quit() {
    let mut app = app_with_request();
    app.dirty = true;
    handle_key(&mut app, key(KeyCode::Char('q')));
    assert!(!app.should_quit);
    assert_eq!(app.confirm, Some(Confirm::QuitDirty));
}

#[test]
fn confirm_quit_y_quits() {
    let mut app = app_with_request();
    app.dirty = true;
    handle_key(&mut app, key(KeyCode::Char('q')));
    handle_key(&mut app, key(KeyCode::Char('y')));
    assert!(app.should_quit);
    assert!(app.confirm.is_none());
}

#[test]
fn confirm_quit_n_cancels() {
    let mut app = app_with_request();
    app.dirty = true;
    handle_key(&mut app, key(KeyCode::Char('q')));
    handle_key(&mut app, key(KeyCode::Char('n')));
    assert!(!app.should_quit);
    assert!(app.confirm.is_none());
}

#[test]
fn ctrl_c_when_dirty_confirms() {
    let mut app = app_with_request();
    app.dirty = true;
    handle_key(&mut app, ctrl(KeyCode::Char('c')));
    assert!(!app.should_quit);
    assert_eq!(app.confirm, Some(Confirm::QuitDirty));
}

#[test]
fn a_adds_request() {
    let mut app = empty_app();
    handle_key(&mut app, key(KeyCode::Char('a')));
    assert_eq!(app.collection.requests.len(), 1);
    assert!(app.dirty);
}

#[test]
fn d_opens_delete_confirm_when_requests_exist() {
    let mut app = app_with_request();
    handle_key(&mut app, key(KeyCode::Char('d')));
    assert_eq!(app.confirm, Some(Confirm::DeleteRequest));
}

#[test]
fn d_noop_on_empty_collection() {
    let mut app = empty_app();
    handle_key(&mut app, key(KeyCode::Char('d')));
    assert!(app.confirm.is_none());
}

#[test]
fn confirm_delete_y_removes_request() {
    let mut app = app_with_request();
    handle_key(&mut app, key(KeyCode::Char('d')));
    handle_key(&mut app, key(KeyCode::Char('y')));
    assert!(app.collection.requests.is_empty());
    assert!(app.confirm.is_none());
}

#[test]
fn confirm_swallows_other_keys() {
    let mut app = app_with_request();
    app.confirm = Some(Confirm::DeleteRequest);
    handle_key(&mut app, key(KeyCode::Char('s')));
    assert_eq!(app.confirm, Some(Confirm::DeleteRequest));
    assert_eq!(app.collection.requests.len(), 1);
}

#[test]
fn q_in_insert_mode_does_not_quit() {
    let mut app = start_url_edit();
    handle_key(&mut app, key(KeyCode::Char('q')));
    assert!(!app.should_quit);
    handle_key(&mut app, key(KeyCode::Esc)); // commit
    assert_eq!(app.collection.requests[0].url, "/apiq");
}

#[test]
fn j_and_k_move_the_selection_in_the_list() {
    let mut app = app_with_request();
    app.collection.requests.push(Request {
        name: "y".into(),
        method: "POST".into(),
        url: "/y".into(),
        headers: StringMap::new(),
        query: StringMap::new(),
        body: None,
    });
    handle_key(&mut app, key(KeyCode::Char('j')));
    assert_eq!(app.selected, 1);
    handle_key(&mut app, key(KeyCode::Char('j')));
    assert_eq!(app.selected, 0);
    handle_key(&mut app, key(KeyCode::Char('k')));
    assert_eq!(app.selected, 1);
}

#[test]
fn confirm_delete_esc_keeps_the_request() {
    let mut app = app_with_request();
    handle_key(&mut app, key(KeyCode::Char('d')));
    handle_key(&mut app, key(KeyCode::Esc));
    assert!(app.confirm.is_none());
    assert_eq!(app.collection.requests.len(), 1);
}

#[test]
fn help_swallows_other_keys() {
    let mut app = empty_app();
    app.help_open = true;
    let action = handle_key(&mut app, key(KeyCode::Char('s')));
    assert!(action.is_none());
    assert!(app.help_open);
}

#[test]
fn unbound_key_changes_nothing() {
    let mut app = app_with_request();
    let action = handle_key(&mut app, key(KeyCode::F(5)));
    assert!(action.is_none());
    assert_eq!(app.selected, 0);
    assert!(!app.dirty);
    assert_eq!(app.active_panel, ActivePanel::CollectionList);
}

#[test]
fn o_y_and_shift_h_ask_for_export_yank_and_history() {
    let mut app = app_with_request();
    assert!(matches!(handle_key(&mut app, key(KeyCode::Char('o'))), Some(Action::Export)));
    assert!(matches!(handle_key(&mut app, key(KeyCode::Char('y'))), Some(Action::Yank)));
    assert!(matches!(handle_key(&mut app, key(KeyCode::Char('H'))), Some(Action::History)));
    assert!(!app.dirty);
}

#[test]
fn open_history_swallows_keys_until_closed() {
    let mut app = app_with_request();
    apitester::session::open_history(&mut app, Vec::new());
    assert!(handle_key(&mut app, key(KeyCode::Char('s'))).is_none());
    assert!(app.history.is_some());
    handle_key(&mut app, key(KeyCode::Char('q')));
    assert!(app.history.is_none());
    assert!(!app.should_quit);
}

#[test]
fn keys_keep_settings_and_only_confirmed_deletes_remove() {
    let mut app = app_with_request();
    app.env = "prod".into();
    let keys = [
        KeyCode::Char('d'),
        KeyCode::Esc,
        KeyCode::Char('m'),
        KeyCode::Tab,
        KeyCode::Char('e'),
        KeyCode::Char('x'),
        KeyCode::Esc,
        KeyCode::Char('a'),
        KeyCode::Char('d'),
    ];
    for k in keys {
        let before = app.collection.requests.len();
        handle_key(&mut app, key(k));
        assert!(app.collection.requests.len() >= before);
        assert_eq!(app.env, "prod");
    }
    assert_eq!(app.confirm, Some(Confirm::DeleteRequest));
    handle_key(&mut app, key(KeyCode::Char('y')));
    assert_eq!(app.collection.requests.len(), 1);
}
