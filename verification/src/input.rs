//! Key dispatch: what each key press does to the editor state, and which
//! action it asks the event loop to perform.

use vstd::prelude::*;
use crate::app::{ActivePanel, App, Confirm, InputMode, RequestField, add_request_post,
    begin_edit_post, commit_post, cycle_method_post, delete_post, next_field, next_panel,
    prev_field, request_count, scroll_down_spec, scroll_up_spec, select_next_spec,
    select_prev_spec, selection_ok};
use crate::editor::typed;
use crate::keys::{KeyCode, KeyInput};
use crate::search::{move_match, search_key, search_moved, search_started, search_typing_step,
    start_search};

verus! {

/// Work that a key press asks the event loop to do.
#[derive(Clone, Copy, PartialEq, Eq, Debug, Structural)]
pub enum Action {
    /// Send the selected request.
    Send,
    /// Cancel the request in flight.
    Cancel,
    /// Save the collection to its file.
    Save,
    /// Save the collection, then quit if that succeeded.
    SaveAndQuit,
    /// Edit the body in the external editor.
    EditExternal,
    /// Export the response body to a file.
    Export,
    /// Copy the response body to the clipboard.
    Yank,
    /// Open the request history.
    History,
    /// Run the typed search over the response body.
    Search,
}

/// `a` after asking to quit: with unsaved changes a confirmation opens,
/// otherwise the application quits.
pub open spec fn quit_request(a: App) -> App {
    if a.dirty {
        App { confirm: Some(Confirm::QuitDirty), ..a }
    } else {
        App { should_quit: true, ..a }
    }
}

/// While confirmation `c` is pending, only its own keys act: `n`, `N` and
/// Esc cancel it; for quitting, `y`/`Y` quits and `w`/`W` asks to save and
/// quit; for deleting, `y`/`Y` deletes the selected request. Any other key
/// is swallowed.
pub open spec fn confirm_step(a: App, c: Confirm, k: KeyCode, b: App, act: Option<Action>) -> bool {
    if k == KeyCode::Char('n') || k == KeyCode::Char('N') || k == KeyCode::Esc {
        act is None && b == App { confirm: None, ..a }
    } else {
        match c {
            Confirm::QuitDirty => if k == KeyCode::Char('y') || k == KeyCode::Char('Y') {
                act is None && b == App { confirm: None, should_quit: true, ..a }
            } else if k == KeyCode::Char('w') || k == KeyCode::Char('W') {
                act == Some(Action::SaveAndQuit) && b == App { confirm: None, ..a }
            } else {
                act is None && b == a
            },
            Confirm::DeleteRequest => if k == KeyCode::Char('y') || k == KeyCode::Char('Y') {
                act is None && delete_post(App { confirm: None, ..a }, b)
            } else {
                act is None && b == a
            },
        }
    }
}

/// What a key does in normal mode (see the key table of the help screen).
pub open spec fn normal_step(a: App, k: KeyCode, ctrl: bool, b: App, act: Option<Action>) -> bool {
    if ctrl && k == KeyCode::Char('c') {
        act is None && b == quit_request(a)
    } else if k == KeyCode::Char('q') {
        act is None && b == quit_request(a)
    } else if k == KeyCode::Up || k == KeyCode::Char('k') {
        act is None && b == match a.active_panel {
            ActivePanel::CollectionList => select_prev_spec(a),
            ActivePanel::RequestEditor => App { active_field: prev_field(a.active_field), ..a },
            ActivePanel::ResponseViewer => scroll_up_spec(a),
        }
    } else if k == KeyCode::Down || k == KeyCode::Char('j') {
        act is None && b == match a.active_panel {
            ActivePanel::CollectionList => select_next_spec(a),
            ActivePanel::RequestEditor => App { active_field: next_field(a.active_field), ..a },
            ActivePanel::ResponseViewer => scroll_down_spec(a),
        }
    } else if k == KeyCode::Tab {
        act is None && b == App { active_panel: next_panel(a.active_panel), ..a }
    } else if k == KeyCode::Char('?') {
        act is None && b == App { help_open: true, ..a }
    } else if k == KeyCode::Char('s') {
        b == a && act == if a.is_loading {
            None
        } else {
            Some(Action::Send)
        }
    } else if k == KeyCode::Char('h') {
        act is None && b == App { show_response_headers: !a.show_response_headers, ..a }
    } else if k == KeyCode::Char('m') {
        act is None && cycle_method_post(a, b)
    } else if k == KeyCode::Char('w') {
        b == a && act == Some(Action::Save)
    } else if k == KeyCode::Char('o') {
        b == a && act == Some(Action::Export)
    } else if k == KeyCode::Char('y') {
        b == a && act == Some(Action::Yank)
    } else if k == KeyCode::Char('H') {
        b == a && act == Some(Action::History)
    } else if k == KeyCode::Char('/') {
        act is None && search_started(a, b)
    } else if k == KeyCode::Char('n') {
        act is None && search_moved(a, b, true)
    } else if k == KeyCode::Char('N') {
        act is None && search_moved(a, b, false)
    } else if k == KeyCode::Char('a') {
        act is None && add_request_post(a, b)
    } else if k == KeyCode::Char('d') {
        act is None && b == if request_count(a) > 0 {
            App { confirm: Some(Confirm::DeleteRequest), ..a }
        } else {
            a
        }
    } else if k == KeyCode::Char('e') {
        act is None && begin_edit_post(a, b)
    } else if k == KeyCode::Char('E') {
        b == a && act == if a.active_panel == ActivePanel::RequestEditor && a.active_field
            == RequestField::Body && request_count(a) > 0 {
            Some(Action::EditExternal)
        } else {
            None
        }
    } else if k == KeyCode::Esc {
        b == a && act == if a.is_loading {
            Some(Action::Cancel)
        } else {
            None
        }
    } else {
        b == a && act is None
    }
}

/// What a key does in insert mode: Esc, and Enter on the URL, commit the
/// editor; any other key goes to the editor, which is all it changes.
pub open spec fn insert_step(a: App, key: KeyInput, b: App) -> bool {
    let k = key.code;
    if k == KeyCode::Esc || (k == KeyCode::Enter && a.active_field == RequestField::Url) {
        commit_post(a, b)
    } else {
        b == App {
            editor: match a.editor {
                Some(e) => Some(typed(e, key).0),
                None => None,
            },
            ..a
        }
    }
}

/// What a key press does: a pending confirmation takes it first; then an
/// open help screen, which Esc, `?` and `q` close and which swallows every
/// key; then an open history list, which Esc, `H` and `q` close and which
/// swallows every key; then a search query being typed takes the key; then
/// the input mode decides.
pub open spec fn key_step(a: App, key: KeyInput, b: App, act: Option<Action>) -> bool {
    let k = key.code;
    let ctrl = key.ctrl;
    if a.confirm is Some {
        confirm_step(a, a.confirm.unwrap(), k, b, act)
    } else if a.help_open {
        act is None && b == if k == KeyCode::Esc || k == KeyCode::Char('?') || k == KeyCode::Char(
            'q',
        ) {
            App { help_open: false, ..a }
        } else {
            a
        }
    } else if a.history is Some {
        act is None && b == if k == KeyCode::Esc || k == KeyCode::Char('H') || k == KeyCode::Char(
            'q',
        ) {
            App { history: None, ..a }
        } else {
            a
        }
    } else if a.search matches Some(s) && s.typing {
        (act is None || act == Some(Action::Search)) && search_typing_step(
            a,
            k,
            ctrl,
            b,
            act == Some(Action::Search),
        )
    } else {
        match a.input_mode {
            InputMode::Normal => normal_step(a, k, ctrl, b, act),
            InputMode::Insert => act is None && insert_step(a, key, b),
        }
    }
}

/// Handles one key press (see [`key_step`]); returns the action it asks for.
/// The application's state invariant, that the selection is in range (see
/// [`selection_ok`]), is expected before and kept after: `App::new` sets it
/// up and every operation on the application keeps it. Adding a request
/// inserts after the selection, which is only possible with it in range.
pub fn handle_key(app: &mut App, key: KeyInput) -> (act: Option<Action>)
    requires
        selection_ok(*old(app)),
    ensures
        key_step(*old(app), key, *final(app), act),
        selection_ok(*final(app)),
{
    if let Some(confirm) = app.confirm {
        return handle_confirm(app, confirm, &key);
    }
    if app.help_open {
        if matches!(key.code, KeyCode::Esc | KeyCode::Char('?') | KeyCode::Char('q')) {
            app.help_open = false;
        }
        return None;
    }
    if app.history.is_some() {
        if matches!(key.code, KeyCode::Esc | KeyCode::Char('H') | KeyCode::Char('q')) {
            app.history = None;
        }
        return None;
    }
    let typing = match &app.search {
        Some(s) => s.typing,
        None => false,
    };
    if typing {
        let run = search_key(app, key.code, key.ctrl);
        return if run {
            Some(Action::Search)
        } else {
            None
        };
    }
    match app.input_mode {
        InputMode::Normal => handle_normal(app, &key),
        InputMode::Insert => {
            handle_insert(app, &key);
            None
        },
    }
}

/// While a confirmation is pending, only the dialog's own keys are
/// meaningful; everything else is swallowed so the user can't act on the
/// backdrop.
fn handle_confirm(app: &mut App, confirm: Confirm, key: &KeyInput) -> (act: Option<Action>)
    requires
        selection_ok(*old(app)),
        old(app).confirm == Some(confirm),
    ensures
        confirm_step(*old(app), confirm, key.code, *final(app), act),
        selection_ok(*final(app)),
{
    let cancel = matches!(key.code, KeyCode::Char('n') | KeyCode::Char('N') | KeyCode::Esc);
    if cancel {
        app.confirm = None;
        return None;
    }
    match confirm {
        Confirm::QuitDirty => match key.code {
            KeyCode::Char('y') | KeyCode::Char('Y') => {
                app.confirm = None;
                app.should_quit = true;
            },
            KeyCode::Char('w') | KeyCode::Char('W') => {
                app.confirm = None;
                return Some(Action::SaveAndQuit);
            },
            _ => {},
        },
        Confirm::DeleteRequest => {
            if matches!(key.code, KeyCode::Char('y') | KeyCode::Char('Y')) {
                app.confirm = None;
                app.delete_selected();
            }
        },
    }
    None
}

/// Quits, or asks for confirmation when there are unsaved changes.
fn request_quit(app: &mut App)
    ensures
        *final(app) == quit_request(*old(app)),
{
    if app.dirty {
        app.confirm = Some(Confirm::QuitDirty);
    } else {
        app.should_quit = true;
    }
}

/// A key in normal mode (see [`normal_step`]).
#[verifier::rlimit(60)]
fn handle_normal(app: &mut App, key: &KeyInput) -> (act: Option<Action>)
    requires
        selection_ok(*old(app)),
    ensures
        normal_step(*old(app), key.code, key.ctrl, *final(app), act),
        selection_ok(*final(app)),
{
    if key.ctrl && key.code == KeyCode::Char('c') {
        request_quit(app);
        return None;
    }
    match key.code {
        KeyCode::Char('q') => {
            request_quit(app);
            None
        },
        KeyCode::Up | KeyCode::Char('k') => {
            match app.active_panel {
                ActivePanel::CollectionList => app.select_prev(),
                ActivePanel::RequestEditor => app.select_field_prev(),
                ActivePanel::ResponseViewer => app.scroll_response_up(),
            }
            None
        },
        KeyCode::Down | KeyCode::Char('j') => {
            match app.active_panel {
                ActivePanel::CollectionList => {
                    let n = app.collection.requests.len();
                    proof {
                        assert(n == request_count(*app));
                    }
                    app.select_next()
                },
                ActivePanel::RequestEditor => app.select_field_next(),
                ActivePanel::ResponseViewer => app.scroll_response_down(),
            }
            None
        },
        KeyCode::Tab => {
            app.cycle_panel();
            None
        },
        KeyCode::Char('?') => {
            app.help_open = true;
            None
        },
        KeyCode::Char('s') => {
            if app.is_loading {
                None
            } else {
                Some(Action::Send)
            }
        },
        KeyCode::Char('h') => {
            app.show_response_headers = !app.show_response_headers;
            None
        },
        KeyCode::Char('m') => {
            app.cycle_method();
            None
        },
        KeyCode::Char('w') => Some(Action::Save),
        KeyCode::Char('o') => Some(Action::Export),
        KeyCode::Char('y') => Some(Action::Yank),
        KeyCode::Char('H') => Some(Action::History),
        KeyCode::Char('/') => {
            start_search(app);
            None
        },
        KeyCode::Char('n') => {
            move_match(app, true);
            None
        },
        KeyCode::Char('N') => {
            move_match(app, false);
            None
        },
        KeyCode::Char('a') => {
            app.add_request();
            None
        },
        KeyCode::Char('d') => {
            if app.collection.requests.len() > 0 {
                app.confirm = Some(Confirm::DeleteRequest);
            }
            None
        },
        KeyCode::Char('e') => {
            app.begin_edit();
            None
        },
        KeyCode::Char('E') => {
            if app.active_panel == ActivePanel::RequestEditor && app.active_field
                == RequestField::Body && app.collection.requests.len() > 0 {
                Some(Action::EditExternal)
            } else {
                None
            }
        },
        KeyCode::Esc => {
            if app.is_loading {
                Some(Action::Cancel)
            } else {
                None
            }
        },
        _ => None,
    }
}

/// A key in insert mode (see [`insert_step`]). Esc commits for every field;
/// Enter commits the single-line URL but inserts a newline in the
/// multi-line fields (body, headers, query).
fn handle_insert(app: &mut App, key: &KeyInput)
    requires
        selection_ok(*old(app)),
    ensures
        insert_step(*old(app), *key, *final(app)),
        selection_ok(*final(app)),
{
    if key.code == KeyCode::Esc {
        app.commit_edit();
        return;
    }
    if key.code == KeyCode::Enter && app.active_field == RequestField::Url {
        app.commit_edit();
        return;
    }
    match &mut app.editor {
        Some(editor) => {
            let _ = editor.input(key);
        },
        None => {},
    }
}

} // verus!
