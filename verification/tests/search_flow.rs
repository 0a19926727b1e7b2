use apitester::app::App;
use apitester::http::SendOpts;
use apitester::input::{handle_key, Action};
use apitester::keys::{KeyCode, KeyInput};
use apitester::model::Collection;
use apitester::search::{find_matches, mark_matches, run_search};
use apitester::ui::Tint;
use apitester::view::Piece;
use tui_textarea::{Input, Key};

fn press(code: KeyCode, key: Key) -> KeyInput {
    KeyInput { code, ctrl: false, raw: Input { key, ctrl: false, alt: false, shift: false } }
}

fn ch(c: char) -> KeyInput {
    press(KeyCode::Char(c), Key::Char(c))
}

fn app() -> App {
    App::new(Collection::default(), "default".into(), SendOpts::default())
}

fn lines(ls: &[&str]) -> Vec<String> {
    ls.iter().map(|s| s.to_string()).collect()
}

#[test]
fn typing_a_query_then_enter_asks_to_run_it() {
    let mut a = app();
    assert!(handle_key(&mut a, ch('/')).is_none());
    assert!(a.search.as_ref().unwrap().typing);
    handle_key(&mut a, ch('I'));
    handle_key(&mut a, ch('x'));
    handle_key(&mut a, press(KeyCode::Backspace, Key::Backspace));
    handle_key(&mut a, ch('d'));
    assert_eq!(a.search.as_ref().unwrap().query, "Id");
    assert!(!a.should_quit);
    let act = handle_key(&mut a, press(KeyCode::Enter, Key::Enter));
    assert!(matches!(act, Some(Action::Search)));
    assert!(!a.search.as_ref().unwrap().typing);
}

#[test]
fn q_while_typing_is_part_of_the_query() {
    let mut a = app();
    handle_key(&mut a, ch('/'));
    handle_key(&mut a, ch('q'));
    assert!(!a.should_quit);
    assert_eq!(a.search.as_ref().unwrap().query, "q");
    handle_key(&mut a, press(KeyCode::Esc, Key::Esc));
    assert!(a.search.is_none());
}

#[test]
fn matches_ignore_case_and_moves_wrap() {
    let mut a = app();
    handle_key(&mut a, ch('/'));
    for c in "ID".chars() {
        handle_key(&mut a, ch(c));
    }
    handle_key(&mut a, press(KeyCode::Enter, Key::Enter));
    let body = lines(&["{", "  \"id\": 1,", "  \"name\": \"x\",", "  \"Id2\": 2", "}"]);
    run_search(&mut a, &body);
    let s = a.search.as_ref().unwrap();
    assert_eq!(s.matches, vec![1, 3]);
    assert_eq!(s.current, 0);
    assert_eq!(a.response_scroll, 1);
    handle_key(&mut a, ch('n'));
    assert_eq!(a.search.as_ref().unwrap().current, 1);
    assert_eq!(a.response_scroll, 3);
    handle_key(&mut a, ch('n'));
    assert_eq!(a.search.as_ref().unwrap().current, 0);
    handle_key(&mut a, ch('N'));
    assert_eq!(a.search.as_ref().unwrap().current, 1);
}

#[test]
fn an_empty_query_drops_the_search() {
    let mut a = app();
    handle_key(&mut a, ch('/'));
    handle_key(&mut a, press(KeyCode::Enter, Key::Enter));
    run_search(&mut a, &lines(&["x"]));
    assert!(a.search.is_none());
}

#[test]
fn find_matches_lists_line_indices() {
    assert_eq!(find_matches(&lines(&["Alpha", "beta", "ALPHABET"]), "alpha"), vec![0, 2]);
    assert!(find_matches(&lines(&["a"]), "zz").is_empty());
}

fn piece(t: &str) -> Piece {
    Piece { text: t.into(), fg: Some(Tint::Green), bg: None, bold: true, dim: false, blink: false }
}

#[test]
fn marks_paint_current_and_other_matches() {
    let mut a = app();
    handle_key(&mut a, ch('/'));
    handle_key(&mut a, ch('a'));
    handle_key(&mut a, press(KeyCode::Enter, Key::Enter));
    run_search(&mut a, &lines(&["a", "b", "a"]));
    handle_key(&mut a, ch('n'));
    let rows = vec![vec![piece("a")], vec![piece("b")], vec![piece("a")]];
    let marked = mark_matches(rows, a.search.as_ref().unwrap());
    assert_eq!((marked[0][0].fg, marked[0][0].bg), (Some(Tint::White), Some(Tint::DarkGray)));
    assert_eq!((marked[1][0].fg, marked[1][0].bg), (Some(Tint::Green), None));
    assert_eq!((marked[2][0].fg, marked[2][0].bg), (Some(Tint::Black), Some(Tint::Yellow)));
    assert!(marked[2][0].bold);
}
