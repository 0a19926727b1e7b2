use apitester::highlight::{lines_with_endings, plain_rows, theme_name};
use apitester::ui::Tint;
use apitester::view::Piece;

fn highlight_json(text: &str, light: bool, no_color: bool) -> Vec<Vec<Piece>> {
    let sets = apitester::highlight::DefaultSets::load();
    apitester::highlight::highlight_json(text, light, no_color, &sets)
}

#[test]
fn highlights_json_into_lines() {
    let lines = highlight_json("{\n  \"a\": 1\n}", false, false);
    assert_eq!(lines.len(), 3);
    assert!(lines.iter().all(|l| !l.is_empty()));
}

#[test]
fn empty_input_yields_no_lines() {
    assert!(highlight_json("", false, false).is_empty());
}

#[test]
fn second_call_same_input_is_cached() {
    let a = highlight_json("{\"x\": true}", false, false);
    let b = highlight_json("{\"x\": true}", false, false);
    assert_eq!(a.len(), b.len());
}

#[test]
fn light_theme_differs_from_dark() {
    let json = "{\"k\": \"v\"}";
    let dark = highlight_json(json, false, false);
    let light = highlight_json(json, true, false);
    let dark_fg: Vec<Option<Tint>> = dark[0].iter().map(|s| s.fg).collect();
    let light_fg: Vec<Option<Tint>> = light[0].iter().map(|s| s.fg).collect();
    assert_ne!(dark_fg, light_fg);
}

#[test]
fn no_color_yields_unstyled_lines() {
    let lines = highlight_json("{\n  \"a\": 1\n}", false, true);
    assert_eq!(lines.len(), 3);
    for line in &lines {
        for span in line {
            assert_eq!(span.fg, None);
        }
    }
}

#[test]
fn colored_pieces_carry_no_line_breaks() {
    let lines = highlight_json("{\r\n  \"a\": [1, 2]\r\n}\n", false, false);
    assert_eq!(lines.len(), 3);
    for line in &lines {
        for p in line {
            assert!(!p.text.ends_with('\n') && !p.text.ends_with('\r'));
            assert!(matches!(p.fg, Some(Tint::Rgb(_, _, _))));
        }
    }
}

#[test]
fn lines_keep_their_endings() {
    assert_eq!(lines_with_endings("a\nb\r\n\nc"), vec!["a\n", "b\r\n", "\n", "c"]);
    assert_eq!(lines_with_endings("x\n"), vec!["x\n"]);
    assert!(lines_with_endings("").is_empty());
    let rows = plain_rows("a\r\n\nb");
    let texts: Vec<&str> = rows.iter().map(|r| r[0].text.as_str()).collect();
    assert_eq!(texts, vec!["a", "", "b"]);
}

#[test]
fn theme_names() {
    assert_eq!(theme_name(true), "InspiredGitHub");
    assert_eq!(theme_name(false), "base16-ocean.dark");
}

#[test]
fn response_bodies_become_rows() {
    let sets = apitester::highlight::DefaultSets::load();
    let plain = apitester::http::Response {
        status: 200,
        elapsed: std::time::Duration::from_millis(1),
        headers: reqwest::header::HeaderMap::new(),
        body: "one\r\ntwo\n".into(),
    };
    let rows = apitester::highlight::body_rows(&plain, false, false, &sets);
    let texts: Vec<&str> = rows.iter().map(|r| r[0].text.as_str()).collect();
    assert_eq!(texts, vec!["one", "two"]);
    assert!(rows.iter().all(|r| r.len() == 1 && r[0].fg.is_none()));
    let json = apitester::http::Response { body: "{\"a\":1}".into(), ..plain };
    let rows = apitester::highlight::body_rows(&json, false, true, &sets);
    let texts: Vec<&str> = rows.iter().map(|r| r[0].text.as_str()).collect();
    assert_eq!(texts, vec!["{", "  \"a\": 1", "}"]);
    let colored = apitester::highlight::body_rows(&json, false, false, &sets);
    assert_eq!(colored.len(), 3);
    assert!(colored[1].iter().all(|p| matches!(p.fg, Some(Tint::Rgb(_, _, _)))));
}
