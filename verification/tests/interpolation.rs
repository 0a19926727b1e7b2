use apitester::error::ApiTesterError;
use apitester::interpolate::interpolate;
use apitester::strmap::StringMap;

fn vars(pairs: &[(&str, &str)]) -> StringMap<String> {
    let mut m = StringMap::new();
    for (k, v) in pairs {
        m.insert(k.to_string(), v.to_string());
    }
    m
}

fn no_env() -> StringMap<String> {
    StringMap::new()
}

#[test]
fn substitutes_known_var() {
    let v = vars(&[("token", "abc123")]);
    assert_eq!(interpolate("Bearer {{token}}", &v, &no_env()).unwrap(), "Bearer abc123");
}

#[test]
fn handles_multiple_vars() {
    let v = vars(&[("a", "1"), ("b", "2")]);
    assert_eq!(interpolate("{{a}}-{{b}}-{{a}}", &v, &no_env()).unwrap(), "1-2-1");
}

#[test]
fn trims_whitespace_in_key() {
    let v = vars(&[("token", "abc")]);
    assert_eq!(interpolate("{{ token }}", &v, &no_env()).unwrap(), "abc");
}

#[test]
fn errors_on_undefined() {
    let v = StringMap::new();
    assert!(matches!(
        interpolate("Bearer {{missing}}", &v, &no_env()),
        Err(ApiTesterError::UndefinedVar(_))
    ));
}

#[test]
fn passthrough_without_vars() {
    let v = StringMap::new();
    assert_eq!(interpolate("plain text", &v, &no_env()).unwrap(), "plain text");
}

#[test]
fn unclosed_braces_passthrough() {
    let v = StringMap::new();
    assert_eq!(interpolate("oops {{ no end", &v, &no_env()).unwrap(), "oops {{ no end");
}

#[test]
fn os_env_is_the_fallback() {
    let v = vars(&[("a", "from-collection")]);
    let env = vars(&[("a", "from-os"), ("HOME", "/home/u")]);
    assert_eq!(
        interpolate("{{a}} {{HOME}}", &v, &env).unwrap(),
        "from-collection /home/u"
    );
}

#[test]
fn undefined_error_names_first_missing_trimmed() {
    let v = vars(&[("a", "1")]);
    match interpolate("{{a}}{{  first }}{{second}}", &v, &no_env()) {
        Err(ApiTesterError::UndefinedVar(name)) => assert_eq!(name, "first"),
        other => panic!("unexpected: {:?}", other),
    }
}

#[test]
fn first_closing_delimiter_ends_the_name() {
    let v = vars(&[("{a", "X")]);
    assert_eq!(interpolate("{{{a}}}", &v, &no_env()).unwrap(), "X}");
}

#[test]
fn non_ascii_text_survives() {
    let v = vars(&[("név", "érték")]);
    assert_eq!(interpolate("→{{név}}←", &v, &no_env()).unwrap(), "→érték←");
}

