use apitester::builder::{build_effective, resolve_env, resolve_url};
use apitester::model::{Body, Collection, Request};
use apitester::strmap::StringMap;

fn req(method: &str, url: &str) -> Request {
    Request {
        name: "t".into(),
        method: method.into(),
        url: url.into(),
        headers: StringMap::new(),
        query: StringMap::new(),
        body: None,
    }
}

fn empty() -> StringMap<String> {
    StringMap::new()
}

#[test]
fn absolute_url_passthrough() {
    let r = req("GET", "https://api.example.com/foo");
    let built = build_effective(&r, Some("https://other.com"), &empty(), &empty()).unwrap();
    assert_eq!(built.url, "https://api.example.com/foo");
}

#[test]
fn relative_url_with_base() {
    let r = req("GET", "/users");
    let built = build_effective(&r, Some("https://api.example.com"), &empty(), &empty()).unwrap();
    assert_eq!(built.url, "https://api.example.com/users");
}

#[test]
fn base_url_trailing_slash_normalized() {
    let r = req("GET", "/users");
    let built = build_effective(&r, Some("https://api.example.com/"), &empty(), &empty()).unwrap();
    assert_eq!(built.url, "https://api.example.com/users");
}

#[test]
fn relative_url_no_base() {
    let r = req("GET", "/users");
    let built = build_effective(&r, None, &empty(), &empty()).unwrap();
    assert_eq!(built.url, "/users");
}

#[test]
fn interpolates_url_headers_query_body() {
    let mut r = req("GET", "/u/{{id}}");
    r.headers.insert("Authorization".into(), "Bearer {{token}}".into());
    r.query.insert("page".into(), "{{page}}".into());
    r.body = Some(Body {
        kind: "json".into(),
        content: "{\"x\": \"{{val}}\"}".into(),
        parts: vec![],
    });
    let mut env = StringMap::new();
    env.insert("id".into(), "42".into());
    env.insert("token".into(), "abc".into());
    env.insert("page".into(), "1".into());
    env.insert("val".into(), "hello".into());
    let built = build_effective(&r, Some("https://x.com"), &env, &empty()).unwrap();
    assert_eq!(built.url, "https://x.com/u/42");
    assert_eq!(built.headers, vec![("Authorization".into(), "Bearer abc".into())]);
    assert_eq!(built.query, vec![("page".into(), "1".into())]);
    assert_eq!(built.body.as_deref(), Some("{\"x\": \"hello\"}"));
}

#[test]
fn method_uppercased() {
    let r = req("get", "/foo");
    let built = build_effective(&r, None, &empty(), &empty()).unwrap();
    assert_eq!(built.method, "GET");
}

#[test]
fn resolve_env_default_only() {
    let mut coll = Collection::default();
    let mut def = StringMap::new();
    def.insert("a".into(), "1".into());
    coll.env.insert("default".into(), def);
    let v = resolve_env(&coll, "default");
    assert_eq!(v.get("a"), Some(&"1".to_string()));
}

#[test]
fn resolve_env_overrides_default() {
    let mut coll = Collection::default();
    let mut def = StringMap::new();
    def.insert("token".into(), "dev".into());
    def.insert("only_in_default".into(), "x".into());
    coll.env.insert("default".into(), def);
    let mut prod = StringMap::new();
    prod.insert("token".into(), "prod".into());
    coll.env.insert("prod".into(), prod);
    let v = resolve_env(&coll, "prod");
    assert_eq!(v.get("token"), Some(&"prod".to_string()));
    assert_eq!(v.get("only_in_default"), Some(&"x".to_string()));
}

#[test]
fn missing_env_section_returns_empty() {
    let coll = Collection::default();
    let v = resolve_env(&coll, "nonexistent");
    assert!(v.is_empty());
}

#[test]
fn headers_and_query_come_out_sorted() {
    let mut r = req("post", "/x");
    r.headers.insert("X-Zeta".into(), "z".into());
    r.headers.insert("Accept".into(), "a".into());
    r.headers.insert("B".into(), "b".into());
    r.query.insert("q".into(), "1".into());
    r.query.insert("a".into(), "2".into());
    let built = build_effective(&r, None, &empty(), &empty()).unwrap();
    let hk: Vec<&str> = built.headers.iter().map(|(k, _)| k.as_str()).collect();
    assert_eq!(hk, vec!["Accept", "B", "X-Zeta"]);
    let qk: Vec<&str> = built.query.iter().map(|(k, _)| k.as_str()).collect();
    assert_eq!(qk, vec!["a", "q"]);
    assert_eq!(built.method, "POST");
}

#[test]
fn undefined_in_header_fails_the_build() {
    let mut r = req("GET", "/ok");
    r.headers.insert("Authorization".into(), "{{secret}}".into());
    assert!(build_effective(&r, None, &empty(), &empty()).is_err());
}

#[test]
fn default_env_is_not_overlaid_on_itself() {
    let mut coll = Collection::default();
    let mut def = StringMap::new();
    def.insert("k".into(), "v".into());
    coll.env.insert("default".into(), def);
    let mut other = StringMap::new();
    other.insert("k".into(), "other".into());
    coll.env.insert("staging".into(), other);
    assert_eq!(resolve_env(&coll, "default").get("k"), Some(&"v".to_string()));
    assert_eq!(resolve_env(&coll, "staging").get("k"), Some(&"other".to_string()));
    assert_eq!(resolve_env(&coll, "missing").get("k"), Some(&"v".to_string()));
}

#[test]
fn relative_url_without_slash_gets_one() {
    assert_eq!(resolve_url("users", Some("https://a.b//")), "https://a.b/users");
    assert_eq!(resolve_url("http://x/y", Some("https://a.b")), "http://x/y");
    assert_eq!(resolve_url("", Some("https://a.b")), "https://a.b/");
}
