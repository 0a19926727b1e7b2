use apitester::app::{App, StatusKind};
use apitester::error::{classify_reqwest, error_chain};
use apitester::history::{epoch_millis, history_path, now_ms};
use apitester::http::SendOpts;
use apitester::model::Collection;
use apitester::paths::{cookies_path, data_file};
use apitester::session::cancel_inflight;

#[test]
fn the_clock_is_past_the_epoch() {
    assert!(now_ms() > 1_600_000_000_000);
    assert_eq!(epoch_millis(None), 0);
    assert_eq!(epoch_millis(Some(42)), 42);
    assert_eq!(epoch_millis(Some((1u128 << 64) + 5)), 5);
}

#[test]
fn data_files_are_joined_onto_the_directory() {
    let dir = "/var/lib/apitester".to_string();
    assert_eq!(data_file(Some(dir.clone()), "x.json"), Some("/var/lib/apitester/x.json".to_string()));
    assert_eq!(history_path(Some(dir.clone())), Some("/var/lib/apitester/history.jsonl".to_string()));
    assert_eq!(cookies_path(Some(dir)), Some("/var/lib/apitester/cookies.json".to_string()));
    assert_eq!(data_file(Some("/srv/".to_string()), "h"), Some("/srv/h".to_string()));
    assert_eq!(data_file(None, "x"), None);
}

#[test]
fn cancelling_aborts_the_task_in_flight() {
    let rt = tokio::runtime::Runtime::new().unwrap();
    let mut app = App::new(Collection::default(), "default".into(), SendOpts::default());
    let handle = rt.spawn(async {
        tokio::time::sleep(std::time::Duration::from_secs(60)).await;
    });
    app.in_flight = Some(handle);
    app.is_loading = true;
    cancel_inflight(&mut app);
    assert!(app.in_flight.is_none());
    assert!(!app.is_loading);
    assert_eq!(app.status_message, Some((StatusKind::Warn, "request cancelled".to_string())));
}

fn chain_of(e: &reqwest::Error) -> String {
    let mut parts = Vec::new();
    let mut current: Option<&dyn std::error::Error> = Some(e);
    while let Some(x) = current {
        parts.push(x.to_string());
        current = x.source();
    }
    error_chain(&parts)
}

#[test]
fn client_failures_are_classified() {
    let rt = tokio::runtime::Runtime::new().unwrap();
    let refused = rt.block_on(reqwest::Client::new().get("http://127.0.0.1:1/").send()).unwrap_err();
    let msg = classify_reqwest(&refused, &chain_of(&refused));
    assert!(msg.starts_with("connection "), "{msg}");

    let bad = rt.block_on(reqwest::Client::new().get("not a url").send()).unwrap_err();
    let msg = classify_reqwest(&bad, &chain_of(&bad));
    assert!(msg.starts_with("request failed: "), "{msg}");
}
