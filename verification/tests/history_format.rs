use apitester::history::{civil_from_days, format_ts, recent, HistoryEntry};

fn entry(name: &str, status: Option<u16>) -> HistoryEntry {
    HistoryEntry {
        ts_ms: 0,
        name: name.into(),
        method: "GET".into(),
        url: "http://x/".into(),
        status,
        elapsed_ms: Some(12),
        error: None,
    }
}

fn names(v: &[HistoryEntry]) -> Vec<String> {
    v.iter().map(|e| e.name.clone()).collect()
}

#[test]
fn format_ts_known_epoch() {
    assert_eq!(format_ts(1_609_459_200_000), "2021-01-01 00:00:00");
    assert_eq!(format_ts(0), "1970-01-01 00:00:00");
    assert_eq!(format_ts(1_782_045_296_000), "2026-06-21 12:34:56");
}

#[test]
fn format_ts_leap_day_and_year_end() {
    assert_eq!(format_ts(951_782_400_000), "2000-02-29 00:00:00");
    assert_eq!(format_ts(946_684_799_999), "1999-12-31 23:59:59");
    assert_eq!(format_ts(4_102_444_800_000), "2100-01-01 00:00:00");
}

#[test]
fn format_ts_widens_the_year_past_four_digits() {
    assert_eq!(format_ts(u64::MAX), "584556019-04-03 14:25:51");
}

#[test]
fn recent_reverses_the_stored_order() {
    let got = recent(vec![entry("first", Some(200)), entry("second", Some(404))], 10);
    assert_eq!(names(&got), vec!["second", "first"]);
    assert_eq!(got[0].status, Some(404));
}

#[test]
fn recent_truncates_to_n() {
    let all: Vec<HistoryEntry> = (0..5).map(|i| entry(&format!("r{i}"), Some(200))).collect();
    let got = recent(all, 2);
    assert_eq!(names(&got), vec!["r4", "r3"]);
}

#[test]
fn recent_of_nothing_is_empty() {
    assert!(recent(Vec::new(), 3).is_empty());
    assert!(recent(vec![entry("a", None)], 0).is_empty());
}

#[test]
fn civil_dates_before_and_after_the_epoch() {
    assert_eq!(civil_from_days(0), (1970, 1, 1));
    assert_eq!(civil_from_days(-1), (1969, 12, 31));
    assert_eq!(civil_from_days(11_016), (2000, 2, 29));
    assert_eq!(civil_from_days(19_723), (2024, 1, 1));
    assert_eq!(civil_from_days(-719_468), (0, 3, 1));
    assert_eq!(civil_from_days(-719_469), (0, 2, 29));
}

#[test]
fn civil_dates_far_before_the_epoch() {
    assert_eq!(civil_from_days(-2_440_588), (-4713, 11, 24));
}
