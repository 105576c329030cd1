use actlog::api::{default_since, handle_request, server_action, Route, ServerAction, ServerPoll};

fn since_of(url: &str) -> Option<i64> {
    match handle_request(true, url) {
        Route::Sessions { since } => since,
        Route::NotFound => panic!("{} was not routed", url),
    }
}

#[test]
fn non_get_is_not_found() {
    assert!(matches!(handle_request(false, "/api/sessions"), Route::NotFound));
}

#[test]
fn other_paths_are_not_found() {
    assert!(matches!(handle_request(true, "/"), Route::NotFound));
    assert!(matches!(handle_request(true, "/api/session"), Route::NotFound));
    assert!(matches!(handle_request(true, "api/sessions"), Route::NotFound));
}

#[test]
fn sessions_without_since() {
    assert_eq!(since_of("/api/sessions"), None);
    assert_eq!(since_of("/api/sessions?limit=3"), None);
}

#[test]
fn path_is_matched_by_prefix() {
    assert_eq!(since_of("/api/sessionsXYZ?since=1"), Some(1));
}

#[test]
fn since_is_parsed() {
    assert_eq!(since_of("/api/sessions?since=1717171717000"), Some(1_717_171_717_000));
    assert_eq!(since_of("/api/sessions?since=-5"), Some(-5));
    assert_eq!(since_of("/api/sessions?since=+42"), Some(42));
    assert_eq!(since_of("/api/sessions?since=007"), Some(7));
}

#[test]
fn since_stops_at_ampersand() {
    assert_eq!(since_of("/api/sessions?a=1&since=123&b=2"), Some(123));
}

#[test]
fn first_since_wins() {
    assert_eq!(since_of("/api/sessions?since=12&since=13"), Some(12));
}

#[test]
fn invalid_since_is_ignored() {
    assert_eq!(since_of("/api/sessions?since="), None);
    assert_eq!(since_of("/api/sessions?since=abc"), None);
    assert_eq!(since_of("/api/sessions?since=12x"), None);
    assert_eq!(since_of("/api/sessions?since=-"), None);
    assert_eq!(since_of("/api/sessions?since=+"), None);
    assert_eq!(since_of("/api/sessions?since=--1"), None);
    assert_eq!(since_of("/api/sessions?since= 1"), None);
}

#[test]
fn since_range_is_that_of_i64() {
    assert_eq!(since_of("/api/sessions?since=9223372036854775807"), Some(i64::MAX));
    assert_eq!(since_of("/api/sessions?since=9223372036854775808"), None);
    assert_eq!(since_of("/api/sessions?since=-9223372036854775808"), Some(i64::MIN));
    assert_eq!(since_of("/api/sessions?since=-9223372036854775809"), None);
    assert_eq!(since_of("/api/sessions?since=99999999999999999999999999x"), None);
}

#[test]
fn since_agrees_with_std_parse() {
    for v in ["0", "-0", "+0", "123456", "-42", "+", "", "1_000", "१२", "0x10", "00000000000000000000009"] {
        let url = format!("/api/sessions?since={}", v);
        assert_eq!(since_of(&url), v.parse::<i64>().ok(), "{}", v);
    }
}

#[test]
fn default_since_is_one_day_back() {
    assert_eq!(default_since(1_700_000_000_000), 1_700_000_000_000 - 86_400_000);
    assert_eq!(default_since(0), -86_400_000);
}

#[test]
fn server_reacts_to_polls() {
    assert!(matches!(server_action(ServerPoll::Request), ServerAction::Dispatch));
    assert!(matches!(server_action(ServerPoll::Empty), ServerAction::Wait { millis: 50 }));
    assert!(matches!(server_action(ServerPoll::Failed), ServerAction::ReportAndWait { millis: 50 }));
}
