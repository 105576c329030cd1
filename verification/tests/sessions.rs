use actlog::session::{perform_startup_recovery, record_session, Session, SessionWrite, MERGE_GAP_MS};

fn row(app: &str, title: &str, source: &str, start: i64, end: i64) -> Session {
    Session {
        id: "0190a000-0000-7000-8000-000000000001".to_string(),
        app: app.to_string(),
        title: title.to_string(),
        start_utc: start,
        end_utc: end,
        source: source.to_string(),
        device_id: "dev-1".to_string(),
    }
}

fn is_v7(s: &str) -> bool {
    let cs: Vec<char> = s.chars().collect();
    cs.len() == 36 && cs[8] == '-' && cs[13] == '-' && cs[18] == '-' && cs[23] == '-' && cs[14] == '7'
        && matches!(cs[19], '8' | '9' | 'a' | 'b')
}

fn expect_insert(w: SessionWrite) -> Session {
    match w {
        SessionWrite::Insert(s) => s,
        other => panic!("expected an insertion, got {:?}", other),
    }
}

#[test]
fn first_sample_inserts_a_session() {
    let s = expect_insert(record_session(None, "dev-1", "code.exe", "main.rs", "foreground", 1_000));
    assert!(is_v7(&s.id), "{}", s.id);
    assert_eq!(s.app, "code.exe");
    assert_eq!(s.title, "main.rs");
    assert_eq!(s.source, "foreground");
    assert_eq!(s.device_id, "dev-1");
    assert_eq!((s.start_utc, s.end_utc), (1_000, 1_000));
}

#[test]
fn same_activity_within_gap_extends() {
    let last = row("code.exe", "main.rs", "foreground", 1_000, 4_000);
    match record_session(Some(&last), "dev-1", "code.exe", "main.rs", "foreground", 7_000) {
        SessionWrite::Extend { id, end_utc } => {
            assert_eq!(id, last.id);
            assert_eq!(end_utc, 7_000);
        }
        other => panic!("expected an extension, got {:?}", other),
    }
}

#[test]
fn gap_of_exactly_nine_seconds_extends() {
    let last = row("a", "t", "foreground", 0, 10_000);
    let w = record_session(Some(&last), "dev-1", "a", "t", "foreground", 10_000 + MERGE_GAP_MS);
    assert!(matches!(w, SessionWrite::Extend { end_utc: 19_000, .. }));
}

#[test]
fn zero_gap_extends() {
    let last = row("a", "t", "foreground", 0, 10_000);
    let w = record_session(Some(&last), "dev-1", "a", "t", "foreground", 10_000);
    assert!(matches!(w, SessionWrite::Extend { end_utc: 10_000, .. }));
}

#[test]
fn longer_gap_starts_new_session() {
    let last = row("a", "t", "foreground", 0, 10_000);
    let s = expect_insert(record_session(Some(&last), "dev-1", "a", "t", "foreground", 19_001));
    assert_eq!((s.start_utc, s.end_utc), (19_001, 19_001));
    assert_ne!(s.id, last.id);
}

#[test]
fn sample_older_than_last_end_starts_new_session() {
    let last = row("a", "t", "foreground", 0, 10_000);
    let s = expect_insert(record_session(Some(&last), "dev-1", "a", "t", "foreground", 9_999));
    assert_eq!((s.start_utc, s.end_utc), (9_999, 9_999));
}

#[test]
fn focus_change_starts_new_session() {
    let last = row("a", "t", "foreground", 0, 10_000);
    expect_insert(record_session(Some(&last), "dev-1", "b", "t", "foreground", 11_000));
    expect_insert(record_session(Some(&last), "dev-1", "a", "u", "foreground", 11_000));
    expect_insert(record_session(Some(&last), "dev-1", "a", "t", "afk", 11_000));
}

#[test]
fn device_id_is_not_compared() {
    let last = row("a", "t", "foreground", 0, 10_000);
    let w = record_session(Some(&last), "other-device", "a", "t", "foreground", 12_000);
    assert!(matches!(w, SessionWrite::Extend { .. }));
}

#[test]
fn extreme_timestamps_do_not_overflow() {
    let last = row("a", "t", "foreground", i64::MAX, i64::MAX);
    expect_insert(record_session(Some(&last), "d", "a", "t", "foreground", i64::MIN));
    let last = row("a", "t", "foreground", i64::MIN, i64::MIN);
    expect_insert(record_session(Some(&last), "d", "a", "t", "foreground", i64::MAX));
}

#[test]
fn continuous_focus_is_one_session() {
    let first = expect_insert(record_session(None, "d", "app", "title", "foreground", 3_000));
    let mut latest = first;
    for ts in [6_000i64, 9_000, 18_000, 21_000] {
        match record_session(Some(&latest), "d", "app", "title", "foreground", ts) {
            SessionWrite::Extend { id, end_utc } => {
                assert_eq!(id, latest.id);
                latest.end_utc = end_utc;
            }
            other => panic!("expected an extension, got {:?}", other),
        }
    }
    assert_eq!((latest.start_utc, latest.end_utc), (3_000, 21_000));
}

#[test]
fn no_recovery_on_empty_table() {
    assert!(perform_startup_recovery(None, 5_000, "d").is_none());
}

#[test]
fn no_recovery_when_clock_not_later() {
    assert!(perform_startup_recovery(Some(5_000), 5_000, "d").is_none());
    assert!(perform_startup_recovery(Some(5_000), 4_000, "d").is_none());
}

#[test]
fn recovery_inserts_crash_gap() {
    let g = perform_startup_recovery(Some(5_000), 65_000, "dev-9").expect("a gap session");
    assert!(is_v7(&g.id), "{}", g.id);
    assert_eq!(g.app, "<System Gap>");
    assert_eq!(g.title, "");
    assert_eq!(g.source, "crash_gap");
    assert_eq!(g.device_id, "dev-9");
    assert_eq!((g.start_utc, g.end_utc), (5_000, 65_000));
}
