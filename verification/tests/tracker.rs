use actlog::tracker::{
    begin_cycle, cycle_sleep_nanos, enum_child_proc, get_idle_seconds, tracker_step, Activity,
    TrackerAction, TrackerEvent, TrackerState, UwpResolverState,
};

fn run(events: Vec<TrackerEvent>) -> Vec<TrackerAction> {
    let (mut state, first) = begin_cycle();
    let mut actions = vec![first];
    for e in events {
        let (s, a) = tracker_step(state, e);
        state = s;
        actions.push(a);
    }
    actions
}

fn recorded(actions: &[TrackerAction]) -> Vec<(String, String, String, i64)> {
    actions
        .iter()
        .filter_map(|a| match a {
            TrackerAction::Record { activity: Activity { app, title, source }, ts } => {
                Some((app.clone(), title.clone(), source.clone(), *ts))
            }
            _ => None,
        })
        .collect()
}

fn t(app: &str, title: &str, source: &str, ts: i64) -> (String, String, String, i64) {
    (app.to_string(), title.to_string(), source.to_string(), ts)
}

#[test]
fn idle_seconds_from_ticks() {
    assert_eq!(get_idle_seconds(true, 10_500, 1_000), 9);
    assert_eq!(get_idle_seconds(true, 1_000, 1_000), 0);
    assert_eq!(get_idle_seconds(false, 10_500, 1_000), 0);
}

#[test]
fn idle_seconds_across_tick_wrap() {
    assert_eq!(get_idle_seconds(true, 5_000, u32::MAX), 5);
    assert_eq!(get_idle_seconds(true, 0, u32::MAX - 1_998), 1);
}

#[test]
fn enum_child_proc_stops_at_other_process() {
    let mut st = UwpResolverState { parent_pid: 40, child_pid: None };
    assert!(enum_child_proc(&mut st, 0));
    assert!(enum_child_proc(&mut st, 40));
    assert_eq!(st.child_pid, None);
    assert!(!enum_child_proc(&mut st, 77));
    assert_eq!(st.child_pid, Some(77));
    assert_eq!(st.parent_pid, 40);
}

#[test]
fn cycle_sleep_fills_three_seconds() {
    assert_eq!(cycle_sleep_nanos(0), 3_000_000_000);
    assert_eq!(cycle_sleep_nanos(250_000_000), 2_750_000_000);
    assert_eq!(cycle_sleep_nanos(3_000_000_000), 0);
    assert_eq!(cycle_sleep_nanos(4_000_000_000), 0);
}

#[test]
fn away_time_is_discarded() {
    let actions = run(vec![TrackerEvent::IdleSeconds(180), TrackerEvent::Elapsed(1_000)]);
    assert!(recorded(&actions).is_empty());
    assert!(matches!(actions[1], TrackerAction::MeasureElapsed));
    assert!(matches!(actions.last().unwrap(), TrackerAction::Sleep { nanos: 2_999_999_000 }));
    assert_eq!(actions.len(), 3);
}

#[test]
fn input_just_under_threshold_is_looked_at() {
    let actions = run(vec![TrackerEvent::IdleSeconds(179)]);
    assert!(matches!(actions[1], TrackerAction::QueryForegroundWindow));
}

#[test]
fn child_search_takes_first_other_process() {
    let mut st = UwpResolverState { parent_pid: 40, child_pid: None };
    let mut visited = 0;
    for pid in [0u32, 40, 41, 42] {
        visited += 1;
        if !enum_child_proc(&mut st, pid) {
            break;
        }
    }
    assert_eq!(st.child_pid, Some(41));
    assert_eq!(visited, 3);
}

#[test]
fn foreground_window_is_recorded() {
    let actions = run(vec![
        TrackerEvent::IdleSeconds(179),
        TrackerEvent::ForegroundWindow(true),
        TrackerEvent::WindowPid(1234),
        TrackerEvent::ProcessName(Some("code.exe".to_string())),
        TrackerEvent::Title("main.rs - ACTLog".to_string()),
        TrackerEvent::Clock(Some(7)),
        TrackerEvent::Recorded,
        TrackerEvent::Elapsed(5_000_000_000),
    ]);
    assert!(matches!(actions[3], TrackerAction::QueryProcessName { pid: 1234 }));
    assert_eq!(recorded(&actions), vec![t("code.exe", "main.rs - ACTLog", "foreground", 7)]);
    assert!(matches!(actions.last().unwrap(), TrackerAction::Sleep { nanos: 0 }));
}

#[test]
fn no_foreground_window_skips_cycle() {
    let actions = run(vec![TrackerEvent::IdleSeconds(0), TrackerEvent::ForegroundWindow(false)]);
    assert!(matches!(actions.last().unwrap(), TrackerAction::Sleep { nanos: 3_000_000_000 }));
    assert!(recorded(&actions).is_empty());
}

#[test]
fn unknown_pid_skips_cycle() {
    let actions = run(vec![
        TrackerEvent::IdleSeconds(0),
        TrackerEvent::ForegroundWindow(true),
        TrackerEvent::WindowPid(0),
    ]);
    assert!(matches!(actions.last().unwrap(), TrackerAction::Sleep { nanos: 3_000_000_000 }));
}

#[test]
fn unreadable_process_is_elevated() {
    let actions = run(vec![
        TrackerEvent::IdleSeconds(0),
        TrackerEvent::ForegroundWindow(true),
        TrackerEvent::WindowPid(9),
        TrackerEvent::ProcessName(None),
        TrackerEvent::Title("Admin".to_string()),
        TrackerEvent::Clock(Some(1)),
    ]);
    assert_eq!(recorded(&actions), vec![t("<Elevated Process>", "Admin", "foreground", 1)]);
}

#[test]
fn uwp_frame_resolves_to_child_process() {
    let actions = run(vec![
        TrackerEvent::IdleSeconds(0),
        TrackerEvent::ForegroundWindow(true),
        TrackerEvent::WindowPid(10),
        TrackerEvent::ProcessName(Some("ApplicationFrameHost.exe".to_string())),
        TrackerEvent::UwpChild(Some(11)),
        TrackerEvent::ProcessName(Some("Calculator.exe".to_string())),
        TrackerEvent::Title("Calculator".to_string()),
        TrackerEvent::Clock(Some(2)),
    ]);
    assert!(matches!(actions[4], TrackerAction::FindUwpChild { parent_pid: 10 }));
    assert!(matches!(actions[5], TrackerAction::QueryProcessName { pid: 11 }));
    assert_eq!(recorded(&actions), vec![t("Calculator.exe", "Calculator", "foreground", 2)]);
}

#[test]
fn uwp_frame_keeps_host_name_when_child_unknown() {
    let actions = run(vec![
        TrackerEvent::IdleSeconds(0),
        TrackerEvent::ForegroundWindow(true),
        TrackerEvent::WindowPid(10),
        TrackerEvent::ProcessName(Some("ApplicationFrameHost.exe".to_string())),
        TrackerEvent::UwpChild(Some(11)),
        TrackerEvent::ProcessName(None),
        TrackerEvent::Title("Settings".to_string()),
        TrackerEvent::Clock(Some(3)),
    ]);
    assert_eq!(recorded(&actions), vec![t("ApplicationFrameHost.exe", "Settings", "foreground", 3)]);
    let actions = run(vec![
        TrackerEvent::IdleSeconds(0),
        TrackerEvent::ForegroundWindow(true),
        TrackerEvent::WindowPid(10),
        TrackerEvent::ProcessName(Some("ApplicationFrameHost.exe".to_string())),
        TrackerEvent::UwpChild(None),
        TrackerEvent::Title("Photos".to_string()),
        TrackerEvent::Clock(Some(4)),
    ]);
    assert_eq!(recorded(&actions), vec![t("ApplicationFrameHost.exe", "Photos", "foreground", 4)]);
}

#[test]
fn lock_screen_is_recorded_locked() {
    for name in ["LogonUI.exe", "LockApp.exe"] {
        let actions = run(vec![
            TrackerEvent::IdleSeconds(0),
            TrackerEvent::ForegroundWindow(true),
            TrackerEvent::WindowPid(5),
            TrackerEvent::ProcessName(Some(name.to_string())),
            TrackerEvent::Clock(Some(8)),
        ]);
        assert!(matches!(actions[4], TrackerAction::ReadClock));
        assert_eq!(recorded(&actions), vec![t("locked", "", "afk", 8)]);
    }
}

#[test]
fn lock_screen_behind_uwp_frame_is_locked() {
    let actions = run(vec![
        TrackerEvent::IdleSeconds(0),
        TrackerEvent::ForegroundWindow(true),
        TrackerEvent::WindowPid(5),
        TrackerEvent::ProcessName(Some("ApplicationFrameHost.exe".to_string())),
        TrackerEvent::UwpChild(Some(6)),
        TrackerEvent::ProcessName(Some("LockApp.exe".to_string())),
        TrackerEvent::Clock(Some(9)),
    ]);
    assert_eq!(recorded(&actions), vec![t("locked", "", "afk", 9)]);
}

#[test]
fn clock_failure_stops() {
    let actions = run(vec![
        TrackerEvent::IdleSeconds(0),
        TrackerEvent::ForegroundWindow(true),
        TrackerEvent::WindowPid(5),
        TrackerEvent::ProcessName(Some("LockApp.exe".to_string())),
        TrackerEvent::Clock(None),
    ]);
    assert!(matches!(actions.last().unwrap(), TrackerAction::Stop));
}

#[test]
fn unexpected_answer_stops() {
    let actions = run(vec![TrackerEvent::Recorded]);
    assert!(matches!(actions.last().unwrap(), TrackerAction::Stop));
    let (s, _) = tracker_step(TrackerState::CycleDone, TrackerEvent::IdleSeconds(0));
    assert!(matches!(s, TrackerState::Halted));
}
