//! The tracker: every three seconds it decides what the user is doing and records it;
//! time while the user is away from the input devices is discarded.
//!
//! The polling loop alternates queries of the operating system with decisions. The
//! decisions are the state machine below: `begin_cycle` starts a cycle, and
//! `tracker_step` takes the current state and the answer to the last action and gives
//! the next state and action. The caller performs each action and feeds its answer
//! back, until the action is `Sleep` (the cycle is over) or `Stop`.

use vstd::prelude::*;
use crate::text::same_text;

verus! {

/// Seconds without input after which the user counts as away.
pub const AFK_THRESHOLD_SECS: u32 = 180;

/// The length of one polling cycle, in nanoseconds.
pub const CYCLE_NANOS: u64 = 3_000_000_000;

/// Seconds since the last input, given whether the last-input query succeeded, the
/// current tick count and the tick of the last input (both in milliseconds, wrapping
/// at 2^32). The tick difference is taken modulo 2^32; a failed query counts as zero.
pub fn get_idle_seconds(query_ok: bool, current_tick: u32, last_input_tick: u32) -> (secs: u32)
    ensures
        secs == if query_ok {
            (if current_tick >= last_input_tick {
                current_tick - last_input_tick
            } else {
                current_tick - last_input_tick + 0x1_0000_0000
            }) / 1000
        } else {
            0
        },
{
    if query_ok {
        let idle_ms = current_tick.wrapping_sub(last_input_tick);
        idle_ms / 1000
    } else {
        0
    }
}

/// The search for the process behind a UWP frame window: the frame's own process id,
/// and the first different process id found among its child windows.
#[derive(Debug)]
pub struct UwpResolverState {
    pub parent_pid: u32,
    pub child_pid: Option<u32>,
}

/// Visits one child window whose process id is `pid` (0 when it could not be read).
/// Returns whether the enumeration should go on: it stops at the first child that
/// belongs to another, known process, and records that process.
pub fn enum_child_proc(state: &mut UwpResolverState, pid: u32) -> (continue_enumeration: bool)
    ensures
        (*final(state), continue_enumeration) == child_search_step(*old(state), pid),
{
    if pid != 0 && pid != state.parent_pid {
        state.child_pid = Some(pid);
        return false;
    }
    true
}

/// How long to sleep after a cycle that took `elapsed_nanos`, so that cycles start
/// every three seconds: the rest of the three seconds, or nothing if they are over.
pub fn cycle_sleep_nanos(elapsed_nanos: u64) -> (sleep: u64)
    ensures
        elapsed_nanos <= CYCLE_NANOS ==> sleep + elapsed_nanos == CYCLE_NANOS,
        elapsed_nanos > CYCLE_NANOS ==> sleep == 0,
{
    if elapsed_nanos <= CYCLE_NANOS {
        CYCLE_NANOS - elapsed_nanos
    } else {
        0
    }
}

/// What the user is doing: the application, the window title, and the source of the
/// observation (`foreground` or `afk`).
#[derive(Debug)]
pub struct Activity {
    pub app: String,
    pub title: String,
    pub source: String,
}

/// The mathematical content of an `Activity`.
pub struct ActivityView {
    pub app: Seq<char>,
    pub title: Seq<char>,
    pub source: Seq<char>,
}

impl View for Activity {
    type V = ActivityView;

    open spec fn view(&self) -> ActivityView {
        ActivityView { app: self.app@, title: self.title@, source: self.source@ }
    }
}

/// The activity recorded while the session is locked.
pub open spec fn locked_activity() -> ActivityView {
    ActivityView { app: "locked"@, title: Seq::empty(), source: "afk"@ }
}

/// The activity of a foreground window.
pub open spec fn foreground_activity(app: Seq<char>, title: Seq<char>) -> ActivityView {
    ActivityView { app, title, source: "foreground"@ }
}

/// The name used when a process's name cannot be read.
pub open spec fn elevated_process_name() -> Seq<char> {
    "<Elevated Process>"@
}

/// The process that hosts UWP applications' frame windows.
pub open spec fn uwp_host_name() -> Seq<char> {
    "ApplicationFrameHost.exe"@
}

/// A process that shows the lock screen.
pub open spec fn is_lock_screen_process(name: Seq<char>) -> bool {
    name == "LogonUI.exe"@ || name == "LockApp.exe"@
}

/// Where the tracker is within a cycle.
#[derive(Debug)]
pub enum TrackerState {
    AwaitIdle,
    AwaitForeground,
    AwaitPid,
    AwaitProcessName { pid: u32 },
    AwaitUwpChild { host: String },
    AwaitChildName { host: String },
    AwaitTitle { app: String },
    AwaitClock { activity: Activity },
    AwaitRecorded,
    AwaitElapsed,
    CycleDone,
    Halted,
}

/// The mathematical content of a `TrackerState`.
pub enum TrackerStateView {
    AwaitIdle,
    AwaitForeground,
    AwaitPid,
    AwaitProcessName { pid: u32 },
    AwaitUwpChild { host: Seq<char> },
    AwaitChildName { host: Seq<char> },
    AwaitTitle { app: Seq<char> },
    AwaitClock { activity: ActivityView },
    AwaitRecorded,
    AwaitElapsed,
    CycleDone,
    Halted,
}

impl View for TrackerState {
    type V = TrackerStateView;

    open spec fn view(&self) -> TrackerStateView {
        match self {
            TrackerState::AwaitIdle => TrackerStateView::AwaitIdle,
            TrackerState::AwaitForeground => TrackerStateView::AwaitForeground,
            TrackerState::AwaitPid => TrackerStateView::AwaitPid,
            TrackerState::AwaitProcessName { pid } => TrackerStateView::AwaitProcessName {
                pid: *pid,
            },
            TrackerState::AwaitUwpChild { host } => TrackerStateView::AwaitUwpChild {
                host: host@,
            },
            TrackerState::AwaitChildName { host } => TrackerStateView::AwaitChildName {
                host: host@,
            },
            TrackerState::AwaitTitle { app } => TrackerStateView::AwaitTitle { app: app@ },
            TrackerState::AwaitClock { activity } => TrackerStateView::AwaitClock {
                activity: activity@,
            },
            TrackerState::AwaitRecorded => TrackerStateView::AwaitRecorded,
            TrackerState::AwaitElapsed => TrackerStateView::AwaitElapsed,
            TrackerState::CycleDone => TrackerStateView::CycleDone,
            TrackerState::Halted => TrackerStateView::Halted,
        }
    }
}

/// The answer to the last action.
#[derive(Debug)]
pub enum TrackerEvent {
    /// Seconds since the last input.
    IdleSeconds(u32),
    /// Whether there is a foreground window.
    ForegroundWindow(bool),
    /// The process id of the foreground window (0 when unknown).
    WindowPid(u32),
    /// The file name of the queried process, or `None` when it could not be read.
    ProcessName(Option<String>),
    /// The process behind a UWP frame window, if one was found.
    UwpChild(Option<u32>),
    /// The foreground window's title.
    Title(String),
    /// The time in Unix milliseconds, or `None` when the clock reads before the epoch.
    Clock(Option<i64>),
    /// The sample was recorded (or recording failed and was reported).
    Recorded,
    /// The time the cycle took so far, in nanoseconds.
    Elapsed(u64),
}

/// The mathematical content of a `TrackerEvent`.
pub enum TrackerEventView {
    IdleSeconds(u32),
    ForegroundWindow(bool),
    WindowPid(u32),
    ProcessName(Option<Seq<char>>),
    UwpChild(Option<u32>),
    Title(Seq<char>),
    Clock(Option<i64>),
    Recorded,
    Elapsed(u64),
}

impl View for TrackerEvent {
    type V = TrackerEventView;

    open spec fn view(&self) -> TrackerEventView {
        match self {
            TrackerEvent::IdleSeconds(s) => TrackerEventView::IdleSeconds(*s),
            TrackerEvent::ForegroundWindow(b) => TrackerEventView::ForegroundWindow(*b),
            TrackerEvent::WindowPid(p) => TrackerEventView::WindowPid(*p),
            TrackerEvent::ProcessName(n) => TrackerEventView::ProcessName(
                match n {
                    Some(n) => Some(n@),
                    None => None,
                },
            ),
            TrackerEvent::UwpChild(c) => TrackerEventView::UwpChild(*c),
            TrackerEvent::Title(t) => TrackerEventView::Title(t@),
            TrackerEvent::Clock(c) => TrackerEventView::Clock(*c),
            TrackerEvent::Recorded => TrackerEventView::Recorded,
            TrackerEvent::Elapsed(n) => TrackerEventView::Elapsed(*n),
        }
    }
}

/// What the caller does next.
#[derive(Debug)]
pub enum TrackerAction {
    /// Read the seconds since the last input.
    QueryIdleSeconds,
    /// Look for the foreground window.
    QueryForegroundWindow,
    /// Read the process id of the foreground window.
    QueryWindowPid,
    /// Read the file name of this process.
    QueryProcessName { pid: u32 },
    /// Enumerate the foreground window's children for another process than this one.
    FindUwpChild { parent_pid: u32 },
    /// Read the foreground window's title.
    QueryTitle,
    /// Read the clock.
    ReadClock,
    /// Record this activity at this time.
    Record { activity: Activity, ts: i64 },
    /// Measure how long the cycle has taken.
    MeasureElapsed,
    /// Sleep this many nanoseconds; the cycle is over.
    Sleep { nanos: u64 },
    /// Stop tracking with an error.
    Stop,
}

/// The mathematical content of a `TrackerAction`.
pub enum TrackerActionView {
    QueryIdleSeconds,
    QueryForegroundWindow,
    QueryWindowPid,
    QueryProcessName { pid: u32 },
    FindUwpChild { parent_pid: u32 },
    QueryTitle,
    ReadClock,
    Record { activity: ActivityView, ts: i64 },
    MeasureElapsed,
    Sleep { nanos: u64 },
    Stop,
}

impl View for TrackerAction {
    type V = TrackerActionView;

    open spec fn view(&self) -> TrackerActionView {
        match self {
            TrackerAction::QueryIdleSeconds => TrackerActionView::QueryIdleSeconds,
            TrackerAction::QueryForegroundWindow => TrackerActionView::QueryForegroundWindow,
            TrackerAction::QueryWindowPid => TrackerActionView::QueryWindowPid,
            TrackerAction::QueryProcessName { pid } => TrackerActionView::QueryProcessName {
                pid: *pid,
            },
            TrackerAction::FindUwpChild { parent_pid } => TrackerActionView::FindUwpChild {
                parent_pid: *parent_pid,
            },
            TrackerAction::QueryTitle => TrackerActionView::QueryTitle,
            TrackerAction::ReadClock => TrackerActionView::ReadClock,
            TrackerAction::Record { activity, ts } => TrackerActionView::Record {
                activity: activity@,
                ts: *ts,
            },
            TrackerAction::MeasureElapsed => TrackerActionView::MeasureElapsed,
            TrackerAction::Sleep { nanos } => TrackerActionView::Sleep { nanos: *nanos },
            TrackerAction::Stop => TrackerActionView::Stop,
        }
    }
}

/// A cycle begins by asking for the idle time.
pub open spec fn cycle_start() -> (TrackerStateView, TrackerActionView) {
    (TrackerStateView::AwaitIdle, TrackerActionView::QueryIdleSeconds)
}

/// The step once the application's name is settled: a lock screen process is recorded
/// as `locked`, any other process needs its window title.
pub open spec fn after_name(name: Seq<char>) -> (TrackerStateView, TrackerActionView) {
    if is_lock_screen_process(name) {
        (TrackerStateView::AwaitClock { activity: locked_activity() }, TrackerActionView::ReadClock)
    } else {
        (TrackerStateView::AwaitTitle { app: name }, TrackerActionView::QueryTitle)
    }
}

/// Skipping the rest of the cycle: sleep the whole cycle length.
pub open spec fn skip_cycle() -> (TrackerStateView, TrackerActionView) {
    (TrackerStateView::CycleDone, TrackerActionView::Sleep { nanos: CYCLE_NANOS })
}

/// The tracker's transition table. An answer that does not fit the state stops the
/// tracker.
pub open spec fn tracker_next(s: TrackerStateView, e: TrackerEventView) -> (
    TrackerStateView,
    TrackerActionView,
) {
    let stop = (TrackerStateView::Halted, TrackerActionView::Stop);
    match s {
        TrackerStateView::AwaitIdle => match e {
            TrackerEventView::IdleSeconds(secs) => if secs >= AFK_THRESHOLD_SECS {
                (TrackerStateView::AwaitElapsed, TrackerActionView::MeasureElapsed)
            } else {
                (TrackerStateView::AwaitForeground, TrackerActionView::QueryForegroundWindow)
            },
            _ => stop,
        },
        TrackerStateView::AwaitForeground => match e {
            TrackerEventView::ForegroundWindow(found) => if found {
                (TrackerStateView::AwaitPid, TrackerActionView::QueryWindowPid)
            } else {
                skip_cycle()
            },
            _ => stop,
        },
        TrackerStateView::AwaitPid => match e {
            TrackerEventView::WindowPid(pid) => if pid == 0 {
                skip_cycle()
            } else {
                (
                    TrackerStateView::AwaitProcessName { pid },
                    TrackerActionView::QueryProcessName { pid },
                )
            },
            _ => stop,
        },
        TrackerStateView::AwaitProcessName { pid } => match e {
            TrackerEventView::ProcessName(name) => {
                let name = match name {
                    Some(n) => n,
                    None => elevated_process_name(),
                };
                if name == uwp_host_name() {
                    (
                        TrackerStateView::AwaitUwpChild { host: name },
                        TrackerActionView::FindUwpChild { parent_pid: pid },
                    )
                } else {
                    after_name(name)
                }
            },
            _ => stop,
        },
        TrackerStateView::AwaitUwpChild { host } => match e {
            TrackerEventView::UwpChild(child) => match child {
                Some(child_pid) => (
                    TrackerStateView::AwaitChildName { host },
                    TrackerActionView::QueryProcessName { pid: child_pid },
                ),
                None => after_name(host),
            },
            _ => stop,
        },
        TrackerStateView::AwaitChildName { host } => match e {
            TrackerEventView::ProcessName(name) => match name {
                Some(n) => after_name(n),
                None => after_name(host),
            },
            _ => stop,
        },
        TrackerStateView::AwaitTitle { app } => match e {
            TrackerEventView::Title(title) => (
                TrackerStateView::AwaitClock { activity: foreground_activity(app, title) },
                TrackerActionView::ReadClock,
            ),
            _ => stop,
        },
        TrackerStateView::AwaitClock { activity } => match e {
            TrackerEventView::Clock(ts) => match ts {
                Some(ts) => (
                    TrackerStateView::AwaitRecorded,
                    TrackerActionView::Record { activity, ts },
                ),
                None => stop,
            },
            _ => stop,
        },
        TrackerStateView::AwaitRecorded => match e {
            TrackerEventView::Recorded => (
                TrackerStateView::AwaitElapsed,
                TrackerActionView::MeasureElapsed,
            ),
            _ => stop,
        },
        TrackerStateView::AwaitElapsed => match e {
            TrackerEventView::Elapsed(nanos) => (
                TrackerStateView::CycleDone,
                TrackerActionView::Sleep {
                    nanos: if nanos <= CYCLE_NANOS {
                        (CYCLE_NANOS - nanos) as u64
                    } else {
                        0
                    },
                },
            ),
            _ => stop,
        },
        TrackerStateView::CycleDone => stop,
        TrackerStateView::Halted => stop,
    }
}

/// The state and first action of a new cycle.
pub fn begin_cycle() -> (r: (TrackerState, TrackerAction))
    ensures
        (r.0@, r.1@) == cycle_start(),
{
    (TrackerState::AwaitIdle, TrackerAction::QueryIdleSeconds)
}

fn after_name_exec(name: String) -> (r: (TrackerState, TrackerAction))
    ensures
        (r.0@, r.1@) == after_name(name@),
{
    if same_text(name.as_str(), "LogonUI.exe") || same_text(name.as_str(), "LockApp.exe") {
        let activity = Activity {
            app: String::from_str("locked"),
            title: String::new(),
            source: String::from_str("afk"),
        };
        (TrackerState::AwaitClock { activity }, TrackerAction::ReadClock)
    } else {
        (TrackerState::AwaitTitle { app: name }, TrackerAction::QueryTitle)
    }
}

fn skip_cycle_exec() -> (r: (TrackerState, TrackerAction))
    ensures
        (r.0@, r.1@) == skip_cycle(),
{
    (TrackerState::CycleDone, TrackerAction::Sleep { nanos: CYCLE_NANOS })
}

/// One step of the tracker: the next state and action, given the current state and
/// the answer to the last action.
pub fn tracker_step(state: TrackerState, event: TrackerEvent) -> (r: (TrackerState, TrackerAction))
    ensures
        (r.0@, r.1@) == tracker_next(state@, event@),
{
    match state {
        TrackerState::AwaitIdle => match event {
            TrackerEvent::IdleSeconds(secs) => {
                if secs >= AFK_THRESHOLD_SECS {
                    (TrackerState::AwaitElapsed, TrackerAction::MeasureElapsed)
                } else {
                    (TrackerState::AwaitForeground, TrackerAction::QueryForegroundWindow)
                }
            },
            _ => (TrackerState::Halted, TrackerAction::Stop),
        },
        TrackerState::AwaitForeground => match event {
            TrackerEvent::ForegroundWindow(found) => {
                if found {
                    (TrackerState::AwaitPid, TrackerAction::QueryWindowPid)
                } else {
                    skip_cycle_exec()
                }
            },
            _ => (TrackerState::Halted, TrackerAction::Stop),
        },
        TrackerState::AwaitPid => match event {
            TrackerEvent::WindowPid(pid) => {
                if pid == 0 {
                    skip_cycle_exec()
                } else {
                    (
                        TrackerState::AwaitProcessName { pid },
                        TrackerAction::QueryProcessName { pid },
                    )
                }
            },
            _ => (TrackerState::Halted, TrackerAction::Stop),
        },
        TrackerState::AwaitProcessName { pid } => match event {
            TrackerEvent::ProcessName(name) => {
                let name = match name {
                    Some(n) => n,
                    None => String::from_str("<Elevated Process>"),
                };
                if same_text(name.as_str(), "ApplicationFrameHost.exe") {
                    (
                        TrackerState::AwaitUwpChild { host: name },
                        TrackerAction::FindUwpChild { parent_pid: pid },
                    )
                } else {
                    after_name_exec(name)
                }
            },
            _ => (TrackerState::Halted, TrackerAction::Stop),
        },
        TrackerState::AwaitUwpChild { host } => match event {
            TrackerEvent::UwpChild(child) => match child {
                Some(child_pid) => (
                    TrackerState::AwaitChildName { host },
                    TrackerAction::QueryProcessName { pid: child_pid },
                ),
                None => after_name_exec(host),
            },
            _ => (TrackerState::Halted, TrackerAction::Stop),
        },
        TrackerState::AwaitChildName { host } => match event {
            TrackerEvent::ProcessName(name) => match name {
                Some(n) => after_name_exec(n),
                None => after_name_exec(host),
            },
            _ => (TrackerState::Halted, TrackerAction::Stop),
        },
        TrackerState::AwaitTitle { app } => match event {
            TrackerEvent::Title(title) => {
                let activity = Activity { app, title, source: String::from_str("foreground") };
                (TrackerState::AwaitClock { activity }, TrackerAction::ReadClock)
            },
            _ => (TrackerState::Halted, TrackerAction::Stop),
        },
        TrackerState::AwaitClock { activity } => match event {
            TrackerEvent::Clock(ts) => match ts {
                Some(ts) => (TrackerState::AwaitRecorded, TrackerAction::Record { activity, ts }),
                None => (TrackerState::Halted, TrackerAction::Stop),
            },
            _ => (TrackerState::Halted, TrackerAction::Stop),
        },
        TrackerState::AwaitRecorded => match event {
            TrackerEvent::Recorded => (TrackerState::AwaitElapsed, TrackerAction::MeasureElapsed),
            _ => (TrackerState::Halted, TrackerAction::Stop),
        },
        TrackerState::AwaitElapsed => match event {
            TrackerEvent::Elapsed(nanos) => (
                TrackerState::CycleDone,
                TrackerAction::Sleep { nanos: cycle_sleep_nanos(nanos) },
            ),
            _ => (TrackerState::Halted, TrackerAction::Stop),
        },
        TrackerState::CycleDone => (TrackerState::Halted, TrackerAction::Stop),
        TrackerState::Halted => (TrackerState::Halted, TrackerAction::Stop),
    }
}

// ---------------------------------------------------------------------------
// Laws of the tracker
// ---------------------------------------------------------------------------

/// An activity the tracker may record: the lock screen (`locked`), or a foreground
/// application that is not the lock screen.
pub open spec fn activity_ok(a: ActivityView) -> bool {
    ||| a == locked_activity()
    ||| (a.source == "foreground"@ && !is_lock_screen_process(a.app))
}

/// What every state of the tracker keeps: a pending activity is one it may record,
/// and a pending window title belongs to an application that is not the lock screen.
pub open spec fn tracker_inv(s: TrackerStateView) -> bool {
    match s {
        TrackerStateView::AwaitClock { activity } => activity_ok(activity),
        TrackerStateView::AwaitTitle { app } => !is_lock_screen_process(app),
        _ => true,
    }
}

/// The position of a state within a cycle.
pub open spec fn stage(s: TrackerStateView) -> int {
    match s {
        TrackerStateView::AwaitIdle => 0,
        TrackerStateView::AwaitForeground => 1,
        TrackerStateView::AwaitPid => 2,
        TrackerStateView::AwaitProcessName { .. } => 3,
        TrackerStateView::AwaitUwpChild { .. } => 4,
        TrackerStateView::AwaitChildName { .. } => 5,
        TrackerStateView::AwaitTitle { .. } => 6,
        TrackerStateView::AwaitClock { .. } => 7,
        TrackerStateView::AwaitRecorded => 8,
        TrackerStateView::AwaitElapsed => 9,
        TrackerStateView::CycleDone => 10,
        TrackerStateView::Halted => 11,
    }
}

/// Every recorded activity is `locked` or a foreground application other than
/// the lock screen (a lock screen process is never recorded with its window title,
/// even when it hides behind a UWP frame), and every step keeps this so.
pub proof fn lemma_recorded_activities_are_well_formed(s: TrackerStateView, e: TrackerEventView)
    requires
        tracker_inv(s),
    ensures
        tracker_inv(tracker_next(s, e).0),
        tracker_next(s, e).1 is Record ==> activity_ok(tracker_next(s, e).1->activity),
{
}

/// A new cycle starts in a state that keeps the tracker's invariant.
pub proof fn lemma_cycle_start_inv()
    ensures
        tracker_inv(cycle_start().0),
        stage(cycle_start().0) == 0,
{
}

/// Every step moves the cycle forward, so a cycle ends after a bounded number of steps;
/// it ends with `Sleep` (a finished cycle) or `Stop`, and it records at most once:
/// only the step out of `AwaitClock` records, and no step leads back there.
pub proof fn lemma_cycle_progress(s: TrackerStateView, e: TrackerEventView)
    ensures
        !(s is Halted) ==> stage(tracker_next(s, e).0) > stage(s),
        (tracker_next(s, e).1 is Sleep) <==> (tracker_next(s, e).0 is CycleDone),
        (tracker_next(s, e).1 is Stop) <==> (tracker_next(s, e).0 is Halted),
        tracker_next(s, e).1 is Record ==> s is AwaitClock && tracker_next(s, e).0 is AwaitRecorded,
{
}

/// Time away from the input devices is discarded: when the user has given no input for
/// the threshold time, the cycle records nothing and queries no window; it only
/// measures its own length and sleeps out the rest of the three seconds.
pub proof fn lemma_away_time_is_discarded(secs: u32, nanos: u64)
    requires
        secs >= 180,
    ensures
        tracker_next(cycle_start().0, TrackerEventView::IdleSeconds(secs)) == (
        TrackerStateView::AwaitElapsed,
        TrackerActionView::MeasureElapsed),
        tracker_next(
            tracker_next(cycle_start().0, TrackerEventView::IdleSeconds(secs)).0,
            TrackerEventView::Elapsed(nanos),
        ) == (TrackerStateView::CycleDone, TrackerActionView::Sleep {
            nanos: if nanos <= 3_000_000_000 {
                (3_000_000_000 - nanos) as u64
            } else {
                0
            },
        }),
{
}

/// A user who has given input within the threshold time is looked at: the cycle asks
/// for the foreground window.
pub proof fn lemma_present_user_is_looked_at(secs: u32)
    requires
        secs < 180,
    ensures
        tracker_next(cycle_start().0, TrackerEventView::IdleSeconds(secs)) == (
        TrackerStateView::AwaitForeground,
        TrackerActionView::QueryForegroundWindow),
{
}

/// After a recording the cycle measures its length and sleeps out the rest of its
/// three seconds (nothing when they are over), so that cycles start three seconds apart.
pub proof fn lemma_recorded_cycle_keeps_three_second_rhythm(
    s: TrackerStateView,
    e: TrackerEventView,
    nanos: u64,
)
    requires
        tracker_next(s, e).1 is Record,
    ensures
        tracker_next(tracker_next(s, e).0, TrackerEventView::Recorded) == (
        TrackerStateView::AwaitElapsed,
        TrackerActionView::MeasureElapsed),
        tracker_next(
            tracker_next(tracker_next(s, e).0, TrackerEventView::Recorded).0,
            TrackerEventView::Elapsed(nanos),
        ).1 == (TrackerActionView::Sleep {
            nanos: if nanos <= 3_000_000_000 {
                (3_000_000_000 - nanos) as u64
            } else {
                0
            },
        }),
{
}

// ---------------------------------------------------------------------------
// The search for the process behind a UWP frame
// ---------------------------------------------------------------------------

/// One visit of the child-window search: the new search state, and whether the
/// enumeration goes on.
pub open spec fn child_search_step(s: UwpResolverState, pid: u32) -> (UwpResolverState, bool) {
    if pid != 0 && pid != s.parent_pid {
        (UwpResolverState { parent_pid: s.parent_pid, child_pid: Some(pid) }, false)
    } else {
        (s, true)
    }
}

/// The whole search over the child windows' process ids in enumeration order: the
/// final search state, and how many children were visited (the enumeration stops when
/// a visit says so).
pub open spec fn child_search(s: UwpResolverState, pids: Seq<u32>) -> (UwpResolverState, nat)
    decreases pids.len(),
{
    if pids.len() == 0 {
        (s, 0)
    } else {
        let (s1, go_on) = child_search_step(s, pids[0]);
        if go_on {
            let (s2, n) = child_search(s1, pids.drop_first());
            (s2, n + 1)
        } else {
            (s1, 1)
        }
    }
}

/// A fresh search finds the first child window, in enumeration order, whose process is
/// known and is not the frame's own; it visits no child after that one. When there is
/// no such child, it finds nothing and visits them all.
pub proof fn lemma_child_search_finds_first_other_process(parent_pid: u32, pids: Seq<u32>)
    ensures
        ({
            let (s, visited) = child_search(
                UwpResolverState { parent_pid, child_pid: None },
                pids,
            );
            &&& s.parent_pid == parent_pid
            &&& (s.child_pid is None) <==> (forall|i: int|
                0 <= i < pids.len() ==> #[trigger] pids[i] == 0 || pids[i] == parent_pid)
            &&& s.child_pid is None ==> visited == pids.len()
            &&& s.child_pid is Some ==> {
                &&& 1 <= visited <= pids.len()
                &&& s.child_pid == Some(pids[visited - 1])
                &&& pids[visited - 1] != 0
                &&& pids[visited - 1] != parent_pid
                &&& forall|j: int|
                    0 <= j < visited - 1 ==> #[trigger] pids[j] == 0 || pids[j] == parent_pid
            }
        }),
    decreases pids.len(),
{
    if pids.len() > 0 {
        let rest = pids.drop_first();
        lemma_child_search_finds_first_other_process(parent_pid, rest);
        if pids[0] == 0 || pids[0] == parent_pid {
            assert forall|i: int| 1 <= i < pids.len() implies pids[i] == rest[i - 1] by {}
            let (s, visited) = child_search(
                UwpResolverState { parent_pid, child_pid: None },
                rest,
            );
            if s.child_pid is None {
                assert forall|i: int| 0 <= i < pids.len() implies #[trigger] pids[i] == 0
                    || pids[i] == parent_pid by {
                    if i > 0 {
                        assert(pids[i] == rest[i - 1]);
                    }
                }
            } else {
                assert(pids[visited as int] == rest[visited - 1]);
                assert forall|j: int| 0 <= j < visited as int implies #[trigger] pids[j] == 0
                    || pids[j] == parent_pid by {
                    if j > 0 {
                        assert(pids[j] == rest[j - 1]);
                    }
                }
                assert(!(forall|i: int|
                    0 <= i < rest.len() ==> #[trigger] rest[i] == 0 || rest[i] == parent_pid));
                let k = choose|i: int| 0 <= i < rest.len() && !(#[trigger] rest[i] == 0 || rest[i] == parent_pid);
                assert(pids[k + 1] == rest[k]);
            }
        }
    }
}

// ---------------------------------------------------------------------------
// The cycle as the caller sees it
// ---------------------------------------------------------------------------

/// `e` is an answer of the kind that action `a` asks for.
pub open spec fn answers(a: TrackerActionView, e: TrackerEventView) -> bool {
    match a {
        TrackerActionView::QueryIdleSeconds => e is IdleSeconds,
        TrackerActionView::QueryForegroundWindow => e is ForegroundWindow,
        TrackerActionView::QueryWindowPid => e is WindowPid,
        TrackerActionView::QueryProcessName { .. } => e is ProcessName,
        TrackerActionView::FindUwpChild { .. } => e is UwpChild,
        TrackerActionView::QueryTitle => e is Title,
        TrackerActionView::ReadClock => e is Clock,
        TrackerActionView::Record { .. } => e is Recorded,
        TrackerActionView::MeasureElapsed => e is Elapsed,
        TrackerActionView::Sleep { .. } => false,
        TrackerActionView::Stop => false,
    }
}

/// A cycle opens by asking how long the user has been away, and any answer to that
/// question is taken: the first answer never stops the tracker.
pub proof fn lemma_cycle_opens_with_idle_query(e: TrackerEventView)
    requires
        answers(cycle_start().1, e),
    ensures
        cycle_start().1 == TrackerActionView::QueryIdleSeconds,
        cycle_start().0 == TrackerStateView::AwaitIdle,
        e == TrackerEventView::IdleSeconds(e->IdleSeconds_0),
        !(tracker_next(cycle_start().0, e).1 is Stop),
{
}

/// Every question the tracker asks is one it can take the answer to: whatever state a
/// step leaves, an answer of the kind its action asks for never stops the tracker,
/// except a clock that reads before the Unix epoch.
pub proof fn lemma_answers_are_taken(s: TrackerStateView, e: TrackerEventView, e2: TrackerEventView)
    requires
        answers(tracker_next(s, e).1, e2),
        e2 != TrackerEventView::Clock(None),
    ensures
        !(tracker_next(tracker_next(s, e).0, e2).1 is Stop),
{
}

/// A window title is taken whole: for every application and every title, the empty
/// one included, the activity awaiting the clock is that application, exactly that
/// title, and the source `foreground`.
pub proof fn lemma_title_is_recorded_whole(app: Seq<char>, title: Seq<char>, ts: i64)
    ensures
        tracker_next(TrackerStateView::AwaitTitle { app }, TrackerEventView::Title(title)) == (
        TrackerStateView::AwaitClock {
            activity: ActivityView { app, title, source: "foreground"@ },
        },
        TrackerActionView::ReadClock),
        tracker_next(
            tracker_next(TrackerStateView::AwaitTitle { app }, TrackerEventView::Title(title)).0,
            TrackerEventView::Clock(Some(ts)),
        ).1 == (TrackerActionView::Record {
            activity: ActivityView { app, title, source: "foreground"@ },
            ts,
        }),
{
}

/// A present user's foreground window is recorded: when the user has given input
/// within the threshold, there is a foreground window with a known process id whose
/// process is neither the UWP frame host nor a lock screen, the cycle asks for that
/// process's name, then for the window's title, then for the time, and records
/// exactly (name, title, `foreground`) at that time. An unreadable name counts as
/// `<Elevated Process>`.
pub proof fn lemma_foreground_window_is_recorded(
    secs: u32,
    pid: u32,
    name: Option<Seq<char>>,
    title: Seq<char>,
    ts: i64,
)
    requires
        secs < 180,
        pid != 0,
        name is Some ==> name->0 != "ApplicationFrameHost.exe"@ && name->0 != "LogonUI.exe"@
            && name->0 != "LockApp.exe"@,
    ensures
        ({
            let app = if name is Some {
                name->0
            } else {
                "<Elevated Process>"@
            };
            let (s1, a1) = tracker_next(cycle_start().0, TrackerEventView::IdleSeconds(secs));
            let (s2, a2) = tracker_next(s1, TrackerEventView::ForegroundWindow(true));
            let (s3, a3) = tracker_next(s2, TrackerEventView::WindowPid(pid));
            let (s4, a4) = tracker_next(s3, TrackerEventView::ProcessName(name));
            let (s5, a5) = tracker_next(s4, TrackerEventView::Title(title));
            let (s6, a6) = tracker_next(s5, TrackerEventView::Clock(Some(ts)));
            &&& a1 == TrackerActionView::QueryForegroundWindow
            &&& a2 == TrackerActionView::QueryWindowPid
            &&& a3 == TrackerActionView::QueryProcessName { pid }
            &&& a4 == TrackerActionView::QueryTitle
            &&& a5 == TrackerActionView::ReadClock
            &&& a6 == TrackerActionView::Record {
                activity: ActivityView { app, title, source: "foreground"@ },
                ts,
            }
        }),
{
    reveal_strlit("<Elevated Process>");
    reveal_strlit("ApplicationFrameHost.exe");
    reveal_strlit("LogonUI.exe");
    reveal_strlit("LockApp.exe");
    assert("<Elevated Process>"@ != "ApplicationFrameHost.exe"@) by {
        assert("<Elevated Process>"@.len() != "ApplicationFrameHost.exe"@.len());
    }
    assert("<Elevated Process>"@ != "LogonUI.exe"@) by {
        assert("<Elevated Process>"@.len() != "LogonUI.exe"@.len());
    }
    assert("<Elevated Process>"@ != "LockApp.exe"@) by {
        assert("<Elevated Process>"@.len() != "LockApp.exe"@.len());
    }
}

/// A UWP application is recorded under its own process: when the foreground window
/// belongs to the frame host, the cycle searches the frame's children for another
/// process, asks that process's name, and records (that name, title, `foreground`);
/// when the child's name cannot be read, or no child process is found, the frame
/// host's name is recorded.
pub proof fn lemma_uwp_window_is_recorded_under_its_process(
    secs: u32,
    pid: u32,
    child: Option<u32>,
    child_name: Option<Seq<char>>,
    title: Seq<char>,
    ts: i64,
)
    requires
        secs < 180,
        pid != 0,
        child_name is Some ==> child_name->0 != "LogonUI.exe"@ && child_name->0
            != "LockApp.exe"@,
    ensures
        ({
            let host = "ApplicationFrameHost.exe"@;
            let (s1, a1) = tracker_next(cycle_start().0, TrackerEventView::IdleSeconds(secs));
            let (s2, a2) = tracker_next(s1, TrackerEventView::ForegroundWindow(true));
            let (s3, a3) = tracker_next(s2, TrackerEventView::WindowPid(pid));
            let (s4, a4) = tracker_next(s3, TrackerEventView::ProcessName(Some(host)));
            let (s5, a5) = tracker_next(s4, TrackerEventView::UwpChild(child));
            &&& a4 == TrackerActionView::FindUwpChild { parent_pid: pid }
            &&& match child {
                Some(c) => {
                    let (s6, a6) = tracker_next(s5, TrackerEventView::ProcessName(child_name));
                    let (s7, a7) = tracker_next(s6, TrackerEventView::Title(title));
                    let (s8, a8) = tracker_next(s7, TrackerEventView::Clock(Some(ts)));
                    let app = if child_name is Some {
                        child_name->0
                    } else {
                        host
                    };
                    &&& a5 == TrackerActionView::QueryProcessName { pid: c }
                    &&& a6 == TrackerActionView::QueryTitle
                    &&& a8 == TrackerActionView::Record {
                        activity: ActivityView { app, title, source: "foreground"@ },
                        ts,
                    }
                },
                None => {
                    let (s6, a6) = tracker_next(s5, TrackerEventView::Title(title));
                    let (s7, a7) = tracker_next(s6, TrackerEventView::Clock(Some(ts)));
                    &&& a5 == TrackerActionView::QueryTitle
                    &&& a7 == TrackerActionView::Record {
                        activity: ActivityView { app: host, title, source: "foreground"@ },
                        ts,
                    }
                },
            }
        }),
{
    reveal_strlit("ApplicationFrameHost.exe");
    reveal_strlit("LogonUI.exe");
    reveal_strlit("LockApp.exe");
    assert("ApplicationFrameHost.exe"@ != "LogonUI.exe"@) by {
        assert("ApplicationFrameHost.exe"@.len() != "LogonUI.exe"@.len());
    }
    assert("ApplicationFrameHost.exe"@ != "LockApp.exe"@) by {
        assert("ApplicationFrameHost.exe"@.len() != "LockApp.exe"@.len());
    }
}

/// The lock screen is recorded as `locked` with an empty title and source `afk`, and
/// its window title is never asked for.
pub proof fn lemma_lock_screen_is_recorded_locked(secs: u32, pid: u32, name: Seq<char>, ts: i64)
    requires
        secs < 180,
        pid != 0,
        name == "LogonUI.exe"@ || name == "LockApp.exe"@,
    ensures
        ({
            let (s1, a1) = tracker_next(cycle_start().0, TrackerEventView::IdleSeconds(secs));
            let (s2, a2) = tracker_next(s1, TrackerEventView::ForegroundWindow(true));
            let (s3, a3) = tracker_next(s2, TrackerEventView::WindowPid(pid));
            let (s4, a4) = tracker_next(s3, TrackerEventView::ProcessName(Some(name)));
            let (s5, a5) = tracker_next(s4, TrackerEventView::Clock(Some(ts)));
            &&& a4 == TrackerActionView::ReadClock
            &&& a5 == TrackerActionView::Record {
                activity: ActivityView { app: "locked"@, title: Seq::empty(), source: "afk"@ },
                ts,
            }
        }),
{
    reveal_strlit("ApplicationFrameHost.exe");
    reveal_strlit("LogonUI.exe");
    reveal_strlit("LockApp.exe");
    assert("ApplicationFrameHost.exe"@ != "LogonUI.exe"@) by {
        assert("ApplicationFrameHost.exe"@.len() != "LogonUI.exe"@.len());
    }
    assert("ApplicationFrameHost.exe"@ != "LockApp.exe"@) by {
        assert("ApplicationFrameHost.exe"@.len() != "LockApp.exe"@.len());
    }
}

/// A cycle without a foreground window, or whose window's process id is unknown,
/// records nothing and sleeps the whole three seconds.
pub proof fn lemma_unknown_window_skips_cycle(secs: u32)
    requires
        secs < 180,
    ensures
        ({
            let (s1, a1) = tracker_next(cycle_start().0, TrackerEventView::IdleSeconds(secs));
            let (s2, a2) = tracker_next(s1, TrackerEventView::ForegroundWindow(false));
            let (s3, a3) = tracker_next(s1, TrackerEventView::ForegroundWindow(true));
            let (s4, a4) = tracker_next(s3, TrackerEventView::WindowPid(0));
            &&& a2 == TrackerActionView::Sleep { nanos: 3_000_000_000 }
            &&& a4 == TrackerActionView::Sleep { nanos: 3_000_000_000 }
        }),
{
}

} // verus!
