//! Sessions: one stored row per continuous focus period.
//!
//! Each poll of the tracker yields an activity `(app, title, source)` at a timestamp in
//! milliseconds. The latest stored session is extended when the activity is the same
//! and the sample follows it within the merge gap; otherwise a new session starts.
//! At start-up, a crash gap session covers the time between the latest stored session
//! and now.

use vstd::prelude::*;
use crate::ids::{is_uuid_text, new_time_ordered_uuid_text};
use crate::text::same_text;
use crate::tracker::{activity_ok, ActivityView};

verus! {

/// The longest pause, in milliseconds, between two samples of one session.
pub const MERGE_GAP_MS: i64 = 9000;

/// The application name of a crash gap session.
pub open spec fn crash_gap_app() -> Seq<char> {
    "<System Gap>"@
}

/// The source of a crash gap session.
pub open spec fn crash_gap_source() -> Seq<char> {
    "crash_gap"@
}

/// A row of the sessions table.
#[derive(Debug)]
pub struct Session {
    pub id: String,
    pub app: String,
    pub title: String,
    pub start_utc: i64,
    pub end_utc: i64,
    pub source: String,
    pub device_id: String,
}

/// The mathematical content of a session row.
pub struct SessionView {
    pub id: Seq<char>,
    pub app: Seq<char>,
    pub title: Seq<char>,
    pub start_utc: int,
    pub end_utc: int,
    pub source: Seq<char>,
    pub device_id: Seq<char>,
}

impl View for Session {
    type V = SessionView;

    open spec fn view(&self) -> SessionView {
        SessionView {
            id: self.id@,
            app: self.app@,
            title: self.title@,
            start_utc: self.start_utc as int,
            end_utc: self.end_utc as int,
            source: self.source@,
            device_id: self.device_id@,
        }
    }
}

/// The change that one sample makes to the sessions table.
#[derive(Debug)]
pub enum SessionWrite {
    /// Move the end of the session with this id to `end_utc`.
    Extend { id: String, end_utc: i64 },
    /// Add this session.
    Insert(Session),
}

/// The mathematical content of a `SessionWrite`.
pub enum SessionWriteView {
    Extend { id: Seq<char>, end_utc: int },
    Insert(SessionView),
}

impl View for SessionWrite {
    type V = SessionWriteView;

    open spec fn view(&self) -> SessionWriteView {
        match self {
            SessionWrite::Extend { id, end_utc } => SessionWriteView::Extend {
                id: id@,
                end_utc: *end_utc as int,
            },
            SessionWrite::Insert(s) => SessionWriteView::Insert(s@),
        }
    }
}

/// The view of an optional session reference.
pub open spec fn opt_session_view(s: Option<&Session>) -> Option<SessionView> {
    match s {
        Some(s) => Some(s@),
        None => None,
    }
}

/// A sample of `(app, title, source)` at `ts` continues the session `last`: the
/// activity is the same and `ts` lies within the merge gap after the session's end.
pub open spec fn continues(
    last: SessionView,
    app: Seq<char>,
    title: Seq<char>,
    source: Seq<char>,
    ts: int,
) -> bool {
    &&& last.app == app
    &&& last.title == title
    &&& last.source == source
    &&& last.end_utc <= ts <= last.end_utc + MERGE_GAP_MS
}

/// A session that starts and ends at `ts`.
pub open spec fn new_session(
    id: Seq<char>,
    device_id: Seq<char>,
    app: Seq<char>,
    title: Seq<char>,
    source: Seq<char>,
    ts: int,
) -> SessionView {
    SessionView { id, app, title, start_utc: ts, end_utc: ts, source, device_id }
}

/// `w` is the write that a sample of `(app, title, source)` at `ts` makes, given the
/// latest stored session `last`: it extends `last` to `ts` when the sample continues
/// it, and otherwise inserts a new session at `ts` with a fresh time-ordered UUID.
pub open spec fn is_session_write(
    last: Option<SessionView>,
    device_id: Seq<char>,
    app: Seq<char>,
    title: Seq<char>,
    source: Seq<char>,
    ts: int,
    w: SessionWriteView,
) -> bool {
    if last is Some && continues(last->0, app, title, source, ts) {
        w == SessionWriteView::Extend { id: last->0.id, end_utc: ts }
    } else {
        &&& w is Insert
        &&& w->Insert_0 == new_session(w->Insert_0.id, device_id, app, title, source, ts)
        &&& is_uuid_text(w->Insert_0.id, '7')
    }
}

/// Decides how a sample of `(app, title, source)` taken at `ts` (Unix milliseconds)
/// changes the sessions table whose latest session (by end time) is `last`.
pub fn record_session(
    last: Option<&Session>,
    device_id: &str,
    app: &str,
    title: &str,
    source: &str,
    ts: i64,
) -> (w: SessionWrite)
    ensures
        is_session_write(opt_session_view(last), device_id@, app@, title@, source@, ts as int, w@),
{
    match last {
        Some(l) => {
            let gap: i128 = ts as i128 - l.end_utc as i128;
            if same_text(l.app.as_str(), app) && same_text(l.title.as_str(), title) && same_text(
                l.source.as_str(),
                source,
            ) && 0 <= gap && gap <= MERGE_GAP_MS as i128 {
                return SessionWrite::Extend { id: l.id.clone(), end_utc: ts };
            }
        },
        None => {},
    }
    let id = new_time_ordered_uuid_text();
    SessionWrite::Insert(
        Session {
            id,
            app: String::from_str(app),
            title: String::from_str(title),
            start_utc: ts,
            end_utc: ts,
            source: String::from_str(source),
            device_id: String::from_str(device_id),
        },
    )
}

/// The session covering the time from `last_end` to `now` while nothing was tracked.
pub open spec fn crash_gap_session(
    id: Seq<char>,
    last_end: int,
    now: int,
    device_id: Seq<char>,
) -> SessionView {
    SessionView {
        id,
        app: crash_gap_app(),
        title: Seq::empty(),
        start_utc: last_end,
        end_utc: now,
        source: crash_gap_source(),
        device_id,
    }
}

/// `gap` is the start-up recovery outcome for a table whose latest session ends at
/// `last_end` (`None` for an empty table) when the clock reads `now`: a crash gap
/// session from `last_end` to `now` exactly when `now` is later than `last_end`.
pub open spec fn is_recovery(
    last_end: Option<int>,
    now: int,
    device_id: Seq<char>,
    gap: Option<SessionView>,
) -> bool {
    if last_end is Some && now > last_end->0 {
        &&& gap is Some
        &&& gap->0 == crash_gap_session(gap->0.id, last_end->0, now, device_id)
        &&& is_uuid_text(gap->0.id, '7')
    } else {
        gap is None
    }
}

/// Decides the crash gap session to insert at start-up, given the end time of the
/// latest stored session (`None` when there is none) and the current time, both in
/// Unix milliseconds.
pub fn perform_startup_recovery(last_end: Option<i64>, now: i64, device_id: &str) -> (gap: Option<
    Session,
>)
    ensures
        is_recovery(
            match last_end {
                Some(e) => Some(e as int),
                None => None,
            },
            now as int,
            device_id@,
            match gap {
                Some(s) => Some(s@),
                None => None,
            },
        ),
{
    match last_end {
        Some(end_utc) => {
            if now > end_utc {
                let id = new_time_ordered_uuid_text();
                let s = Session {
                    id,
                    app: String::from_str("<System Gap>"),
                    title: String::new(),
                    start_utc: end_utc,
                    end_utc: now,
                    source: String::from_str("crash_gap"),
                    device_id: String::from_str(device_id),
                };
                Some(s)
            } else {
                None
            }
        },
        None => None,
    }
}

// ---------------------------------------------------------------------------
// The sessions table and the laws of writing to it
// ---------------------------------------------------------------------------

/// The latest session after applying `w` to a table whose latest session is `last`.
pub open spec fn latest_after(last: Option<SessionView>, w: SessionWriteView) -> SessionView {
    match w {
        SessionWriteView::Extend { id: _, end_utc } => SessionView { end_utc, ..last->0 },
        SessionWriteView::Insert(s) => s,
    }
}

/// The sessions table keyed by id (the table's primary key), after applying `w`:
/// an extension moves the end of the row with that id, an insertion adds the row
/// unless its id is taken (the database refuses such an insertion).
pub open spec fn apply_write(
    table: Map<Seq<char>, SessionView>,
    w: SessionWriteView,
) -> Map<Seq<char>, SessionView> {
    match w {
        SessionWriteView::Extend { id, end_utc } => if table.dom().contains(id) {
            table.insert(id, SessionView { end_utc, ..table[id] })
        } else {
            table
        },
        SessionWriteView::Insert(s) => if table.dom().contains(s.id) {
            table
        } else {
            table.insert(s.id, s)
        },
    }
}

/// Every session of the table starts no later than it ends.
pub open spec fn sessions_well_formed(table: Map<Seq<char>, SessionView>) -> bool {
    forall|id: Seq<char>| #[trigger]
        table.dom().contains(id) ==> table[id].start_utc <= table[id].end_utc
}

/// `last` is the table's row for its id (or the table has no latest row to speak of).
pub open spec fn is_latest_row(table: Map<Seq<char>, SessionView>, last: Option<SessionView>) -> bool {
    last is Some ==> table.dom().contains(last->0.id) && table[last->0.id] == last->0
}

/// A focus period sampled without pauses longer than the merge gap stays one row:
/// the sample after a write extends the session that write left as the latest, and
/// that session keeps its id and its start.
pub proof fn lemma_continuous_focus_is_one_session(
    last: Option<SessionView>,
    device_id: Seq<char>,
    app: Seq<char>,
    title: Seq<char>,
    source: Seq<char>,
    ts1: int,
    ts2: int,
    w1: SessionWriteView,
    w2: SessionWriteView,
)
    requires
        is_session_write(last, device_id, app, title, source, ts1, w1),
        is_session_write(Some(latest_after(last, w1)), device_id, app, title, source, ts2, w2),
        ts1 <= ts2 <= ts1 + MERGE_GAP_MS,
    ensures
        w2 == (SessionWriteView::Extend { id: latest_after(last, w1).id, end_utc: ts2 }),
        latest_after(Some(latest_after(last, w1)), w2).id == latest_after(last, w1).id,
        latest_after(Some(latest_after(last, w1)), w2).start_utc == latest_after(
            last,
            w1,
        ).start_utc,
        latest_after(Some(latest_after(last, w1)), w2).end_utc == ts2,
{
    assert(latest_after(last, w1).end_utc == ts1);
    assert(continues(latest_after(last, w1), app, title, source, ts2));
}

/// A change of focus starts a new session: when the sample's activity differs from
/// the latest session's, a new session starting and ending at the sample is inserted.
pub proof fn lemma_focus_change_starts_session(
    last: SessionView,
    device_id: Seq<char>,
    app: Seq<char>,
    title: Seq<char>,
    source: Seq<char>,
    ts: int,
    w: SessionWriteView,
)
    requires
        is_session_write(Some(last), device_id, app, title, source, ts, w),
        last.app != app || last.title != title || last.source != source,
    ensures
        w is Insert,
        w->Insert_0.start_utc == ts,
        w->Insert_0.end_utc == ts,
        w->Insert_0.app == app,
        w->Insert_0.title == title,
        w->Insert_0.source == source,
{
}

/// A pause longer than the merge gap, or a sample older than the latest session's end,
/// starts a new session even for the same activity.
pub proof fn lemma_pause_starts_session(
    last: SessionView,
    device_id: Seq<char>,
    app: Seq<char>,
    title: Seq<char>,
    source: Seq<char>,
    ts: int,
    w: SessionWriteView,
)
    requires
        is_session_write(Some(last), device_id, app, title, source, ts, w),
        ts > last.end_utc + MERGE_GAP_MS || ts < last.end_utc,
    ensures
        w is Insert,
        w->Insert_0.start_utc == ts,
        w->Insert_0.end_utc == ts,
{
}

/// Every write keeps every stored session well formed (start no later than end),
/// extends a row in place or adds exactly the new row, and leaves the written session
/// as the table's row for its id.
pub proof fn lemma_write_keeps_sessions_well_formed(
    table: Map<Seq<char>, SessionView>,
    last: Option<SessionView>,
    device_id: Seq<char>,
    app: Seq<char>,
    title: Seq<char>,
    source: Seq<char>,
    ts: int,
    w: SessionWriteView,
)
    requires
        sessions_well_formed(table),
        is_latest_row(table, last),
        is_session_write(last, device_id, app, title, source, ts, w),
    ensures
        sessions_well_formed(apply_write(table, w)),
        w is Extend ==> apply_write(table, w).dom() == table.dom(),
        w is Insert && !table.dom().contains(w->Insert_0.id) ==> apply_write(table, w).dom()
            == table.dom().insert(w->Insert_0.id),
        w is Extend || !table.dom().contains(w->Insert_0.id) ==> is_latest_row(
            apply_write(table, w),
            Some(latest_after(last, w)),
        ),
{
    let t2 = apply_write(table, w);
    assert forall|id: Seq<char>| #[trigger] t2.dom().contains(id) implies t2[id].start_utc
        <= t2[id].end_utc by {
        if table.dom().contains(id) {
            assert(table[id].start_utc <= table[id].end_utc);
        }
    }
    if w is Extend {
        assert(t2.dom() =~= table.dom());
    }
}

/// A crash gap session is well formed and covers exactly the time between the latest
/// stored session's end and the start-up time.
pub proof fn lemma_crash_gap_covers_downtime(
    last_end: Option<int>,
    now: int,
    device_id: Seq<char>,
    gap: Option<SessionView>,
)
    requires
        is_recovery(last_end, now, device_id, gap),
    ensures
        gap is Some ==> {
            &&& last_end is Some
            &&& gap->0.start_utc == last_end->0
            &&& gap->0.end_utc == now
            &&& gap->0.start_utc < gap->0.end_utc
        },
        gap is None ==> last_end is None || now <= last_end->0,
{
}

/// The downtime stays a row of its own: when a crash gap session is the latest row,
/// no activity the tracker records extends it, since the tracker's sources are never
/// the crash gap source.
pub proof fn lemma_crash_gap_never_extended(
    gap: SessionView,
    device_id: Seq<char>,
    a: ActivityView,
    ts: int,
    w: SessionWriteView,
)
    requires
        gap.source == crash_gap_source(),
        activity_ok(a),
        is_session_write(Some(gap), device_id, a.app, a.title, a.source, ts, w),
    ensures
        w is Insert,
{
    reveal_strlit("crash_gap");
    reveal_strlit("afk");
    reveal_strlit("foreground");
    assert(crash_gap_source().len() != "afk"@.len());
    assert(crash_gap_source().len() != "foreground"@.len());
}

// ---------------------------------------------------------------------------
// A run of samples
// ---------------------------------------------------------------------------

/// Each write of `ws` is the one that the sample at the matching time of `ts` makes,
/// starting from the latest session `last` and then from the latest session that each
/// write leaves.
pub open spec fn sample_writes(
    last: Option<SessionView>,
    device_id: Seq<char>,
    app: Seq<char>,
    title: Seq<char>,
    source: Seq<char>,
    ts: Seq<int>,
    ws: Seq<SessionWriteView>,
) -> bool
    decreases ts.len(),
{
    &&& ts.len() == ws.len()
    &&& ts.len() > 0 ==> {
        &&& is_session_write(last, device_id, app, title, source, ts[0], ws[0])
        &&& sample_writes(
            Some(latest_after(last, ws[0])),
            device_id,
            app,
            title,
            source,
            ts.drop_first(),
            ws.drop_first(),
        )
    }
}

/// The table after applying the writes `ws` in order.
pub open spec fn apply_writes(
    table: Map<Seq<char>, SessionView>,
    ws: Seq<SessionWriteView>,
) -> Map<Seq<char>, SessionView>
    decreases ws.len(),
{
    if ws.len() == 0 {
        table
    } else {
        apply_writes(apply_write(table, ws[0]), ws.drop_first())
    }
}

/// Consecutive samples are in order and no more than the merge gap apart.
pub open spec fn samples_within_gap(ts: Seq<int>) -> bool {
    forall|i: int| 0 <= i < ts.len() - 1 ==> ts[i] <= #[trigger] ts[i + 1] <= ts[i] + MERGE_GAP_MS
}

proof fn lemma_samples_within_gap_tail(ts: Seq<int>)
    requires
        samples_within_gap(ts),
        ts.len() > 0,
    ensures
        samples_within_gap(ts.drop_first()),
{
    assert forall|i: int| 0 <= i < ts.drop_first().len() - 1 implies ts.drop_first()[i]
        <= #[trigger] ts.drop_first()[i + 1] <= ts.drop_first()[i] + MERGE_GAP_MS by {
        assert(ts.drop_first()[i] == ts[i + 1]);
        assert(ts.drop_first()[i + 1] == ts[i + 2]);
    }
}

proof fn lemma_samples_within_gap_first_is_least(ts: Seq<int>)
    requires
        samples_within_gap(ts),
        ts.len() > 0,
    ensures
        ts[0] <= ts.last(),
    decreases ts.len(),
{
    if ts.len() > 1 {
        lemma_samples_within_gap_tail(ts);
        lemma_samples_within_gap_first_is_least(ts.drop_first());
        assert(ts[0] <= ts[1]);
        assert(ts.drop_first()[0] == ts[1]);
        assert(ts.drop_first().last() == ts.last());
    }
}

/// Once the latest row holds the activity and the samples keep within the merge gap,
/// every further sample extends that row and leaves every other row as it was.
proof fn lemma_run_extends_row(
    table: Map<Seq<char>, SessionView>,
    r: SessionView,
    device_id: Seq<char>,
    app: Seq<char>,
    title: Seq<char>,
    source: Seq<char>,
    ts: Seq<int>,
    ws: Seq<SessionWriteView>,
)
    requires
        is_latest_row(table, Some(r)),
        r.app == app,
        r.title == title,
        r.source == source,
        sample_writes(Some(r), device_id, app, title, source, ts, ws),
        ts.len() > 0 ==> r.end_utc <= ts[0] <= r.end_utc + MERGE_GAP_MS,
        samples_within_gap(ts),
    ensures
        forall|i: int|
            0 <= i < ws.len() ==> #[trigger] ws[i] == (SessionWriteView::Extend {
                id: r.id,
                end_utc: ts[i],
            }),
        apply_writes(table, ws).dom() == table.dom(),
        apply_writes(table, ws)[r.id] == (SessionView {
            end_utc: if ts.len() == 0 {
                r.end_utc
            } else {
                ts.last()
            },
            ..r
        }),
        forall|id: Seq<char>|
            #[trigger] table.dom().contains(id) && id != r.id ==> apply_writes(table, ws)[id]
                == table[id],
    decreases ts.len(),
{
    if ts.len() > 0 {
        let w0 = ws[0];
        assert(continues(r, app, title, source, ts[0]));
        assert(w0 == SessionWriteView::Extend { id: r.id, end_utc: ts[0] });
        let r1 = latest_after(Some(r), w0);
        let table1 = apply_write(table, w0);
        assert(table1 == table.insert(r.id, r1));
        assert(table1.dom() =~= table.dom());
        lemma_samples_within_gap_tail(ts);
        if ts.len() > 1 {
            assert(ts.drop_first()[0] == ts[1]);
            assert(ts[0] <= ts[0int + 1] <= ts[0] + MERGE_GAP_MS);
        }
        lemma_run_extends_row(
            table1,
            r1,
            device_id,
            app,
            title,
            source,
            ts.drop_first(),
            ws.drop_first(),
        );
        assert forall|i: int| 0 <= i < ws.len() implies #[trigger] ws[i] == (
        SessionWriteView::Extend { id: r.id, end_utc: ts[i] }) by {
            if i > 0 {
                assert(ws[i] == ws.drop_first()[i - 1]);
                assert(ts[i] == ts.drop_first()[i - 1]);
            }
        }
        if ts.len() > 1 {
            assert(ts.drop_first().last() == ts.last());
        }
    }
}

/// One row per continuous focus period: over any run of samples of one activity, each
/// within the merge gap of the one before and the first later than every stored session,
/// the first sample extends or starts one row, every later sample extends that same row,
/// the table gains at most that row, every other row stays as it was, and that row is
/// the only one that ends at the last sample. (A freshly drawn id is assumed not to be
/// in the table already; the database would refuse it.)
pub proof fn lemma_continuous_focus_is_one_row(
    table: Map<Seq<char>, SessionView>,
    last: Option<SessionView>,
    device_id: Seq<char>,
    app: Seq<char>,
    title: Seq<char>,
    source: Seq<char>,
    ts: Seq<int>,
    ws: Seq<SessionWriteView>,
)
    requires
        is_latest_row(table, last),
        sample_writes(last, device_id, app, title, source, ts, ws),
        ts.len() > 0,
        samples_within_gap(ts),
        forall|id: Seq<char>| #[trigger] table.dom().contains(id) ==> table[id].end_utc < ts[0],
        ws[0] is Insert ==> !table.dom().contains(ws[0]->Insert_0.id),
    ensures
        ({
            let row = latest_after(last, ws[0]);
            let t2 = apply_writes(table, ws);
            &&& forall|i: int|
                1 <= i < ws.len() ==> #[trigger] ws[i] == (SessionWriteView::Extend {
                    id: row.id,
                    end_utc: ts[i],
                })
            &&& t2.dom() == table.dom().insert(row.id)
            &&& t2[row.id].app == app
            &&& t2[row.id].title == title
            &&& t2[row.id].source == source
            &&& t2[row.id].start_utc == row.start_utc
            &&& t2[row.id].end_utc == ts.last()
            &&& forall|id: Seq<char>|
                #[trigger] table.dom().contains(id) && id != row.id ==> t2[id] == table[id]
            &&& forall|id: Seq<char>|
                #[trigger] t2.dom().contains(id) && id != row.id ==> t2[id].end_utc < ts.last()
        }),
{
    let w0 = ws[0];
    let row = latest_after(last, w0);
    let table1 = apply_write(table, w0);
    assert(row.app == app && row.title == title && row.source == source && row.end_utc == ts[0]);
    assert(is_latest_row(table1, Some(row)));
    assert(table1.dom() =~= table.dom().insert(row.id));
    assert forall|id: Seq<char>| #[trigger]
        table.dom().contains(id) && id != row.id implies table1[id] == table[id] by {}
    lemma_samples_within_gap_tail(ts);
    if ts.len() > 1 {
        assert(ts.drop_first()[0] == ts[1]);
        assert(ts[0] <= ts[0int + 1] <= ts[0] + MERGE_GAP_MS);
    }
    lemma_run_extends_row(
        table1,
        row,
        device_id,
        app,
        title,
        source,
        ts.drop_first(),
        ws.drop_first(),
    );
    assert(apply_writes(table, ws) == apply_writes(table1, ws.drop_first()));
    assert forall|i: int| 1 <= i < ws.len() implies #[trigger] ws[i] == (
    SessionWriteView::Extend { id: row.id, end_utc: ts[i] }) by {
        assert(ws[i] == ws.drop_first()[i - 1]);
        assert(ts[i] == ts.drop_first()[i - 1]);
    }
    if ts.len() > 1 {
        assert(ts.drop_first().last() == ts.last());
    }
    lemma_samples_within_gap_first_is_least(ts);
    let t2 = apply_writes(table, ws);
    assert(t2.dom() == table.dom().insert(row.id));
    assert(t2[row.id].end_utc == ts.last());
    assert forall|id: Seq<char>| #[trigger]
        table.dom().contains(id) && id != row.id implies t2[id] == table[id] by {
        assert(table1.dom().contains(id));
        assert(t2[id] == table1[id]);
    }
    assert forall|id: Seq<char>| #[trigger]
        t2.dom().contains(id) && id != row.id implies t2[id].end_utc < ts.last() by {
        assert(table.dom().contains(id));
        assert(t2[id] == table[id]);
    }
}

// ---------------------------------------------------------------------------
// What a sample writes, in terms of its inputs
// ---------------------------------------------------------------------------

/// What one sample writes, in terms of the sample and the latest session: it extends
/// exactly when the latest session has the sample's application, title and source and
/// ended at most nine seconds before the sample (and not after it); an extension
/// moves that session's end to the sample's time and keeps its id; an insertion is a
/// session of the sample's application, title and source, starting and ending at the
/// sample's time, attributed to the device that took the sample (whatever device the
/// latest session came from), with a time-ordered UUID as its id.
pub proof fn lemma_sample_write_in_terms_of_inputs(
    last: Option<SessionView>,
    device_id: Seq<char>,
    app: Seq<char>,
    title: Seq<char>,
    source: Seq<char>,
    ts: int,
    w: SessionWriteView,
)
    requires
        is_session_write(last, device_id, app, title, source, ts, w),
    ensures
        (w is Extend) <==> (last is Some && last->0.app == app && last->0.title == title
            && last->0.source == source && last->0.end_utc <= ts && ts - last->0.end_utc
            <= 9000),
        w is Extend ==> w->Extend_id == last->0.id && w->Extend_end_utc == ts,
        w is Insert ==> {
            &&& w->Insert_0.device_id == device_id
            &&& w->Insert_0.app == app
            &&& w->Insert_0.title == title
            &&& w->Insert_0.source == source
            &&& w->Insert_0.start_utc == ts
            &&& w->Insert_0.end_utc == ts
            &&& is_uuid_text(w->Insert_0.id, '7')
        },
{
}

/// What start-up recovery writes, in terms of its inputs: a session exactly when the
/// table has a latest session and the clock reads later than its end; that session is
/// `<System Gap>` with an empty title and source `crash_gap`, runs from the latest
/// session's end to now, belongs to this device, and has a time-ordered UUID.
pub proof fn lemma_recovery_in_terms_of_inputs(
    last_end: Option<int>,
    now: int,
    device_id: Seq<char>,
    gap: Option<SessionView>,
)
    requires
        is_recovery(last_end, now, device_id, gap),
    ensures
        (gap is Some) <==> (last_end is Some && now > last_end->0),
        gap is Some ==> {
            &&& gap->0.app == "<System Gap>"@
            &&& gap->0.title == Seq::<char>::empty()
            &&& gap->0.source == "crash_gap"@
            &&& gap->0.start_utc == last_end->0
            &&& gap->0.end_utc == now
            &&& gap->0.device_id == device_id
            &&& is_uuid_text(gap->0.id, '7')
        },
{
}

} // verus!
