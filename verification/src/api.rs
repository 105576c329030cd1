//! The read API: routing of `GET /api/sessions?since=<ms>` and the server's polling
//! decisions.

use vstd::prelude::*;
use crate::text::{
    decimal, is_digit, lemma_find_from_first, lemma_find_from_none, lemma_first_index_of_first,
    lemma_parse_reads_decimal, occurs_at, chars_of, find_exec, find_from, first_index_of, first_index_of_exec, occurs_at_exec,
    parse_i64, parse_i64_exec, starts_with,
};

verus! {

/// One day in milliseconds: the default look-back of the sessions query.
pub const DEFAULT_LOOKBACK_MS: i64 = 86_400_000;

/// How long the server waits, in milliseconds, when no request is pending.
pub const SERVER_IDLE_WAIT_MS: u64 = 50;

/// The path prefix that the API serves.
pub open spec fn sessions_path() -> Seq<char> {
    "/api/sessions"@
}

/// The query key of the look-back parameter.
pub open spec fn since_key() -> Seq<char> {
    "since="@
}

/// The value of the `since` parameter of `url`: the text after the first `since=`,
/// up to the next `&`, parsed as an `i64`; `None` when there is no such text or it
/// does not parse.
pub open spec fn since_param(url: Seq<char>) -> Option<int> {
    match find_from(url, since_key(), 0) {
        Some(pos) => {
            let start = pos + since_key().len();
            parse_i64(url.subrange(start, first_index_of(url, '&', start)))
        },
        None => None,
    }
}

/// Where a request goes.
#[derive(Debug)]
pub enum Route {
    /// Answer 404 "Not Found".
    NotFound,
    /// Answer with the sessions that end after `since`; with no `since`, after one day
    /// before now.
    Sessions { since: Option<i64> },
}

/// The mathematical content of a `Route`.
pub enum RouteView {
    NotFound,
    Sessions { since: Option<int> },
}

impl View for Route {
    type V = RouteView;

    open spec fn view(&self) -> RouteView {
        match self {
            Route::NotFound => RouteView::NotFound,
            Route::Sessions { since } => RouteView::Sessions {
                since: match since {
                    Some(x) => Some(*x as int),
                    None => None,
                },
            },
        }
    }
}

/// The route of a request: only `GET` requests whose URL starts with `/api/sessions`
/// are served.
pub open spec fn route(is_get: bool, url: Seq<char>) -> RouteView {
    if is_get && starts_with(url, sessions_path()) {
        RouteView::Sessions { since: since_param(url) }
    } else {
        RouteView::NotFound
    }
}

/// Routes a request given whether its method is `GET` and its URL (path and query).
pub fn handle_request(is_get: bool, url: &str) -> (r: Route)
    ensures
        r@ == route(is_get, url@),
{
    if !is_get {
        return Route::NotFound;
    }
    let u = chars_of(url);
    let prefix = chars_of("/api/sessions");
    if !occurs_at_exec(&u, &prefix, 0) {
        return Route::NotFound;
    }
    let key = chars_of("since=");
    match find_exec(&u, &key) {
        Some(pos) => {
            assert(pos + key@.len() <= u.len());
            let start = pos + key.len();
            let end = first_index_of_exec(&u, '&', start);
            Route::Sessions { since: parse_i64_exec(&u, start, end) }
        },
        None => Route::Sessions { since: None },
    }
}

/// The `since` used when the request gives none: one day before `now_ms`.
pub fn default_since(now_ms: i64) -> (since: i64)
    requires
        now_ms >= i64::MIN + DEFAULT_LOOKBACK_MS,
    ensures
        since == now_ms - DEFAULT_LOOKBACK_MS,
{
    now_ms - DEFAULT_LOOKBACK_MS
}

/// What one poll of the server's request queue returned.
#[derive(Debug)]
pub enum ServerPoll {
    /// A request arrived.
    Request,
    /// No request is pending.
    Empty,
    /// Receiving failed.
    Failed,
}

/// What the server does next.
#[derive(Debug)]
pub enum ServerAction {
    /// Handle the request on a thread of its own.
    Dispatch,
    /// Wait this many milliseconds before polling again.
    Wait { millis: u64 },
    /// Report the receive error, then wait this many milliseconds.
    ReportAndWait { millis: u64 },
}

/// The server's reaction to one poll of its queue.
pub fn server_action(poll: ServerPoll) -> (a: ServerAction)
    ensures
        match poll {
            ServerPoll::Request => a is Dispatch,
            ServerPoll::Empty => a == (ServerAction::Wait { millis: SERVER_IDLE_WAIT_MS }),
            ServerPoll::Failed => a == (ServerAction::ReportAndWait {
                millis: SERVER_IDLE_WAIT_MS,
            }),
        },
{
    match poll {
        ServerPoll::Request => ServerAction::Dispatch,
        ServerPoll::Empty => ServerAction::Wait { millis: SERVER_IDLE_WAIT_MS },
        ServerPoll::Failed => ServerAction::ReportAndWait { millis: SERVER_IDLE_WAIT_MS },
    }
}

// ---------------------------------------------------------------------------
// Laws of the read API
// ---------------------------------------------------------------------------

/// Only `GET` requests whose URL begins with `/api/sessions` are served; every other
/// request is answered "Not Found".
pub proof fn lemma_only_get_sessions_is_served(is_get: bool, url: Seq<char>)
    ensures
        (route(is_get, url) is Sessions) <==> (is_get && url.len() >= 13 && url.subrange(0, 13)
            == "/api/sessions"@),
{
    reveal_strlit("/api/sessions");
}

/// A request without `since=` anywhere in its URL gets the default look-back.
pub proof fn lemma_missing_since_gives_default(url: Seq<char>)
    requires
        forall|j: int| 0 <= j ==> !occurs_at(url, "since="@, j),
    ensures
        since_param(url) is None,
        route(true, url) is Sessions ==> route(true, url) == (RouteView::Sessions { since: None }),
{
    lemma_find_from_none(url, "since="@, 0);
}

/// The look-back a request asks for is read: for every `i64` `n`, the URL
/// `/api/sessions?since=<n in decimal>`, followed by nothing or by more parameters
/// after a `&`, is served with `since` equal to `n`.
pub proof fn lemma_since_is_read(n: int, rest: Seq<char>)
    requires
        i64::MIN <= n <= i64::MAX,
        rest.len() == 0 || rest[0] == '&',
    ensures
        route(true, "/api/sessions?since="@ + decimal(n) + rest) == (RouteView::Sessions {
            since: Some(n),
        }),
{
    reveal_strlit("/api/sessions?since=");
    reveal_strlit("/api/sessions");
    reveal_strlit("since=");
    let head = "/api/sessions?since="@;
    let d = decimal(n);
    let url = head + d + rest;
    let key = since_key();
    lemma_parse_reads_decimal(n);
    assert(head.len() == 20);
    assert(key.len() == 6);
    assert forall|k: int| 0 <= k < 20 implies url[k] == head[k] by {}
    assert(url.subrange(0, 13) =~= sessions_path());
    assert(url.subrange(14, 20) =~= key);
    assert forall|j: int| 0 <= j < 14 implies !occurs_at(url, key, j) by {
        assert(url[j + 5] == head[j + 5]);
        if occurs_at(url, key, j) {
            assert(url.subrange(j, j + 6)[5] == key[5]);
        }
    }
    lemma_find_from_first(url, key, 0, 14);
    let end: int = 20 + d.len() as int;
    assert forall|j: int| 20 <= j < end implies url[j] != '&' by {
        assert(url[j] == d[j - 20]);
        assert(d[j - 20] == '-' || is_digit(d[j - 20]));
    }
    if rest.len() > 0 {
        assert(url[end] == rest[0]);
    }
    lemma_first_index_of_first(url, '&', 20, end);
    assert(url.subrange(20, end) =~= d);
}

/// The server's fixed intervals: the default look-back is one day, in milliseconds,
/// and an idle server polls its queue every fifty milliseconds.
pub proof fn lemma_server_intervals()
    ensures
        DEFAULT_LOOKBACK_MS == 24 * 60 * 60 * 1000,
        SERVER_IDLE_WAIT_MS == 50,
{
}

} // verus!
