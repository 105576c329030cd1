# actlog

ACTLog is a portable Windows activity tracker: every three seconds it looks at the
foreground window (time while the user is away is not recorded; a locked
screen is recorded as `locked`), stores
one SQLite row per continuous focus period, and serves the rows as JSON on
`GET http://127.0.0.1:5566/api/sessions?since=<unix ms>`.

Layout:

- `src/` — the verified library (Verus): the program's decisions other than those
  left to SQLite (which rows a query returns, and their order) and to the
  platform's path rules (a process image's file name):
  - `session.rs`: extending or starting a session for each sample, the crash gap
    session written at start-up, and the laws of the sessions table;
  - `tracker.rs`: the polling cycle as a state machine, idle time from tick counts,
    the UWP child-window search step, cycle alignment;
  - `ids.rs`: UUID text (through the `uuid` crate) and the stored device id;
  - `api.rs`: request routing, the `since` parameter, the server's polling reaction;
  - `text.rs`: Unicode trimming, substring search, `i64` parsing;
  - `icon.rs`: the tray icon's pixels.
- `app/` — the Windows program around it: Win32 calls, SQLite, the HTTP server,
  the tray icon, logging, threads.
- `tests/` — tests of the library.
