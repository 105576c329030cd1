//! ACTLog core: the decisions of a portable activity tracker, verified with Verus.
//!
//! The program around this library polls the foreground window, stores one row per
//! continuous focus period in SQLite and serves the rows over a small HTTP API. This
//! crate holds the decisions that do not depend on the operating system or the
//! database engine: how a sample extends or starts a session, when a crash gap is
//! written, how a stored device id is read back, how an HTTP request is routed and its
//! `since` parameter parsed, the tracker's polling state machine, and the tray icon's
//! pixels. Which rows a query returns, and in what order, is left to SQLite; turning a
//! process image path into a file name is left to the platform's path rules.

pub mod api;
pub mod icon;
pub mod ids;
pub mod session;
pub mod text;
pub mod tracker;
