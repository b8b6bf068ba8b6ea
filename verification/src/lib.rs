//! Verified core of a terminal-window tracking service.
//!
//! A terminal session spawned by a background service has no OS handle to
//! "its" window. This crate discovers which on-screen terminal window belongs
//! to which session via an ordered heuristic chain, keeps the session-to-window
//! mapping current as windows and sessions come and go, and prepares the
//! platform-specific activation calls that bring a window to the foreground.
//! All OS introspection (process tables, window snapshots, activation) is
//! performed by the embedding application, which hands the results to this
//! crate as plain values.

pub mod applescript;
pub mod assoc;
pub mod dock_manager;
pub mod git_app_launcher;
pub mod git_repository;
pub mod log_collector;
pub mod power_manager;
pub mod process_tracker;
pub mod text;
pub mod url_scheme;
pub mod window_enumerator;
pub mod window_matcher;
pub mod window_tracker;
