//! Verified core of a small LED browser.
//!
//! The library discovers LED devices from the textual contents of a
//! device-class directory tree (one record per device, with an on/off state
//! parsed from a `brightness` attribute) and drives a minimal keyboard-driven
//! list UI: a selection index with saturating up/down navigation and a
//! run/stop state machine ended by a quit key.
//!
//! All filesystem and terminal work is left to the surrounding binary; the
//! library receives plain values (directory entry names and file contents,
//! key presses) and returns plain values (device records, log lines, the next
//! state).

pub mod app;
pub mod device;
pub mod scan;
pub mod text;
