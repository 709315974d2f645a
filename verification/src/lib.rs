//! Verified core of a window-manager state watcher.
//!
//! The watcher bridges a window manager's local event bus to its control
//! channel: it reads newline-delimited event records, decides which records
//! are relevant to the selected watch mode, and re-issues the mode's control
//! query for each relevant record.  This crate holds the verified logic of
//! that loop: parsing event records ([`event`]), the mode table ([`mode`]),
//! accumulating a control-channel response ([`response`]), and resolving the
//! socket endpoint paths ([`endpoints`]).  The socket I/O itself lives
//! outside the library.

pub mod endpoints;
pub mod event;
pub mod mode;
pub mod response;
