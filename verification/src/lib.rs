//! Verified core of a terminal viewer for continuously arriving records from a
//! remote, append-only log source.
//!
//! The engine is pure with respect to I/O: components decide, and hand the
//! surrounding program a list of [`action::Action`]s to enqueue and
//! [`action::Effect`]s to perform. The transport, terminal rendering,
//! clipboard and file system live outside this crate.

pub mod action;
pub mod date;
pub mod log_detail;
pub mod log_group_list;
pub mod log_stream;
pub mod outer_layout;
pub mod session;
pub mod text;
pub mod url;
