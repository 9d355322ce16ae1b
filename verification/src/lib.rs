//! The decision logic of an Alpine Linux shell server: a bounded store of
//! command logs, the plans of the tools that run programs, and the replies
//! and log entries that a finished run yields.

pub mod log;
pub mod shell;
pub mod text;
pub mod web;
