//! Orchestration core of a trace-and-debug backend for an external
//! "virtual prototype" (VP) simulator: the transaction and command
//! codecs, the VP lifecycle model, the trace-ingest state machine, the
//! GDB proxy model, the per-client session logic, and the
//! start-options resolver.

pub mod client_handler;
pub mod command;
pub mod gdb_proxy;
pub mod hexnum;
pub mod json;
pub mod options;
pub mod text;
pub mod transaction;
pub mod virtual_prototype;
