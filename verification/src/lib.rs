//! Incremental parser for the GDB Machine Interface (MI) text protocol.
//!
//! Raw debugger output is fed in arbitrary chunks; every complete,
//! newline-terminated line is classified and parsed into a typed [`Output`]
//! record (out-of-band records, command results, prompts, or recoverable
//! parse errors), and each call delivers the records of the lines it
//! completed, in order.

pub mod ast;
pub mod classify;
pub mod grammar;
pub mod laws;
pub mod lines;
mod parse;
mod scan;
pub mod session;

pub use ast::AsyncClass;
pub use ast::AsyncRecord;
pub use ast::AsyncRecordKind;
pub use ast::ErrorRecord;
pub use ast::GdbwireResult;
pub use ast::OobRecord;
pub use ast::Output;
pub use ast::OutputVariant;
pub use ast::Position;
pub use ast::Result;
pub use ast::ResultClass;
pub use ast::ResultRecord;
pub use ast::ResultType;
pub use ast::StreamRecord;
pub use classify::parse_output_line;
pub use session::parse_chunk;
pub use session::Parser;
