//! Remote stack-trace capture for a running process: the thread-attach
//! protocol, the bounded call-frame walk, and address-to-name symbolization.
//!
//! The operating system's tracing facility and the call-frame-information
//! engine are consumed through narrow capability traits; everything that
//! decides, iterates, or transforms data is verified here.

pub mod demangle;
pub mod errors;
pub mod parse;
pub mod render;
pub mod sim;
pub mod symbols;
pub mod trace;
pub mod tracer;
pub mod unwind;
pub mod wait_status;
