//! A small function-as-a-service runtime core: a handler capability, and the
//! per-request exchange that turns transport events into handler calls and
//! response bodies.

pub mod error;
pub mod handler;
pub mod pipeline;
pub mod trace;
