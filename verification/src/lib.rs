//! Core of a byte-stream relay: one source stream is fanned out, unmodified,
//! to every connected client.
//!
//! The verified library holds the shared client registry, the rule that fires
//! the readiness signal on the empty-to-non-empty transition, the pruning of
//! clients whose writes fail, and the state machine that drives one relay
//! session.  The surrounding process (sockets, child processes, threads)
//! performs the I/O and reports its outcomes back as plain values.

pub mod model;
pub mod registry;
pub mod relay;
