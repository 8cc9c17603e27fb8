//! Process management core: listing a process-table snapshot (filter, CPU
//! ordering, cap) and the decisions around terminating a process by id.
//!
//! Reading the process table and delivering signals are done by the caller;
//! this library receives what was observed as plain values and decides what
//! to report.

use vstd::prelude::*;

pub mod listing;
pub mod ordering;
pub mod record;
pub mod termination;
pub mod text;
pub mod tools;

verus! {

/// Platform process identifier, as reported by the operating system.
pub type ProcessId = u32;

} // verus!
