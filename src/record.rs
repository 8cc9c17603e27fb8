//! One row of a process-table snapshot.

use vstd::prelude::*;

use crate::ProcessId;

verus! {

/// One process as seen in a snapshot of the process table.
///
/// `cpu_key` carries the instantaneous CPU usage as an order-preserving
/// integer: a higher usage always has a larger key, and equal usages have
/// equal keys. `memory_bytes` is the resident memory, already clamped to
/// `MEMORY_BYTES_CAP`.
pub struct ProcessRecord {
    pub pid: ProcessId,
    pub name: String,
    pub cpu_key: u32,
    pub memory_bytes: u32,
}

impl ProcessRecord {
    /// Builds a record from what the process table reported; the raw memory
    /// byte count is clamped rather than allowed to overflow.
    pub fn new(pid: ProcessId, name: String, cpu_key: u32, raw_memory_bytes: u64) -> (r: ProcessRecord)
        ensures
            r.pid == pid,
            r.name == name,
            r.cpu_key == cpu_key,
            r.memory_bytes as u64 == clamped_bytes(raw_memory_bytes),
    {
        ProcessRecord { pid, name, cpu_key, memory_bytes: clamp_memory_bytes(raw_memory_bytes) }
    }
}

/// Largest resident-memory byte count a record carries; larger counts are
/// clamped to it.
pub const MEMORY_BYTES_CAP: u64 = 0xffff_ffff;

/// A resident-memory byte count after clamping to `MEMORY_BYTES_CAP`.
pub open spec fn clamped_bytes(bytes: u64) -> u64 {
    if bytes <= MEMORY_BYTES_CAP {
        bytes
    } else {
        MEMORY_BYTES_CAP
    }
}

/// Clamps a raw resident-memory byte count to the range a record holds.
pub fn clamp_memory_bytes(bytes: u64) -> (r: u32)
    ensures
        r as u64 == clamped_bytes(bytes),
{
    if bytes <= MEMORY_BYTES_CAP {
        bytes as u32
    } else {
        0xffff_ffffu32
    }
}

/// Clamping never decreases when the byte count grows, and never exceeds the cap.
pub proof fn lemma_clamp_monotonic(b1: u64, b2: u64)
    requires
        b1 <= b2,
    ensures
        clamped_bytes(b1) <= clamped_bytes(b2),
        clamped_bytes(b2) <= MEMORY_BYTES_CAP,
{
}

} // verus!
