//! The measurement arithmetic: memory delta in whole megabytes floored at
//! zero, duration capping, and assembly of one result record from the raw
//! samples taken around an operation.

use vstd::prelude::*;
use crate::report::{BenchmarkResult, Operation};

verus! {

pub const BYTES_PER_MB: u64 = 1048576;

/// Memory delta in whole megabytes.  A negative delta (the process appeared
/// to shrink, e.g. because the OS reclaimed pages while the operation ran)
/// is floored at zero: reporting a negative cost would be meaningless, so
/// this is deliberate policy, not lost information the harness needs.
pub open spec fn spec_memory_delta_mb(before: nat, after: nat) -> nat {
    if after >= before {
        (((after - before) as int) / (BYTES_PER_MB as int)) as nat
    } else {
        0
    }
}

/// Computes the clamped memory delta from two usage samples, in megabytes.
pub fn memory_delta_mb(before: u64, after: u64) -> (r: u64)
    ensures
        r == spec_memory_delta_mb(before as nat, after as nat),
{
    if after >= before {
        (after - before) / BYTES_PER_MB
    } else {
        0
    }
}

/// An elapsed time in milliseconds, capped at what the report field holds.
pub open spec fn spec_capped_millis(ms: nat) -> nat {
    if ms > u64::MAX as nat {
        u64::MAX as nat
    } else {
        ms
    }
}

/// Narrows a millisecond count to the report's field width, saturating.
pub fn capped_millis(ms: u128) -> (r: u64)
    ensures
        r == spec_capped_millis(ms as nat),
{
    if ms > u64::MAX as u128 {
        u64::MAX
    } else {
        ms as u64
    }
}

/// The record the measurement wrapper produces for one operation, from the
/// raw samples: elapsed milliseconds, the two memory-usage samples taken
/// before and after, and the row count of the materialized output where the
/// operation has one.
pub open spec fn spec_measured_result(
    op: Operation,
    duration_ms: u64,
    memory_before: u64,
    memory_after: u64,
    rows: Option<usize>,
) -> BenchmarkResult {
    BenchmarkResult {
        operation: op,
        duration_ms,
        memory_mb: spec_memory_delta_mb(memory_before as nat, memory_after as nat) as u64,
        rows_processed: rows,
    }
}

/// Normalizes one operation's raw samples into its result record.  Invoked
/// identically for every operation: no operation-specific branching.
pub fn measured_result(
    op: Operation,
    duration_ms: u64,
    memory_before: u64,
    memory_after: u64,
    rows: Option<usize>,
) -> (r: BenchmarkResult)
    ensures
        r == spec_measured_result(op, duration_ms, memory_before, memory_after, rows),
        r.memory_mb == spec_memory_delta_mb(memory_before as nat, memory_after as nat),
{
    let memory_mb = memory_delta_mb(memory_before, memory_after);
    BenchmarkResult { operation: op, duration_ms, memory_mb, rows_processed: rows }
}

} // verus!
