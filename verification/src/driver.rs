//! The harness driver: a fixed schedule of six operations, run strictly in
//! order, with one result per completed operation and a fail-fast abort on
//! the first failure.  The caller performs each operation and its timing and
//! memory sampling outside this library and hands the raw outcome back; the
//! driver holds the schedule, the records, and the no-partial-report rule.

use vstd::prelude::*;
use crate::measure::{measured_result, spec_measured_result};
use crate::report::{op_order, results_ordered, BenchmarkResult, Operation};

verus! {

/// What the runner observed for one scheduled operation: either the raw
/// samples taken around a completed run, or a failure of the engine.
pub enum StepOutcome {
    Completed { duration_ms: u64, memory_before: u64, memory_after: u64, rows: Option<usize> },
    Failed,
}

/// The driver's state over one run.
pub struct RunState {
    results: Vec<BenchmarkResult>,
    aborted: bool,
}

impl RunState {
    /// Every recorded result belongs to the operation scheduled at its
    /// position.
    pub closed spec fn inv(&self) -> bool {
        &&& self.results@.len() <= 6
        &&& forall|i: int|
            0 <= i < self.results@.len() ==> (#[trigger] self.results@[i].operation)
                == op_order()[i]
    }

    pub closed spec fn spec_aborted(&self) -> bool {
        self.aborted
    }

    pub closed spec fn spec_results(&self) -> Seq<BenchmarkResult> {
        self.results@
    }

    /// A fresh run: nothing recorded, nothing failed.
    pub fn new() -> (s: Self)
        ensures
            s.inv(),
            !s.spec_aborted(),
            s.spec_results() == Seq::<BenchmarkResult>::empty(),
    {
        RunState { results: Vec::new(), aborted: false }
    }

    /// The operation to run next: the first one not yet recorded, in the
    /// fixed order; nothing after an abort or once all six are done.
    pub fn next_operation(&self) -> (r: Option<Operation>)
        ensures
            r == if !self.spec_aborted() && self.spec_results().len() < 6 {
                Some(op_order()[self.spec_results().len() as int])
            } else {
                None::<Operation>
            },
    {
        if self.aborted || self.results.len() >= 6 {
            None
        } else {
            Some(Operation::at_position(self.results.len()))
        }
    }

    /// Records one outcome for the operation that was due: a completion
    /// appends exactly the normalized result record, a failure aborts the
    /// run and keeps what was recorded from ever becoming a report.
    pub fn record(&mut self, outcome: StepOutcome)
        requires
            old(self).inv(),
            !old(self).spec_aborted(),
            old(self).spec_results().len() < 6,
        ensures
            final(self).inv(),
            outcome matches StepOutcome::Completed {
                duration_ms,
                memory_before,
                memory_after,
                rows,
            } ==> !final(self).spec_aborted() && final(self).spec_results()
                == old(self).spec_results().push(
                spec_measured_result(
                    op_order()[old(self).spec_results().len() as int],
                    duration_ms,
                    memory_before,
                    memory_after,
                    rows,
                ),
            ),
            outcome matches StepOutcome::Failed ==> final(self).spec_aborted()
                && final(self).spec_results() == old(self).spec_results(),
    {
        match outcome {
            StepOutcome::Completed { duration_ms, memory_before, memory_after, rows } => {
                let op = Operation::at_position(self.results.len());
                let r = measured_result(op, duration_ms, memory_before, memory_after, rows);
                self.results.push(r);
            },
            StepOutcome::Failed => {
                self.aborted = true;
            },
        }
    }

    /// The finished run's results: six records, one per operation, in the
    /// fixed order — and nothing at all after an abort or an unfinished
    /// run, so no partial report can ever be assembled from a driver.
    pub fn into_results(self) -> (r: Option<Vec<BenchmarkResult>>)
        requires
            self.inv(),
        ensures
            r is Some <==> (!self.spec_aborted() && self.spec_results().len() == 6),
            r matches Some(v) ==> v@ == self.spec_results() && results_ordered(v@),
    {
        if !self.aborted && self.results.len() == 6 {
            Some(self.results)
        } else {
            None
        }
    }
}

} // verus!
