//! Data model of a benchmark run: the six operations, one result record per
//! operation, host and dataset metadata, and the assembled report.

use vstd::prelude::*;

verus! {

/// The six benchmark operations, listed in their fixed execution order.
#[derive(Clone, Copy, PartialEq, Eq, Structural, Debug)]
pub enum Operation {
    Read,
    Filter,
    Aggregation,
    GroupBy,
    Sort,
    ComplexQuery,
}

/// The name under which an operation appears in the report.
pub open spec fn op_name(op: Operation) -> Seq<char> {
    match op {
        Operation::Read => "read"@,
        Operation::Filter => "filter"@,
        Operation::Aggregation => "aggregation"@,
        Operation::GroupBy => "group_by"@,
        Operation::Sort => "sort"@,
        Operation::ComplexQuery => "complex_query"@,
    }
}

/// The fixed order in which the six operations run.
pub open spec fn op_order() -> Seq<Operation> {
    seq![
        Operation::Read,
        Operation::Filter,
        Operation::Aggregation,
        Operation::GroupBy,
        Operation::Sort,
        Operation::ComplexQuery,
    ]
}

impl Operation {
    /// The operation's report name.
    pub fn name(&self) -> (r: &'static str)
        ensures
            r@ == op_name(*self),
    {
        match self {
            Operation::Read => "read",
            Operation::Filter => "filter",
            Operation::Aggregation => "aggregation",
            Operation::GroupBy => "group_by",
            Operation::Sort => "sort",
            Operation::ComplexQuery => "complex_query",
        }
    }

    /// The operation that runs at position `i` of the schedule.
    pub fn at_position(i: usize) -> (r: Operation)
        requires
            i < 6,
        ensures
            r == op_order()[i as int],
    {
        if i == 0 {
            Operation::Read
        } else if i == 1 {
            Operation::Filter
        } else if i == 2 {
            Operation::Aggregation
        } else if i == 3 {
            Operation::GroupBy
        } else if i == 4 {
            Operation::Sort
        } else {
            Operation::ComplexQuery
        }
    }
}

/// The measured outcome of one operation.  Immutable once created; one per
/// operation per run.
#[derive(Clone, Copy, PartialEq, Eq, Debug)]
pub struct BenchmarkResult {
    pub operation: Operation,
    pub duration_ms: u64,
    pub memory_mb: u64,
    pub rows_processed: Option<usize>,
}

/// Host snapshot taken once at run start.
#[derive(Clone, PartialEq, Eq, Debug)]
pub struct SystemInfo {
    pub os: Vec<char>,
    pub cpu_count: usize,
    pub total_memory_gb: u64,
}

#[verifier::ext_equal]
pub struct SystemInfoView {
    pub os: Seq<char>,
    pub cpu_count: usize,
    pub total_memory_gb: u64,
}

impl View for SystemInfo {
    type V = SystemInfoView;

    open spec fn view(&self) -> SystemInfoView {
        SystemInfoView { os: self.os@, cpu_count: self.cpu_count, total_memory_gb: self.total_memory_gb }
    }
}

/// Where the dataset came from, and the optional row limit it was read with.
#[derive(Clone, PartialEq, Eq, Debug)]
pub struct DatasetInfo {
    pub source: Vec<char>,
    pub rows_limit: Option<usize>,
}

#[verifier::ext_equal]
pub struct DatasetInfoView {
    pub source: Seq<char>,
    pub rows_limit: Option<usize>,
}

impl View for DatasetInfo {
    type V = DatasetInfoView;

    open spec fn view(&self) -> DatasetInfoView {
        DatasetInfoView { source: self.source@, rows_limit: self.rows_limit }
    }
}

/// The assembled report: timestamp, the six results in execution order, and
/// the two metadata snapshots.
#[derive(Clone, PartialEq, Eq, Debug)]
pub struct BenchmarkSuite {
    pub timestamp: Vec<char>,
    pub results: Vec<BenchmarkResult>,
    pub system_info: SystemInfo,
    pub dataset_info: DatasetInfo,
}

#[verifier::ext_equal]
pub struct BenchmarkSuiteView {
    pub timestamp: Seq<char>,
    pub results: Seq<BenchmarkResult>,
    pub system_info: SystemInfoView,
    pub dataset_info: DatasetInfoView,
}

impl View for BenchmarkSuite {
    type V = BenchmarkSuiteView;

    open spec fn view(&self) -> BenchmarkSuiteView {
        BenchmarkSuiteView {
            timestamp: self.timestamp@,
            results: self.results@,
            system_info: self.system_info@,
            dataset_info: self.dataset_info@,
        }
    }
}

/// The result sequence is complete: exactly six entries, one per operation,
/// in the fixed execution order.
pub open spec fn results_ordered(rs: Seq<BenchmarkResult>) -> bool {
    &&& rs.len() == 6
    &&& forall|i: int| 0 <= i < 6 ==> (#[trigger] rs[i].operation) == op_order()[i]
}

pub open spec fn system_info_wf(v: SystemInfoView) -> bool {
    v.cpu_count >= 1
}

pub open spec fn dataset_info_wf(v: DatasetInfoView) -> bool {
    v.rows_limit matches Some(n) ==> n >= 1
}

/// A well-formed report, as the harness produces it.
pub open spec fn suite_wf(v: BenchmarkSuiteView) -> bool {
    &&& results_ordered(v.results)
    &&& system_info_wf(v.system_info)
    &&& dataset_info_wf(v.dataset_info)
}

/// Filtering cannot grow the dataset: where the first two records carry row
/// counts, the filter operation's count stays within the read operation's.
pub open spec fn spec_rows_bound_ok(rs: Seq<BenchmarkResult>) -> bool {
    match (rs[0].rows_processed, rs[1].rows_processed) {
        (Some(read_rows), Some(filter_rows)) => filter_rows <= read_rows,
        _ => true,
    }
}

/// Checks a finished run's results for the filter-within-read row bound; a
/// run whose engine reported more filtered rows than read rows is suspect.
pub fn rows_bound_ok(results: &Vec<BenchmarkResult>) -> (b: bool)
    requires
        results@.len() == 6,
    ensures
        b == spec_rows_bound_ok(results@),
{
    match (results[0].rows_processed, results[1].rows_processed) {
        (Some(read_rows), Some(filter_rows)) => filter_rows <= read_rows,
        _ => true,
    }
}

/// Decides whether a result sequence is the complete, correctly ordered
/// outcome of a run; lets an unverified caller test `assemble`'s demand.
pub fn results_ordered_check(results: &Vec<BenchmarkResult>) -> (b: bool)
    ensures
        b == results_ordered(results@),
{
    if results.len() != 6 {
        return false;
    }
    let mut i: usize = 0;
    while i < 6
        invariant
            i <= 6,
            results@.len() == 6,
            forall|k: int| 0 <= k < i ==> (#[trigger] results@[k].operation) == op_order()[k],
        decreases 6 - i,
    {
        if !(results[i].operation == Operation::at_position(i)) {
            return false;
        }
        i = i + 1;
    }
    true
}

impl BenchmarkSuite {
    /// Assembles the final report from the ordered results and the two
    /// snapshots.  The caller supplies the timestamp text, an ISO-8601
    /// instant in the report's intended use; the library carries it as
    /// opaque text and does not check its shape.
    pub fn assemble(
        timestamp: Vec<char>,
        results: Vec<BenchmarkResult>,
        system_info: SystemInfo,
        dataset_info: DatasetInfo,
    ) -> (s: BenchmarkSuite)
        requires
            results_ordered(results@),
            system_info_wf(system_info@),
            dataset_info_wf(dataset_info@),
        ensures
            s@.timestamp == timestamp@,
            s@.results == results@,
            s@.system_info == system_info@,
            s@.dataset_info == dataset_info@,
            suite_wf(s@),
    {
        BenchmarkSuite { timestamp, results, system_info, dataset_info }
    }
}

} // verus!
