use bench_harness::driver::{RunState, StepOutcome};
use bench_harness::measure::{capped_millis, measured_result, memory_delta_mb};
use bench_harness::report::{results_ordered_check, rows_bound_ok, BenchmarkResult, Operation};

fn completed(duration_ms: u64, rows: Option<usize>) -> StepOutcome {
    StepOutcome::Completed { duration_ms, memory_before: 0, memory_after: 0, rows }
}

#[test]
fn schedule_runs_six_operations_in_fixed_order() {
    let mut st = RunState::new();
    let mut names: Vec<&'static str> = Vec::new();
    while let Some(op) = st.next_operation() {
        names.push(op.name());
        st.record(completed(1, Some(10)));
    }
    assert_eq!(
        names,
        vec!["read", "filter", "aggregation", "group_by", "sort", "complex_query"]
    );
    let results = st.into_results().expect("completed run yields results");
    assert_eq!(results.len(), 6);
    assert_eq!(results[0].operation, Operation::Read);
    assert_eq!(results[5].operation, Operation::ComplexQuery);
}

#[test]
fn operation_at_position_matches_names() {
    let expected = ["read", "filter", "aggregation", "group_by", "sort", "complex_query"];
    for (i, want) in expected.iter().enumerate() {
        assert_eq!(Operation::at_position(i).name(), *want);
    }
}

#[test]
fn memory_delta_clamps_negative_to_zero() {
    assert_eq!(memory_delta_mb(500_000_000, 100), 0);
    assert_eq!(memory_delta_mb(1, 0), 0);
}

#[test]
fn memory_delta_whole_megabytes() {
    assert_eq!(memory_delta_mb(0, 3 * 1_048_576 + 5), 3);
    assert_eq!(memory_delta_mb(1_048_576, 3 * 1_048_576), 2);
    assert_eq!(memory_delta_mb(7, 7), 0);
}

#[test]
fn capped_millis_saturates_at_field_width() {
    assert_eq!(capped_millis(123), 123);
    assert_eq!(capped_millis(u64::MAX as u128), u64::MAX);
    assert_eq!(capped_millis(u64::MAX as u128 + 5), u64::MAX);
}

#[test]
fn measured_result_normalizes_samples() {
    let r = measured_result(Operation::Sort, 42, 1_048_576, 3 * 1_048_576, Some(7));
    assert_eq!(r.operation, Operation::Sort);
    assert_eq!(r.duration_ms, 42);
    assert_eq!(r.memory_mb, 2);
    assert_eq!(r.rows_processed, Some(7));
}

#[test]
fn failed_operation_aborts_run() {
    let mut st = RunState::new();
    assert_eq!(st.next_operation(), Some(Operation::Read));
    st.record(StepOutcome::Failed);
    assert_eq!(st.next_operation(), None);
    assert!(st.into_results().is_none());
}

#[test]
fn failure_midway_keeps_results_from_becoming_a_report() {
    let mut st = RunState::new();
    st.record(completed(5, Some(1000)));
    st.record(completed(3, Some(400)));
    st.record(StepOutcome::Failed);
    assert_eq!(st.next_operation(), None);
    assert!(st.into_results().is_none());
}

#[test]
fn unfinished_run_yields_no_results() {
    let mut st = RunState::new();
    for _ in 0..5 {
        st.record(completed(1, None));
    }
    assert!(st.into_results().is_none());
}

fn six_results(read_rows: Option<usize>, filter_rows: Option<usize>) -> Vec<BenchmarkResult> {
    let mut st = RunState::new();
    st.record(completed(1, read_rows));
    st.record(completed(1, filter_rows));
    for _ in 0..4 {
        st.record(completed(1, Some(1)));
    }
    st.into_results().unwrap()
}

#[test]
fn results_ordered_check_accepts_only_complete_runs() {
    let results = six_results(Some(10), Some(5));
    assert!(results_ordered_check(&results));
    let mut truncated = results.clone();
    truncated.pop();
    assert!(!results_ordered_check(&truncated));
    let mut swapped = six_results(Some(10), Some(5));
    swapped.swap(0, 1);
    assert!(!results_ordered_check(&swapped));
}

#[test]
fn filter_row_count_bound_check() {
    assert!(rows_bound_ok(&six_results(Some(1000), Some(499))));
    assert!(rows_bound_ok(&six_results(Some(1000), Some(1000))));
    assert!(!rows_bound_ok(&six_results(Some(1000), Some(1001))));
    assert!(rows_bound_ok(&six_results(None, Some(5))));
    assert!(rows_bound_ok(&six_results(Some(5), None)));
}
