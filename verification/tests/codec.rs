use bench_harness::codec::{emit_suite_report, parse_suite_text};
use bench_harness::driver::{RunState, StepOutcome};
use bench_harness::report::{BenchmarkResult, BenchmarkSuite, DatasetInfo, SystemInfo};

fn chars(s: &str) -> Vec<char> {
    s.chars().collect()
}

fn text(v: &[char]) -> String {
    v.iter().collect()
}

fn six_results() -> Vec<BenchmarkResult> {
    let mut st = RunState::new();
    let durations: [u64; 6] = [120, 35, 40, 55, 90, 150];
    let rows: [Option<usize>; 6] = [Some(1000), Some(499), Some(1), Some(26), Some(1000), None];
    for i in 0..6 {
        st.record(StepOutcome::Completed {
            duration_ms: durations[i],
            memory_before: 1_048_576,
            memory_after: 1_048_576 + (i as u64) * 1_048_576,
            rows: rows[i],
        });
    }
    st.into_results().unwrap()
}

fn sample_suite() -> BenchmarkSuite {
    BenchmarkSuite::assemble(
        chars("2024-01-01T00:00:00+00:00"),
        six_results(),
        SystemInfo { os: chars("Linux"), cpu_count: 8, total_memory_gb: 32 },
        DatasetInfo { source: chars("s3://datasets/timeseries/parquet"), rows_limit: Some(1000) },
    )
}

#[test]
fn report_round_trip_reproduces_all_fields() {
    let suite = sample_suite();
    let rendered = emit_suite_report(&suite);
    let back = parse_suite_text(&rendered).expect("a rendered report parses");
    assert_eq!(back, suite);
}

#[test]
fn round_trip_with_escapes_and_missing_counts() {
    let suite = BenchmarkSuite::assemble(
        chars("a\"b\\c"),
        six_results(),
        SystemInfo { os: chars("weird \"os\" \\ name"), cpu_count: 1, total_memory_gb: 0 },
        DatasetInfo { source: chars("C:\\data\\file.parquet"), rows_limit: None },
    );
    let rendered = emit_suite_report(&suite);
    let back = parse_suite_text(&rendered).expect("a rendered report parses");
    assert_eq!(back, suite);
}

#[test]
fn emitted_report_is_valid_json_with_stable_fields() {
    let suite = sample_suite();
    let rendered = text(&emit_suite_report(&suite));
    let v: serde_json::Value = serde_json::from_str(&rendered).expect("valid json");
    assert_eq!(v["timestamp"].as_str(), Some("2024-01-01T00:00:00+00:00"));
    let results = v["results"].as_array().expect("results array");
    assert_eq!(results.len(), 6);
    assert_eq!(results[0]["operation"].as_str(), Some("read"));
    assert_eq!(results[0]["rows_processed"].as_u64(), Some(1000));
    assert_eq!(results[0]["duration_ms"].as_u64(), Some(120));
    assert_eq!(results[0]["memory_mb"].as_u64(), Some(0));
    assert_eq!(results[1]["operation"].as_str(), Some("filter"));
    assert_eq!(results[2]["memory_mb"].as_u64(), Some(2));
    assert!(results[5]["rows_processed"].is_null());
    assert_eq!(v["system_info"]["os"].as_str(), Some("Linux"));
    assert_eq!(v["system_info"]["cpu_count"].as_u64(), Some(8));
    assert_eq!(v["system_info"]["total_memory_gb"].as_u64(), Some(32));
    assert_eq!(v["dataset_info"]["source"].as_str(), Some("s3://datasets/timeseries/parquet"));
    assert_eq!(v["dataset_info"]["rows_limit"].as_u64(), Some(1000));
}

#[test]
fn escaped_characters_survive_external_json_parsing() {
    let suite = BenchmarkSuite::assemble(
        chars("ts"),
        six_results(),
        SystemInfo { os: chars("quote \" and slash \\"), cpu_count: 2, total_memory_gb: 1 },
        DatasetInfo { source: chars("plain"), rows_limit: None },
    );
    let rendered = text(&emit_suite_report(&suite));
    let v: serde_json::Value = serde_json::from_str(&rendered).expect("valid json");
    assert_eq!(v["system_info"]["os"].as_str(), Some("quote \" and slash \\"));
    assert!(v["dataset_info"]["rows_limit"].is_null());
}

#[test]
fn exact_rendering_of_a_small_report() {
    let mut st = RunState::new();
    for _ in 0..6 {
        st.record(StepOutcome::Completed {
            duration_ms: 1,
            memory_before: 0,
            memory_after: 0,
            rows: None,
        });
    }
    let suite = BenchmarkSuite::assemble(
        chars("t"),
        st.into_results().unwrap(),
        SystemInfo { os: chars("os"), cpu_count: 1, total_memory_gb: 0 },
        DatasetInfo { source: chars("src"), rows_limit: None },
    );
    let rendered = text(&emit_suite_report(&suite));
    let record = |name: &str| {
        format!(
            "{{\"operation\":\"{}\",\"duration_ms\":1,\"memory_mb\":0,\"rows_processed\":null}}",
            name
        )
    };
    let expected = format!(
        "{{\"timestamp\":\"t\",\"results\":[{},{},{},{},{},{}],\"system_info\":{{\"os\":\"os\",\"cpu_count\":1,\"total_memory_gb\":0}},\"dataset_info\":{{\"source\":\"src\",\"rows_limit\":null}}}}",
        record("read"),
        record("filter"),
        record("aggregation"),
        record("group_by"),
        record("sort"),
        record("complex_query")
    );
    assert_eq!(rendered, expected);
}

#[test]
fn control_characters_round_trip_and_stay_valid_json() {
    let suite = BenchmarkSuite::assemble(
        chars("line1\nline2"),
        six_results(),
        SystemInfo { os: chars("os\twith\ncontrols\u{1}"), cpu_count: 4, total_memory_gb: 2 },
        DatasetInfo { source: chars("a\u{0}b"), rows_limit: None },
    );
    let rendered = emit_suite_report(&suite);
    let back = parse_suite_text(&rendered).expect("a rendered report parses");
    assert_eq!(back, suite);
    let v: serde_json::Value = serde_json::from_str(&text(&rendered)).expect("valid json");
    assert_eq!(v["timestamp"].as_str(), Some("line1\nline2"));
    assert_eq!(v["system_info"]["os"].as_str(), Some("os\twith\ncontrols\u{1}"));
    assert_eq!(v["dataset_info"]["source"].as_str(), Some("a\u{0}b"));
}

#[test]
fn parser_rejects_malformed_text() {
    assert!(parse_suite_text(&chars("")).is_none());
    assert!(parse_suite_text(&chars("nonsense")).is_none());
    assert!(parse_suite_text(&chars("{\"timestamp\":\"t\"}")).is_none());
}

#[test]
fn parser_rejects_trailing_text() {
    let suite = sample_suite();
    let mut rendered = emit_suite_report(&suite);
    assert!(parse_suite_text(&rendered).is_some());
    rendered.push(' ');
    assert!(parse_suite_text(&rendered).is_none());
}
