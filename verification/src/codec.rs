//! The report's text form: a single structured document with stable field
//! names, written compactly, and a parser for reading such a document back.
//! The encoding is proved lossless: parsing a rendered report yields the
//! report, so serialized reports can be compared across runs.

use vstd::prelude::*;
use crate::digits::{
    decimal_digits, is_digit_char, lemma_decimal_digits_shape, lemma_parse_num_framed, num_framed,
    parse_u64_field, push_decimal, spec_parse_u64,
};
use crate::escape::{
    escape_text, lemma_parse_str_framed, parse_string_field, push_escaped, push_str_chars,
    spec_parse_string, str_chars, str_framed,
};
use crate::report::{
    BenchmarkResult, BenchmarkSuite, BenchmarkSuiteView, DatasetInfo, DatasetInfoView, Operation,
    SystemInfo, SystemInfoView,
};

verus! {

/// An operation's report name together with the quote that closes its text
/// field.
pub open spec fn opq_name(op: Operation) -> Seq<char> {
    match op {
        Operation::Read => "read\""@,
        Operation::Filter => "filter\""@,
        Operation::Aggregation => "aggregation\""@,
        Operation::GroupBy => "group_by\""@,
        Operation::Sort => "sort\""@,
        Operation::ComplexQuery => "complex_query\""@,
    }
}

/// An optional row count: a decimal number, or the word for "absent".
pub open spec fn rows_enc(o: Option<usize>) -> Seq<char> {
    match o {
        None => "null"@,
        Some(n) => decimal_digits(n as nat),
    }
}

/// A text field's characters, escaped, with the closing quote.
pub open spec fn text_enc(s: Seq<char>) -> Seq<char> {
    escape_text(s) + seq!['"']
}

/// One result record's text form.
pub open spec fn emit_result(r: BenchmarkResult) -> Seq<char> {
    "{\"operation\":\""@ + (opq_name(r.operation) + (",\"duration_ms\":"@ + (decimal_digits(
        r.duration_ms as nat,
    ) + (",\"memory_mb\":"@ + (decimal_digits(r.memory_mb as nat) + (",\"rows_processed\":"@ + (
    rows_enc(r.rows_processed) + "}"@)))))))
}

/// The host snapshot's text form.
pub open spec fn emit_system(y: SystemInfoView) -> Seq<char> {
    "{\"os\":\""@ + (text_enc(y.os) + (",\"cpu_count\":"@ + (decimal_digits(y.cpu_count as nat) + (
    ",\"total_memory_gb\":"@ + (decimal_digits(y.total_memory_gb as nat) + "}"@)))))
}

/// The dataset metadata's text form.
pub open spec fn emit_dataset(d: DatasetInfoView) -> Seq<char> {
    "{\"source\":\""@ + (text_enc(d.source) + (",\"rows_limit\":"@ + (rows_enc(d.rows_limit)
        + "}"@)))
}

/// The records from position `i` on, separated by commas.
pub open spec fn emit_results_from(rs: Seq<BenchmarkResult>, i: int) -> Seq<char>
    decreases rs.len() - i,
{
    if i < 0 || i >= rs.len() {
        Seq::<char>::empty()
    } else if i == rs.len() - 1 {
        emit_result(rs[i])
    } else {
        emit_result(rs[i]) + (","@ + emit_results_from(rs, i + 1))
    }
}

/// The bracketed list of result records.
pub open spec fn emit_results6(rs: Seq<BenchmarkResult>) -> Seq<char> {
    "["@ + (emit_results_from(rs, 0) + "]"@)
}

/// The whole report's text form: the timestamp, the six results in order,
/// and the two metadata objects.
pub open spec fn emit_suite(v: BenchmarkSuiteView) -> Seq<char> {
    "{\"timestamp\":\""@ + (text_enc(v.timestamp) + (",\"results\":"@ + (emit_results6(v.results)
        + (",\"system_info\":"@ + (emit_system(v.system_info) + (",\"dataset_info\":"@ + (
    emit_dataset(v.dataset_info) + "}"@)))))))
}

/// Appends an operation's quoted name.
fn push_op_quoted(out: &mut Vec<char>, op: Operation)
    ensures
        final(out)@ == old(out)@ + opq_name(op),
{
    match op {
        Operation::Read => push_str_chars(out, "read\""),
        Operation::Filter => push_str_chars(out, "filter\""),
        Operation::Aggregation => push_str_chars(out, "aggregation\""),
        Operation::GroupBy => push_str_chars(out, "group_by\""),
        Operation::Sort => push_str_chars(out, "sort\""),
        Operation::ComplexQuery => push_str_chars(out, "complex_query\""),
    }
}

/// Appends an optional row count.
fn push_rows(out: &mut Vec<char>, o: Option<usize>)
    ensures
        final(out)@ == old(out)@ + rows_enc(o),
{
    match o {
        None => push_str_chars(out, "null"),
        Some(n) => push_decimal(out, n as u64),
    }
}

/// Appends a text field with its closing quote.
#[verifier::rlimit(100)]
fn push_text(out: &mut Vec<char>, s: &Vec<char>)
    ensures
        final(out)@ == old(out)@ + text_enc(s@),
{
    let ghost base = out@;
    push_escaped(out, s);
    out.push('"');
    assert(out@ =~= base + text_enc(s@));
}

/// Appends one result record.
#[verifier::rlimit(100)]
fn push_result(out: &mut Vec<char>, r: &BenchmarkResult)
    ensures
        final(out)@ == old(out)@ + emit_result(*r),
{
    let ghost base = out@;
    push_str_chars(out, "{\"operation\":\"");
    push_op_quoted(out, r.operation);
    push_str_chars(out, ",\"duration_ms\":");
    push_decimal(out, r.duration_ms);
    push_str_chars(out, ",\"memory_mb\":");
    push_decimal(out, r.memory_mb);
    push_str_chars(out, ",\"rows_processed\":");
    push_rows(out, r.rows_processed);
    push_str_chars(out, "}");
    assert(out@ =~= base + emit_result(*r));
}

/// Appends the host snapshot.
#[verifier::rlimit(100)]
fn push_system(out: &mut Vec<char>, y: &SystemInfo)
    ensures
        final(out)@ == old(out)@ + emit_system(y@),
{
    let ghost base = out@;
    push_str_chars(out, "{\"os\":\"");
    push_text(out, &y.os);
    push_str_chars(out, ",\"cpu_count\":");
    push_decimal(out, y.cpu_count as u64);
    push_str_chars(out, ",\"total_memory_gb\":");
    push_decimal(out, y.total_memory_gb);
    push_str_chars(out, "}");
    assert(out@ =~= base + emit_system(y@));
}

/// Appends the dataset metadata.
#[verifier::rlimit(100)]
fn push_dataset(out: &mut Vec<char>, d: &DatasetInfo)
    ensures
        final(out)@ == old(out)@ + emit_dataset(d@),
{
    let ghost base = out@;
    push_str_chars(out, "{\"source\":\"");
    push_text(out, &d.source);
    push_str_chars(out, ",\"rows_limit\":");
    push_rows(out, d.rows_limit);
    push_str_chars(out, "}");
    assert(out@ =~= base + emit_dataset(d@));
}

/// Appends the records from position `i` on, separated by commas.
#[verifier::rlimit(100)]
fn push_results_from(out: &mut Vec<char>, rs: &Vec<BenchmarkResult>, i: usize)
    ensures
        final(out)@ == old(out)@ + emit_results_from(rs@, i as int),
    decreases rs@.len() - i,
{
    let ghost base = out@;
    if i < rs.len() {
        let r = rs[i];
        push_result(out, &r);
        if i + 1 < rs.len() {
            push_str_chars(out, ",");
            push_results_from(out, rs, i + 1);
            assert(out@ =~= base + emit_results_from(rs@, i as int));
        }
    }
}

/// Appends the bracketed list of result records.
#[verifier::rlimit(100)]
fn push_results6(out: &mut Vec<char>, rs: &Vec<BenchmarkResult>)
    ensures
        final(out)@ == old(out)@ + emit_results6(rs@),
{
    let ghost base = out@;
    push_str_chars(out, "[");
    push_results_from(out, rs, 0);
    push_str_chars(out, "]");
    assert(out@ =~= base + emit_results6(rs@));
}

/// Renders the whole report.
pub fn emit_suite_report(s: &BenchmarkSuite) -> (out: Vec<char>)
    requires
        s@.results.len() == 6,
    ensures
        out@ == emit_suite(s@),
{
    let mut out: Vec<char> = Vec::new();
    push_str_chars(&mut out, "{\"timestamp\":\"");
    push_text(&mut out, &s.timestamp);
    push_str_chars(&mut out, ",\"results\":");
    push_results6(&mut out, &s.results);
    push_str_chars(&mut out, ",\"system_info\":");
    push_system(&mut out, &s.system_info);
    push_str_chars(&mut out, ",\"dataset_info\":");
    push_dataset(&mut out, &s.dataset_info);
    push_str_chars(&mut out, "}");
    assert(out@ =~= emit_suite(s@));
    out
}

/// A literal stands at `p` in `inp`; consumes it.
pub open spec fn spec_expect_lit(inp: Seq<char>, p: int, lit: Seq<char>) -> Option<int> {
    if 0 <= p && p + lit.len() <= inp.len() && inp.subrange(p, p + lit.len()) == lit {
        Some(p + lit.len())
    } else {
        None
    }
}

/// Reads an operation name with its closing quote.
pub open spec fn spec_parse_op(inp: Seq<char>, p: int) -> Option<(Operation, int)> {
    if spec_expect_lit(inp, p, "read\""@) is Some {
        Some((Operation::Read, p + "read\""@.len()))
    } else if spec_expect_lit(inp, p, "filter\""@) is Some {
        Some((Operation::Filter, p + "filter\""@.len()))
    } else if spec_expect_lit(inp, p, "aggregation\""@) is Some {
        Some((Operation::Aggregation, p + "aggregation\""@.len()))
    } else if spec_expect_lit(inp, p, "group_by\""@) is Some {
        Some((Operation::GroupBy, p + "group_by\""@.len()))
    } else if spec_expect_lit(inp, p, "sort\""@) is Some {
        Some((Operation::Sort, p + "sort\""@.len()))
    } else if spec_expect_lit(inp, p, "complex_query\""@) is Some {
        Some((Operation::ComplexQuery, p + "complex_query\""@.len()))
    } else {
        None
    }
}

/// Reads an optional row count.
pub open spec fn spec_parse_rows(inp: Seq<char>, p: int) -> Option<(Option<usize>, int)> {
    if 0 <= p < inp.len() && inp[p] == 'n' {
        match spec_expect_lit(inp, p, "null"@) {
            Some(q) => Some((None, q)),
            None => None,
        }
    } else {
        match spec_parse_u64(inp, p) {
            Some((v, q)) => if v <= usize::MAX as u64 {
                Some((Some(v as usize), q))
            } else {
                None
            },
            None => None,
        }
    }
}

/// Reads one result record.
pub open spec fn spec_parse_result(inp: Seq<char>, p: int) -> Option<(BenchmarkResult, int)> {
    match spec_expect_lit(inp, p, "{\"operation\":\""@) {
        None => None,
        Some(q1) => match spec_parse_op(inp, q1) {
            None => None,
            Some((op, q2)) => match spec_expect_lit(inp, q2, ",\"duration_ms\":"@) {
                None => None,
                Some(q3) => match spec_parse_u64(inp, q3) {
                    None => None,
                    Some((dur, q4)) => match spec_expect_lit(inp, q4, ",\"memory_mb\":"@) {
                        None => None,
                        Some(q5) => match spec_parse_u64(inp, q5) {
                            None => None,
                            Some((mem, q6)) => match spec_expect_lit(
                                inp,
                                q6,
                                ",\"rows_processed\":"@,
                            ) {
                                None => None,
                                Some(q7) => match spec_parse_rows(inp, q7) {
                                    None => None,
                                    Some((rows, q8)) => match spec_expect_lit(inp, q8, "}"@) {
                                        None => None,
                                        Some(q9) => Some(
                                            (
                                                BenchmarkResult {
                                                    operation: op,
                                                    duration_ms: dur,
                                                    memory_mb: mem,
                                                    rows_processed: rows,
                                                },
                                                q9,
                                            ),
                                        ),
                                    },
                                },
                            },
                        },
                    },
                },
            },
        },
    }
}

/// Reads `n` result records separated by commas.
pub open spec fn spec_parse_results_n(inp: Seq<char>, p: int, n: nat) -> Option<
    (Seq<BenchmarkResult>, int),
>
    decreases n,
{
    if n == 0 {
        Some((Seq::<BenchmarkResult>::empty(), p))
    } else if n == 1 {
        match spec_parse_result(inp, p) {
            Some((r, q)) => Some((seq![r], q)),
            None => None,
        }
    } else {
        match spec_parse_result(inp, p) {
            Some((r, q)) => match spec_expect_lit(inp, q, ","@) {
                Some(q2) => match spec_parse_results_n(inp, q2, (n - 1) as nat) {
                    Some((rs, q3)) => Some((seq![r] + rs, q3)),
                    None => None,
                },
                None => None,
            },
            None => None,
        }
    }
}

/// Reads the bracketed list of six result records.
pub open spec fn spec_parse_results6(inp: Seq<char>, p: int) -> Option<
    (Seq<BenchmarkResult>, int),
> {
    match spec_expect_lit(inp, p, "["@) {
        None => None,
        Some(q1) => match spec_parse_results_n(inp, q1, 6) {
            None => None,
            Some((rs, q2)) => match spec_expect_lit(inp, q2, "]"@) {
                None => None,
                Some(q3) => Some((rs, q3)),
            },
        },
    }
}

/// Reads the host snapshot.
pub open spec fn spec_parse_system(inp: Seq<char>, p: int) -> Option<(SystemInfoView, int)> {
    match spec_expect_lit(inp, p, "{\"os\":\""@) {
        None => None,
        Some(q1) => match spec_parse_string(inp, q1) {
            None => None,
            Some((os, q2)) => match spec_expect_lit(inp, q2, ",\"cpu_count\":"@) {
                None => None,
                Some(q3) => match spec_parse_u64(inp, q3) {
                    None => None,
                    Some((cpu, q4)) => if cpu <= usize::MAX as u64 {
                        match spec_expect_lit(inp, q4, ",\"total_memory_gb\":"@) {
                            None => None,
                            Some(q5) => match spec_parse_u64(inp, q5) {
                                None => None,
                                Some((tm, q6)) => match spec_expect_lit(inp, q6, "}"@) {
                                    None => None,
                                    Some(q7) => Some(
                                        (
                                            SystemInfoView {
                                                os,
                                                cpu_count: cpu as usize,
                                                total_memory_gb: tm,
                                            },
                                            q7,
                                        ),
                                    ),
                                },
                            },
                        }
                    } else {
                        None
                    },
                },
            },
        },
    }
}

/// Reads the dataset metadata.
pub open spec fn spec_parse_dataset(inp: Seq<char>, p: int) -> Option<(DatasetInfoView, int)> {
    match spec_expect_lit(inp, p, "{\"source\":\""@) {
        None => None,
        Some(q1) => match spec_parse_string(inp, q1) {
            None => None,
            Some((src, q2)) => match spec_expect_lit(inp, q2, ",\"rows_limit\":"@) {
                None => None,
                Some(q3) => match spec_parse_rows(inp, q3) {
                    None => None,
                    Some((lim, q4)) => match spec_expect_lit(inp, q4, "}"@) {
                        None => None,
                        Some(q5) => Some(
                            (DatasetInfoView { source: src, rows_limit: lim }, q5),
                        ),
                    },
                },
            },
        },
    }
}

/// Reads a whole report; the document must end with it.
pub open spec fn spec_parse_suite(inp: Seq<char>) -> Option<BenchmarkSuiteView> {
    match spec_expect_lit(inp, 0, "{\"timestamp\":\""@) {
        None => None,
        Some(q1) => match spec_parse_string(inp, q1) {
            None => None,
            Some((ts, q2)) => match spec_expect_lit(inp, q2, ",\"results\":"@) {
                None => None,
                Some(q3) => match spec_parse_results6(inp, q3) {
                    None => None,
                    Some((rs, q4)) => match spec_expect_lit(inp, q4, ",\"system_info\":"@) {
                        None => None,
                        Some(q5) => match spec_parse_system(inp, q5) {
                            None => None,
                            Some((y, q6)) => match spec_expect_lit(inp, q6, ",\"dataset_info\":"@) {
                                None => None,
                                Some(q7) => match spec_parse_dataset(inp, q7) {
                                    None => None,
                                    Some((d, q8)) => match spec_expect_lit(inp, q8, "}"@) {
                                        None => None,
                                        Some(q9) => if q9 == inp.len() {
                                            Some(
                                                BenchmarkSuiteView {
                                                    timestamp: ts,
                                                    results: rs,
                                                    system_info: y,
                                                    dataset_info: d,
                                                },
                                            )
                                        } else {
                                            None
                                        },
                                    },
                                },
                            },
                        },
                    },
                },
            },
        },
    }
}

/// Exec twin of `spec_expect_lit`.
fn expect_lit(input: &Vec<char>, p: usize, lit: &Vec<char>) -> (r: Option<usize>)
    ensures
        match spec_expect_lit(input@, p as int, lit@) {
            Some(q) => r matches Some(x) && x as int == q,
            None => r is None,
        },
{
    let n = input.len();
    let m = lit.len();
    if p > n || m > n - p {
        return None;
    }
    let mut j: usize = 0;
    while j < m
        invariant
            n == input@.len(),
            m == lit@.len(),
            p + m <= n,
            j <= m,
            forall|k: int| 0 <= k < j ==> input@[p + k] == lit@[k],
        decreases m - j,
    {
        if input[p + j] != lit[j] {
            proof {
                if spec_expect_lit(input@, p as int, lit@) is Some {
                    assert(input@.subrange(p as int, p + lit@.len())[j as int] == input@[p + j]);
                }
            }
            return None;
        }
        j = j + 1;
    }
    proof {
        assert(input@.subrange(p as int, p + lit@.len()) =~= lit@);
    }
    Some(p + lit.len())
}

/// Exec twin of `spec_parse_op`.
fn parse_op_field(input: &Vec<char>, p: usize) -> (r: Option<(Operation, usize)>)
    ensures
        match spec_parse_op(input@, p as int) {
            Some((op, q)) => r matches Some(x) && x.0 == op && x.1 as int == q,
            None => r is None,
        },
{
    let l0 = str_chars("read\"");
    if let Some(q) = expect_lit(input, p, &l0) {
        return Some((Operation::Read, q));
    }
    let l1 = str_chars("filter\"");
    if let Some(q) = expect_lit(input, p, &l1) {
        return Some((Operation::Filter, q));
    }
    let l2 = str_chars("aggregation\"");
    if let Some(q) = expect_lit(input, p, &l2) {
        return Some((Operation::Aggregation, q));
    }
    let l3 = str_chars("group_by\"");
    if let Some(q) = expect_lit(input, p, &l3) {
        return Some((Operation::GroupBy, q));
    }
    let l4 = str_chars("sort\"");
    if let Some(q) = expect_lit(input, p, &l4) {
        return Some((Operation::Sort, q));
    }
    let l5 = str_chars("complex_query\"");
    if let Some(q) = expect_lit(input, p, &l5) {
        return Some((Operation::ComplexQuery, q));
    }
    None
}

/// Exec twin of `spec_parse_rows`.
fn parse_rows_field(input: &Vec<char>, p: usize) -> (r: Option<(Option<usize>, usize)>)
    ensures
        match spec_parse_rows(input@, p as int) {
            Some((o, q)) => r matches Some(x) && x.0 == o && x.1 as int == q,
            None => r is None,
        },
{
    if p < input.len() && input[p] == 'n' {
        let l = str_chars("null");
        match expect_lit(input, p, &l) {
            Some(q) => Some((None, q)),
            None => None,
        }
    } else {
        match parse_u64_field(input, p) {
            Some((v, q)) => {
                if v <= usize::MAX as u64 {
                    Some((Some(v as usize), q))
                } else {
                    None
                }
            },
            None => None,
        }
    }
}

/// Exec twin of `spec_parse_result`.
fn parse_result_field(input: &Vec<char>, p: usize) -> (r: Option<(BenchmarkResult, usize)>)
    ensures
        match spec_parse_result(input@, p as int) {
            Some((rec, q)) => r matches Some(x) && x.0 == rec && x.1 as int == q,
            None => r is None,
        },
{
    let l1 = str_chars("{\"operation\":\"");
    let q1 = match expect_lit(input, p, &l1) {
        Some(q) => q,
        None => {
            return None;
        },
    };
    let (op, q2) = match parse_op_field(input, q1) {
        Some(x) => x,
        None => {
            return None;
        },
    };
    let l2 = str_chars(",\"duration_ms\":");
    let q3 = match expect_lit(input, q2, &l2) {
        Some(q) => q,
        None => {
            return None;
        },
    };
    let (dur, q4) = match parse_u64_field(input, q3) {
        Some(x) => x,
        None => {
            return None;
        },
    };
    let l3 = str_chars(",\"memory_mb\":");
    let q5 = match expect_lit(input, q4, &l3) {
        Some(q) => q,
        None => {
            return None;
        },
    };
    let (mem, q6) = match parse_u64_field(input, q5) {
        Some(x) => x,
        None => {
            return None;
        },
    };
    let l4 = str_chars(",\"rows_processed\":");
    let q7 = match expect_lit(input, q6, &l4) {
        Some(q) => q,
        None => {
            return None;
        },
    };
    let (rows, q8) = match parse_rows_field(input, q7) {
        Some(x) => x,
        None => {
            return None;
        },
    };
    let l5 = str_chars("}");
    let q9 = match expect_lit(input, q8, &l5) {
        Some(q) => q,
        None => {
            return None;
        },
    };
    Some((BenchmarkResult { operation: op, duration_ms: dur, memory_mb: mem, rows_processed: rows }, q9))
}

/// Exec twin of `spec_parse_results_n`.
fn parse_results_n(input: &Vec<char>, p: usize, n: usize) -> (r: Option<
    (Vec<BenchmarkResult>, usize),
>)
    ensures
        match spec_parse_results_n(input@, p as int, n as nat) {
            Some((rs, q)) => r matches Some(x) && x.0@ == rs && x.1 as int == q,
            None => r is None,
        },
    decreases n,
{
    if n == 0 {
        Some((Vec::new(), p))
    } else if n == 1 {
        match parse_result_field(input, p) {
            Some((rec, q)) => {
                let mut v: Vec<BenchmarkResult> = Vec::new();
                v.push(rec);
                assert(v@ =~= seq![rec]);
                Some((v, q))
            },
            None => None,
        }
    } else {
        match parse_result_field(input, p) {
            Some((rec, q)) => {
                let l = str_chars(",");
                match expect_lit(input, q, &l) {
                    Some(q2) => match parse_results_n(input, q2, n - 1) {
                        Some((v0, q3)) => {
                            let ghost tailv = v0@;
                            let mut v = v0;
                            v.insert(0, rec);
                            assert(v@ =~= seq![rec] + tailv);
                            Some((v, q3))
                        },
                        None => None,
                    },
                    None => None,
                }
            },
            None => None,
        }
    }
}

/// Exec twin of `spec_parse_results6`.
fn parse_results6_field(input: &Vec<char>, p: usize) -> (r: Option<(Vec<BenchmarkResult>, usize)>)
    ensures
        match spec_parse_results6(input@, p as int) {
            Some((rs, q)) => r matches Some(x) && x.0@ == rs && x.1 as int == q,
            None => r is None,
        },
{
    let lb = str_chars("[");
    let q1 = match expect_lit(input, p, &lb) {
        Some(q) => q,
        None => {
            return None;
        },
    };
    let (v, q2) = match parse_results_n(input, q1, 6) {
        Some(x) => x,
        None => {
            return None;
        },
    };
    let rb = str_chars("]");
    match expect_lit(input, q2, &rb) {
        Some(q3) => Some((v, q3)),
        None => None,
    }
}

/// Exec twin of `spec_parse_system`.
fn parse_system_field(input: &Vec<char>, p: usize) -> (r: Option<(SystemInfo, usize)>)
    ensures
        match spec_parse_system(input@, p as int) {
            Some((y, q)) => r matches Some(x) && x.0@ == y && x.1 as int == q,
            None => r is None,
        },
{
    let l1 = str_chars("{\"os\":\"");
    let q1 = match expect_lit(input, p, &l1) {
        Some(q) => q,
        None => {
            return None;
        },
    };
    let (os, q2) = match parse_string_field(input, q1) {
        Some(x) => x,
        None => {
            return None;
        },
    };
    let l2 = str_chars(",\"cpu_count\":");
    let q3 = match expect_lit(input, q2, &l2) {
        Some(q) => q,
        None => {
            return None;
        },
    };
    let (cpu, q4) = match parse_u64_field(input, q3) {
        Some(x) => x,
        None => {
            return None;
        },
    };
    if !(cpu <= usize::MAX as u64) {
        return None;
    }
    let l3 = str_chars(",\"total_memory_gb\":");
    let q5 = match expect_lit(input, q4, &l3) {
        Some(q) => q,
        None => {
            return None;
        },
    };
    let (tm, q6) = match parse_u64_field(input, q5) {
        Some(x) => x,
        None => {
            return None;
        },
    };
    let l4 = str_chars("}");
    match expect_lit(input, q6, &l4) {
        Some(q7) => Some(
            (SystemInfo { os, cpu_count: cpu as usize, total_memory_gb: tm }, q7),
        ),
        None => None,
    }
}

/// Exec twin of `spec_parse_dataset`.
fn parse_dataset_field(input: &Vec<char>, p: usize) -> (r: Option<(DatasetInfo, usize)>)
    ensures
        match spec_parse_dataset(input@, p as int) {
            Some((d, q)) => r matches Some(x) && x.0@ == d && x.1 as int == q,
            None => r is None,
        },
{
    let l1 = str_chars("{\"source\":\"");
    let q1 = match expect_lit(input, p, &l1) {
        Some(q) => q,
        None => {
            return None;
        },
    };
    let (src, q2) = match parse_string_field(input, q1) {
        Some(x) => x,
        None => {
            return None;
        },
    };
    let l2 = str_chars(",\"rows_limit\":");
    let q3 = match expect_lit(input, q2, &l2) {
        Some(q) => q,
        None => {
            return None;
        },
    };
    let (lim, q4) = match parse_rows_field(input, q3) {
        Some(x) => x,
        None => {
            return None;
        },
    };
    let l3 = str_chars("}");
    match expect_lit(input, q4, &l3) {
        Some(q5) => Some((DatasetInfo { source: src, rows_limit: lim }, q5)),
        None => None,
    }
}

/// Reads a whole report document back into a report value; exec twin of
/// `spec_parse_suite`.
pub fn parse_suite_text(input: &Vec<char>) -> (r: Option<BenchmarkSuite>)
    ensures
        match spec_parse_suite(input@) {
            Some(v) => r matches Some(s) && s@ == v,
            None => r is None,
        },
{
    let l1 = str_chars("{\"timestamp\":\"");
    let q1 = match expect_lit(input, 0, &l1) {
        Some(q) => q,
        None => {
            return None;
        },
    };
    let (ts, q2) = match parse_string_field(input, q1) {
        Some(x) => x,
        None => {
            return None;
        },
    };
    let l2 = str_chars(",\"results\":");
    let q3 = match expect_lit(input, q2, &l2) {
        Some(q) => q,
        None => {
            return None;
        },
    };
    let (rs, q4) = match parse_results6_field(input, q3) {
        Some(x) => x,
        None => {
            return None;
        },
    };
    let l3 = str_chars(",\"system_info\":");
    let q5 = match expect_lit(input, q4, &l3) {
        Some(q) => q,
        None => {
            return None;
        },
    };
    let (y, q6) = match parse_system_field(input, q5) {
        Some(x) => x,
        None => {
            return None;
        },
    };
    let l4 = str_chars(",\"dataset_info\":");
    let q7 = match expect_lit(input, q6, &l4) {
        Some(q) => q,
        None => {
            return None;
        },
    };
    let (d, q8) = match parse_dataset_field(input, q7) {
        Some(x) => x,
        None => {
            return None;
        },
    };
    let l5 = str_chars("}");
    let q9 = match expect_lit(input, q8, &l5) {
        Some(q) => q,
        None => {
            return None;
        },
    };
    if q9 == input.len() {
        Some(BenchmarkSuite { timestamp: ts, results: rs, system_info: y, dataset_info: d })
    } else {
        None
    }
}

/// The encoding `e` stands at position `p` of `inp`.
pub open spec fn enc_at(inp: Seq<char>, p: int, e: Seq<char>) -> bool {
    &&& 0 <= p
    &&& p + e.len() <= inp.len()
    &&& inp.subrange(p, p + e.len()) == e
}

/// A concatenation standing at `p` splits into its two parts.
proof fn lemma_enc_at_split(inp: Seq<char>, p: int, a: Seq<char>, b: Seq<char>)
    requires
        enc_at(inp, p, a + b),
    ensures
        enc_at(inp, p, a),
        enc_at(inp, p + a.len(), b),
{
    let e = a + b;
    assert forall|i: int| 0 <= i < a.len() implies inp.subrange(p, p + a.len())[i] == a[i] by {
        assert(inp.subrange(p, p + e.len())[i] == e[i]);
    }
    assert(inp.subrange(p, p + a.len()) =~= a);
    assert forall|i: int|
        0 <= i < b.len() implies inp.subrange(p + a.len(), p + a.len() + b.len())[i] == b[i] by {
        assert(inp.subrange(p, p + e.len())[i + a.len()] == e[i + a.len()]);
    }
    assert(inp.subrange(p + a.len(), p + a.len() + b.len()) =~= b);
}

/// A literal whose first character differs from what stands at `p` is not
/// matched there.
proof fn lemma_lit_differs(inp: Seq<char>, p: int, a: Seq<char>, b: Seq<char>)
    requires
        enc_at(inp, p, a),
        a.len() > 0,
        b.len() > 0,
        a[0] != b[0],
    ensures
        spec_expect_lit(inp, p, b) is None,
{
    if 0 <= p && p + b.len() <= inp.len() && inp.subrange(p, p + b.len()) == b {
        assert(inp.subrange(p, p + a.len())[0] == a[0]);
        assert(inp.subrange(p, p + b.len())[0] == b[0]);
    }
}

/// A framed text field parses to exactly the text.
proof fn lemma_text_framed(inp: Seq<char>, p: int, s: Seq<char>)
    requires
        enc_at(inp, p, text_enc(s)),
    ensures
        spec_parse_string(inp, p) == Some((s, p + text_enc(s).len())),
{
    assert(text_enc(s) == escape_text(s) + seq!['"']);
    lemma_enc_at_split(inp, p, escape_text(s), seq!['"']);
    let pe = p + escape_text(s).len();
    assert(inp[pe] == '"') by {
        assert(inp.subrange(pe, pe + 1)[0] == seq!['"'][0]);
    }
    assert(str_framed(inp, p, s));
    lemma_parse_str_framed(inp, p, s);
}

/// A framed operation name parses to exactly that operation.
proof fn lemma_op_framed(inp: Seq<char>, p: int, op: Operation)
    requires
        enc_at(inp, p, opq_name(op)),
    ensures
        spec_parse_op(inp, p) == Some((op, p + opq_name(op).len())),
{
    reveal_strlit("read\"");
    reveal_strlit("filter\"");
    reveal_strlit("aggregation\"");
    reveal_strlit("group_by\"");
    reveal_strlit("sort\"");
    reveal_strlit("complex_query\"");
    match op {
        Operation::Read => {
        },
        Operation::Filter => {
            lemma_lit_differs(inp, p, "filter\""@, "read\""@);
        },
        Operation::Aggregation => {
            lemma_lit_differs(inp, p, "aggregation\""@, "read\""@);
            lemma_lit_differs(inp, p, "aggregation\""@, "filter\""@);
        },
        Operation::GroupBy => {
            lemma_lit_differs(inp, p, "group_by\""@, "read\""@);
            lemma_lit_differs(inp, p, "group_by\""@, "filter\""@);
            lemma_lit_differs(inp, p, "group_by\""@, "aggregation\""@);
        },
        Operation::Sort => {
            lemma_lit_differs(inp, p, "sort\""@, "read\""@);
            lemma_lit_differs(inp, p, "sort\""@, "filter\""@);
            lemma_lit_differs(inp, p, "sort\""@, "aggregation\""@);
            lemma_lit_differs(inp, p, "sort\""@, "group_by\""@);
        },
        Operation::ComplexQuery => {
            lemma_lit_differs(inp, p, "complex_query\""@, "read\""@);
            lemma_lit_differs(inp, p, "complex_query\""@, "filter\""@);
            lemma_lit_differs(inp, p, "complex_query\""@, "aggregation\""@);
            lemma_lit_differs(inp, p, "complex_query\""@, "group_by\""@);
            lemma_lit_differs(inp, p, "complex_query\""@, "sort\""@);
        },
    }
}

/// A framed optional row count, followed by a non-digit, parses to exactly
/// that value.
proof fn lemma_rows_framed(inp: Seq<char>, p: int, o: Option<usize>)
    requires
        enc_at(inp, p, rows_enc(o)),
        p + rows_enc(o).len() < inp.len(),
        !is_digit_char(inp[p + rows_enc(o).len()]),
    ensures
        spec_parse_rows(inp, p) == Some((o, p + rows_enc(o).len())),
{
    reveal_strlit("null");
    match o {
        None => {
            assert(inp[p] == "null"@[0]) by {
                assert(inp.subrange(p, p + "null"@.len())[0] == "null"@[0]);
            }
            assert(inp[p] == 'n');
        },
        Some(k) => {
            let n64 = k as u64;
            let d = decimal_digits(n64 as nat);
            assert(k as nat == n64 as nat);
            assert(rows_enc(o) == d);
            lemma_decimal_digits_shape(n64 as nat);
            assert(inp[p] == d[0]) by {
                assert(inp.subrange(p, p + d.len())[0] == d[0]);
            }
            assert(is_digit_char(d[0]));
            assert(inp[p] != 'n') by {
                assert(d[0] as int <= 57);
                assert('n' as int == 110);
            }
            assert(num_framed(inp, p, n64));
            lemma_parse_num_framed(inp, p, n64);
            assert(n64 <= usize::MAX as u64);
            assert(n64 as usize == k);
        },
    }
}

/// A framed result record parses to exactly that record.
#[verifier::rlimit(100)]
proof fn lemma_result_framed(inp: Seq<char>, p: int, r: BenchmarkResult)
    requires
        enc_at(inp, p, emit_result(r)),
    ensures
        spec_parse_result(inp, p) == Some((r, p + emit_result(r).len())),
{
    reveal_strlit("{\"operation\":\"");
    reveal_strlit(",\"duration_ms\":");
    reveal_strlit(",\"memory_mb\":");
    reveal_strlit(",\"rows_processed\":");
    reveal_strlit("}");
    let a1 = "{\"operation\":\""@;
    let b2 = opq_name(r.operation);
    let a3 = ",\"duration_ms\":"@;
    let b4 = decimal_digits(r.duration_ms as nat);
    let a5 = ",\"memory_mb\":"@;
    let b6 = decimal_digits(r.memory_mb as nat);
    let a7 = ",\"rows_processed\":"@;
    let b8 = rows_enc(r.rows_processed);
    let a9 = "}"@;
    let rest1 = b2 + (a3 + (b4 + (a5 + (b6 + (a7 + (b8 + a9))))));
    assert(emit_result(r) == a1 + rest1);
    lemma_enc_at_split(inp, p, a1, rest1);
    let p1 = p + a1.len();
    let rest2 = a3 + (b4 + (a5 + (b6 + (a7 + (b8 + a9)))));
    lemma_enc_at_split(inp, p1, b2, rest2);
    let p2 = p1 + b2.len();
    lemma_op_framed(inp, p1, r.operation);
    let rest3 = b4 + (a5 + (b6 + (a7 + (b8 + a9))));
    lemma_enc_at_split(inp, p2, a3, rest3);
    let p3 = p2 + a3.len();
    let rest4 = a5 + (b6 + (a7 + (b8 + a9)));
    lemma_enc_at_split(inp, p3, b4, rest4);
    let p4 = p3 + b4.len();
    assert(inp[p4] == a5[0]) by {
        assert(inp.subrange(p4, p4 + rest4.len())[0] == rest4[0]);
    }
    assert(num_framed(inp, p3, r.duration_ms));
    lemma_parse_num_framed(inp, p3, r.duration_ms);
    let rest5 = b6 + (a7 + (b8 + a9));
    lemma_enc_at_split(inp, p4, a5, rest5);
    let p5 = p4 + a5.len();
    let rest6 = a7 + (b8 + a9);
    lemma_enc_at_split(inp, p5, b6, rest6);
    let p6 = p5 + b6.len();
    assert(inp[p6] == a7[0]) by {
        assert(inp.subrange(p6, p6 + rest6.len())[0] == rest6[0]);
    }
    assert(num_framed(inp, p5, r.memory_mb));
    lemma_parse_num_framed(inp, p5, r.memory_mb);
    let rest7 = b8 + a9;
    lemma_enc_at_split(inp, p6, a7, rest7);
    let p7 = p6 + a7.len();
    lemma_enc_at_split(inp, p7, b8, a9);
    let p8 = p7 + b8.len();
    assert(inp[p8] == a9[0]) by {
        assert(inp.subrange(p8, p8 + 1)[0] == a9[0]);
    }
    assert(!is_digit_char(inp[p8]));
    assert(p8 < inp.len());
    lemma_rows_framed(inp, p7, r.rows_processed);
    assert(spec_expect_lit(inp, p8, a9) == Some(p8 + 1));
    assert(spec_parse_result(inp, p) == Some((r, p + emit_result(r).len())));
}

/// The framed tail of the record list parses to exactly those records.
proof fn lemma_results_from_framed(inp: Seq<char>, p: int, rs: Seq<BenchmarkResult>, i: int)
    requires
        0 <= i < rs.len(),
        enc_at(inp, p, emit_results_from(rs, i)),
    ensures
        spec_parse_results_n(inp, p, (rs.len() - i) as nat) == Some(
            (rs.skip(i), p + emit_results_from(rs, i).len()),
        ),
    decreases rs.len() - i,
{
    reveal_strlit(",");
    if i == rs.len() - 1 {
        lemma_result_framed(inp, p, rs[i]);
        assert(seq![rs[i]] =~= rs.skip(i));
    } else {
        let e1 = emit_result(rs[i]);
        let rest = ","@ + emit_results_from(rs, i + 1);
        assert(emit_results_from(rs, i) == e1 + rest);
        lemma_enc_at_split(inp, p, e1, rest);
        let q = p + e1.len();
        lemma_result_framed(inp, p, rs[i]);
        lemma_enc_at_split(inp, q, ","@, emit_results_from(rs, i + 1));
        let q2 = q + ","@.len();
        lemma_results_from_framed(inp, q2, rs, i + 1);
        assert(seq![rs[i]] + rs.skip(i + 1) =~= rs.skip(i));
    }
}

/// The framed bracketed record list parses to exactly those records.
proof fn lemma_results6_framed(inp: Seq<char>, p: int, rs: Seq<BenchmarkResult>)
    requires
        rs.len() == 6,
        enc_at(inp, p, emit_results6(rs)),
    ensures
        spec_parse_results6(inp, p) == Some((rs, p + emit_results6(rs).len())),
{
    reveal_strlit("[");
    reveal_strlit("]");
    let body = emit_results_from(rs, 0);
    assert(emit_results6(rs) == "["@ + (body + "]"@));
    lemma_enc_at_split(inp, p, "["@, body + "]"@);
    let q1 = p + "["@.len();
    lemma_enc_at_split(inp, q1, body, "]"@);
    let q2 = q1 + body.len();
    lemma_results_from_framed(inp, q1, rs, 0);
    assert(rs.skip(0) =~= rs);
}

/// A framed host snapshot parses to exactly that snapshot.
#[verifier::rlimit(100)]
proof fn lemma_system_framed(inp: Seq<char>, p: int, y: SystemInfoView)
    requires
        enc_at(inp, p, emit_system(y)),
    ensures
        spec_parse_system(inp, p) == Some((y, p + emit_system(y).len())),
{
    reveal_strlit("{\"os\":\"");
    reveal_strlit(",\"cpu_count\":");
    reveal_strlit(",\"total_memory_gb\":");
    reveal_strlit("}");
    let a1 = "{\"os\":\""@;
    let t2 = text_enc(y.os);
    let a3 = ",\"cpu_count\":"@;
    let b4 = decimal_digits(y.cpu_count as nat);
    let a5 = ",\"total_memory_gb\":"@;
    let b6 = decimal_digits(y.total_memory_gb as nat);
    let a7 = "}"@;
    let rest1 = t2 + (a3 + (b4 + (a5 + (b6 + a7))));
    assert(emit_system(y) == a1 + rest1);
    lemma_enc_at_split(inp, p, a1, rest1);
    let p1 = p + a1.len();
    let rest2 = a3 + (b4 + (a5 + (b6 + a7)));
    lemma_enc_at_split(inp, p1, t2, rest2);
    let p2 = p1 + t2.len();
    lemma_text_framed(inp, p1, y.os);
    let rest3 = b4 + (a5 + (b6 + a7));
    lemma_enc_at_split(inp, p2, a3, rest3);
    let p3 = p2 + a3.len();
    let rest4 = a5 + (b6 + a7);
    lemma_enc_at_split(inp, p3, b4, rest4);
    let p4 = p3 + b4.len();
    assert(inp[p4] == a5[0]) by {
        assert(inp.subrange(p4, p4 + rest4.len())[0] == rest4[0]);
    }
    let cpu64 = y.cpu_count as u64;
    assert(y.cpu_count as nat == cpu64 as nat);
    assert(num_framed(inp, p3, cpu64));
    lemma_parse_num_framed(inp, p3, cpu64);
    assert(cpu64 <= usize::MAX as u64);
    assert(cpu64 as usize == y.cpu_count);
    let rest5 = b6 + a7;
    lemma_enc_at_split(inp, p4, a5, rest5);
    let p5 = p4 + a5.len();
    lemma_enc_at_split(inp, p5, b6, a7);
    let p6 = p5 + b6.len();
    assert(inp[p6] == a7[0]) by {
        assert(inp.subrange(p6, p6 + 1)[0] == a7[0]);
    }
    assert(num_framed(inp, p5, y.total_memory_gb));
    lemma_parse_num_framed(inp, p5, y.total_memory_gb);
    assert(spec_expect_lit(inp, p6, a7) == Some(p6 + 1));
    assert(SystemInfoView { os: y.os, cpu_count: cpu64 as usize, total_memory_gb: y.total_memory_gb }
        =~= y);
}

/// Framed dataset metadata parses to exactly that metadata.
#[verifier::rlimit(100)]
proof fn lemma_dataset_framed(inp: Seq<char>, p: int, d: DatasetInfoView)
    requires
        enc_at(inp, p, emit_dataset(d)),
    ensures
        spec_parse_dataset(inp, p) == Some((d, p + emit_dataset(d).len())),
{
    reveal_strlit("{\"source\":\"");
    reveal_strlit(",\"rows_limit\":");
    reveal_strlit("}");
    let a1 = "{\"source\":\""@;
    let t2 = text_enc(d.source);
    let a3 = ",\"rows_limit\":"@;
    let b4 = rows_enc(d.rows_limit);
    let a5 = "}"@;
    let rest1 = t2 + (a3 + (b4 + a5));
    assert(emit_dataset(d) == a1 + rest1);
    lemma_enc_at_split(inp, p, a1, rest1);
    let p1 = p + a1.len();
    let rest2 = a3 + (b4 + a5);
    lemma_enc_at_split(inp, p1, t2, rest2);
    let p2 = p1 + t2.len();
    lemma_text_framed(inp, p1, d.source);
    let rest3 = b4 + a5;
    lemma_enc_at_split(inp, p2, a3, rest3);
    let p3 = p2 + a3.len();
    lemma_enc_at_split(inp, p3, b4, a5);
    let p4 = p3 + b4.len();
    assert(inp[p4] == a5[0]) by {
        assert(inp.subrange(p4, p4 + 1)[0] == a5[0]);
    }
    assert(!is_digit_char(inp[p4]));
    assert(p4 < inp.len());
    lemma_rows_framed(inp, p3, d.rows_limit);
    assert(spec_expect_lit(inp, p4, a5) == Some(p4 + 1));
    assert(DatasetInfoView { source: d.source, rows_limit: d.rows_limit } =~= d);
}

/// Round trip: a rendered report, parsed back, is the same report — the
/// encoding loses no field of the defined schema.
#[verifier::rlimit(100)]
pub proof fn lemma_parse_emit_suite(v: BenchmarkSuiteView)
    requires
        v.results.len() == 6,
    ensures
        spec_parse_suite(emit_suite(v)) == Some(v),
{
    reveal_strlit("{\"timestamp\":\"");
    reveal_strlit(",\"results\":");
    reveal_strlit(",\"system_info\":");
    reveal_strlit(",\"dataset_info\":");
    reveal_strlit("}");
    let inp = emit_suite(v);
    let a1 = "{\"timestamp\":\""@;
    let t2 = text_enc(v.timestamp);
    let a3 = ",\"results\":"@;
    let b4 = emit_results6(v.results);
    let a5 = ",\"system_info\":"@;
    let b6 = emit_system(v.system_info);
    let a7 = ",\"dataset_info\":"@;
    let b8 = emit_dataset(v.dataset_info);
    let a9 = "}"@;
    let rest1 = t2 + (a3 + (b4 + (a5 + (b6 + (a7 + (b8 + a9))))));
    assert(inp == a1 + rest1);
    assert(inp.subrange(0, inp.len() as int) =~= inp);
    assert(enc_at(inp, 0, a1 + rest1));
    lemma_enc_at_split(inp, 0, a1, rest1);
    let p1 = a1.len() as int;
    let rest2 = a3 + (b4 + (a5 + (b6 + (a7 + (b8 + a9)))));
    lemma_enc_at_split(inp, p1, t2, rest2);
    let p2 = p1 + t2.len();
    lemma_text_framed(inp, p1, v.timestamp);
    let rest3 = b4 + (a5 + (b6 + (a7 + (b8 + a9))));
    lemma_enc_at_split(inp, p2, a3, rest3);
    let p3 = p2 + a3.len();
    let rest4 = a5 + (b6 + (a7 + (b8 + a9)));
    lemma_enc_at_split(inp, p3, b4, rest4);
    let p4 = p3 + b4.len();
    lemma_results6_framed(inp, p3, v.results);
    let rest5 = b6 + (a7 + (b8 + a9));
    lemma_enc_at_split(inp, p4, a5, rest5);
    let p5 = p4 + a5.len();
    let rest6 = a7 + (b8 + a9);
    lemma_enc_at_split(inp, p5, b6, rest6);
    let p6 = p5 + b6.len();
    lemma_system_framed(inp, p5, v.system_info);
    let rest7 = b8 + a9;
    lemma_enc_at_split(inp, p6, a7, rest7);
    let p7 = p6 + a7.len();
    lemma_enc_at_split(inp, p7, b8, a9);
    let p8 = p7 + b8.len();
    lemma_dataset_framed(inp, p7, v.dataset_info);
    assert(spec_expect_lit(inp, p8, a9) == Some(p8 + 1));
    assert(p8 + 1 == inp.len());
    assert(BenchmarkSuiteView {
        timestamp: v.timestamp,
        results: v.results,
        system_info: v.system_info,
        dataset_info: v.dataset_info,
    } =~= v);
}

/// Losslessness: two reports with the same text form have the same field
/// values, so a serialized report denotes one report only.
pub proof fn lemma_report_encoding_lossless(v1: BenchmarkSuiteView, v2: BenchmarkSuiteView)
    requires
        v1.results.len() == 6,
        v2.results.len() == 6,
        emit_suite(v1) == emit_suite(v2),
    ensures
        v1 == v2,
{
    lemma_parse_emit_suite(v1);
    lemma_parse_emit_suite(v2);
}

} // verus!
