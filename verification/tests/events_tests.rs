use tensara::events::{
    benchmark_row, compact_benchmark_results, error_event_report, sample_step, sse_data_payload,
    summarize_benchmark, summarize_checker, test_row, BenchmarkVerdict, CheckerVerdict, SampleStep,
};
use tensara::json::{Json, JsonNumber};

fn s(x: &str) -> Json {
    Json::Str(x.to_string())
}

fn n(x: u64) -> Json {
    Json::Number(JsonNumber { text: x.to_string(), unsigned: Some(x), is_float: false })
}

fn f(text: &str) -> Json {
    Json::Number(JsonNumber { text: text.to_string(), unsigned: None, is_float: true })
}

fn obj(fields: Vec<(&str, Json)>) -> Json {
    Json::Object(fields.into_iter().map(|(k, v)| (k.to_string(), v)).collect())
}

fn event(status: &str, mut rest: Vec<(&str, Json)>) -> Json {
    rest.insert(0, ("status", s(status)));
    obj(rest)
}

fn result(name: &str, status: &str) -> Json {
    obj(vec![("name", s(name)), ("status", s(status))])
}

fn text_of(j: &Option<Json>) -> Option<&str> {
    match j {
        Some(Json::Str(t)) => Some(t.as_str()),
        _ => None,
    }
}

#[test]
fn data_payload_follows_the_data_prefix() {
    assert_eq!(sse_data_payload("data: {\"a\":1}").as_deref(), Some("{\"a\":1}"));
    assert_eq!(sse_data_payload("event: CHECKED"), None);
    assert_eq!(sse_data_payload("data:x"), None);
}

#[test]
fn checker_counts_collected_results_without_a_final_event() {
    let events = vec![
        event("COMPILING", vec![]),
        event("TEST_RESULT", vec![("result", result("a", "PASSED"))]),
        event("TEST_RESULT", vec![("result", result("b", "FAILED"))]),
    ];
    let summary = summarize_checker(&events);
    assert_eq!(summary.status, "INCOMPLETE");
    assert_eq!(summary.passed_tests, 1);
    assert_eq!(summary.total_tests, 2);
    assert_eq!(summary.test_results.len(), 2);
    assert_eq!(summary.verdict, CheckerVerdict::Incomplete);
    assert!(summary.error_report.is_none());
}

#[test]
fn checker_takes_counts_from_the_final_event() {
    let events = vec![
        event("TEST_RESULT", vec![("result", result("a", "PASSED"))]),
        event(
            "CHECKED",
            vec![
                ("passedTests", n(3)),
                ("total_tests", n(3)),
                ("test_results", Json::Array(vec![result("x", "PASSED")])),
            ],
        ),
    ];
    let summary = summarize_checker(&events);
    assert_eq!(summary.status, "CHECKED");
    assert_eq!(summary.passed_tests, 3);
    assert_eq!(summary.total_tests, 3);
    assert_eq!(summary.test_results.len(), 1);
    assert_eq!(test_row(&summary.test_results[0]).name, "x");
    assert_eq!(summary.verdict, CheckerVerdict::Passed);
}

#[test]
fn checker_reports_errors_and_empty_streams() {
    let events = vec![event(
        "COMPILE_ERROR",
        vec![("message", s("nvcc failed")), ("stderr", s("  line 3 \n"))],
    )];
    let summary = summarize_checker(&events);
    assert_eq!(summary.verdict, CheckerVerdict::Errored);
    assert_eq!(summary.message.as_deref(), Some("nvcc failed"));
    let report = summary.error_report.unwrap();
    assert_eq!(report.status, "COMPILE_ERROR");
    assert_eq!(report.message, "nvcc failed");
    assert_eq!(report.details.as_deref(), Some("line 3"));

    let empty = summarize_checker(&vec![]);
    assert_eq!(empty.status, "NO_RESPONSE");
    assert_eq!(empty.verdict, CheckerVerdict::NoResponse);

    let wrong = summarize_checker(&vec![event("WRONG_ANSWER", vec![("debug_info", obj(vec![]))])]);
    assert_eq!(wrong.verdict, CheckerVerdict::Failed);
    assert!(wrong.debug_info.is_some());
}

#[test]
fn error_event_defaults() {
    let report = error_event_report(&obj(vec![("details", s("   "))]));
    assert_eq!(report.status, "ERROR");
    assert_eq!(report.message, "No error message returned by the server.");
    assert_eq!(report.details, None);
    let report = error_event_report(&obj(vec![("error", s("E")), ("message", s("M")), ("traceback", s("tb"))]));
    assert_eq!(report.message, "E");
    assert_eq!(report.details.as_deref(), Some("tb"));
}

#[test]
fn benchmark_final_event_may_be_the_averages_alone() {
    let events = vec![
        event("BENCHMARK_RESULT", vec![("result", obj(vec![("name", s("n=1")), ("gflops", f("1.5"))]))]),
        obj(vec![("avg_gflops", f("1.5")), ("avg_runtime_ms", f("0.25"))]),
    ];
    let summary = summarize_benchmark(&events);
    assert_eq!(summary.status, "ACCEPTED");
    assert_eq!(summary.verdict, BenchmarkVerdict::Accepted);
    assert_eq!(summary.avg_gflops.as_ref().map(|x| x.text.as_str()), Some("1.5"));
    assert_eq!(summary.avg_runtime_ms.as_ref().map(|x| x.text.as_str()), Some("0.25"));
    assert_eq!(summary.benchmark_results.len(), 1);
    let row = benchmark_row(&summary.benchmark_results[0]);
    assert_eq!(row.name, "n=1");
    assert_eq!(row.gflops.map(|x| x.text), Some("1.5".to_string()));
    assert!(row.runtime_ms.is_none());
}

#[test]
fn benchmark_statuses() {
    let wrong = summarize_benchmark(&vec![event("WRONG_ANSWER", vec![])]);
    assert_eq!(wrong.verdict, BenchmarkVerdict::WrongAnswer);
    let err = summarize_benchmark(&vec![event("RATE_LIMIT_EXCEEDED", vec![("error", s("slow down"))])]);
    assert_eq!(err.verdict, BenchmarkVerdict::Errored);
    assert_eq!(err.error_report.unwrap().message, "slow down");
    let partial = summarize_benchmark(&vec![event("BENCHMARKING", vec![])]);
    assert_eq!(partial.status, "INCOMPLETE");
    assert_eq!(partial.verdict, BenchmarkVerdict::Incomplete);
    let none = summarize_benchmark(&vec![]);
    assert_eq!(none.verdict, BenchmarkVerdict::NoResponse);
}

#[test]
fn compact_results_keep_five_fields() {
    let compact = compact_benchmark_results(&vec![obj(vec![
        ("name", s("a")),
        ("runtime_ms", f("2.0")),
        ("extra", n(1)),
    ])]);
    match &compact[0] {
        Json::Object(fields) => {
            let keys: Vec<&str> = fields.iter().map(|(k, _)| k.as_str()).collect();
            assert_eq!(keys, vec!["test_id", "name", "gflops", "runtime_ms", "status"]);
            assert!(matches!(fields[0].1, Json::Null));
            assert!(matches!(&fields[1].1, Json::Str(x) if x == "a"));
            assert!(matches!(fields[2].1, Json::Null));
            assert!(matches!(&fields[4].1, Json::Str(x) if x == "PASSED"));
        }
        _ => panic!("expected an object"),
    }
}

#[test]
fn test_row_defaults() {
    let row = test_row(&obj(vec![]));
    assert_eq!(row.name, "Unnamed");
    assert_eq!(row.status, "UNKNOWN");
}

#[test]
fn sample_steps() {
    match sample_step(&event(
        "PASSED",
        vec![("input", s("i")), ("output", s("o")), ("stdout", s(" hi \n")), ("stderr", s("  "))],
    )) {
        SampleStep::Passed { input, expected_output, output, stdout, stderr } => {
            assert_eq!(text_of(&input), Some("i"));
            assert!(expected_output.is_none());
            assert_eq!(text_of(&output), Some("o"));
            assert_eq!(stdout.as_deref(), Some("hi"));
            assert_eq!(stderr, None);
        }
        _ => panic!("expected a passed step"),
    }
    assert!(matches!(
        sample_step(&event("FAILED", vec![("debug_info", s("d"))])),
        SampleStep::Failed { debug_info: Some(_), stdout: None, stderr: None, .. }
    ));
    match sample_step(&event("FAILED", vec![("stdout", s("  printed\n")), ("stderr", s(" \n "))])) {
        SampleStep::Failed { stdout, stderr, debug_info, .. } => {
            assert_eq!(stdout.as_deref(), Some("printed"));
            assert_eq!(stderr, None);
            assert!(debug_info.is_none());
        }
        _ => panic!("expected a failed step"),
    }
    match sample_step(&event("TOO_MANY_REQUESTS", vec![("error", s("E")), ("details", s(" d "))])) {
        SampleStep::Errored { status, message, details } => {
            assert_eq!(status, "TOO_MANY_REQUESTS");
            assert_eq!(message, "E");
            assert_eq!(details.as_deref(), Some(" d "));
        }
        _ => panic!("expected an error step"),
    }
    assert!(matches!(
        sample_step(&event("MEMORY_LIMIT_EXCEEDED", vec![])),
        SampleStep::Progress(p) if p == "MEMORY_LIMIT_EXCEEDED"
    ));
    assert!(matches!(
        sample_step(&event("ERROR", vec![])),
        SampleStep::Errored { message, .. } if message == "Sample run failed"
    ));
    assert!(matches!(sample_step(&obj(vec![])), SampleStep::Waiting));
}
