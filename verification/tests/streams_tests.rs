use tensara::debug::{debug_report, DebugValue, SampleDifferences, SampleLayout};
use tensara::json::{Json, JsonNumber};
use tensara::streams::{
    classify_details, Bar, BenchmarkStreamAction, BenchmarkStreamState, CheckedTests,
    CheckerStreamAction, CheckerStreamState, DetailKind, LineBuffer, Stage, SubmitAction,
    SubmitData, SubmitState,
};

fn s(x: &str) -> Json {
    Json::Str(x.to_string())
}

fn n(x: u64) -> Json {
    Json::Number(JsonNumber { text: x.to_string(), unsigned: Some(x), is_float: false })
}

fn f(text: &str) -> Json {
    Json::Number(JsonNumber { text: text.to_string(), unsigned: None, is_float: true })
}

fn obj(fields: Vec<(&str, Json)>) -> Json {
    Json::Object(fields.into_iter().map(|(k, v)| (k.to_string(), v)).collect())
}

fn data(value: Option<Json>) -> SubmitData {
    SubmitData { value, test_status: None, counts: None, error_text: None }
}

fn submit_in(event: &str) -> SubmitState {
    let mut state = SubmitState::new();
    assert_eq!(state.read_line(&format!("event: {}", event)), None);
    state
}

#[test]
fn submit_lines_name_events_and_carry_data() {
    let mut state = SubmitState::new();
    assert_eq!(state.read_line("event:  TEST_RESULT  "), None);
    assert_eq!(state.current_event.as_deref(), Some("TEST_RESULT"));
    assert_eq!(state.read_line("data: {\"x\":1}").as_deref(), Some("{\"x\":1}"));
    assert_eq!(state.read_line(": keep-alive"), None);
    assert_eq!(state.current_event.as_deref(), Some("TEST_RESULT"));
}

#[test]
fn submit_data_before_any_event_does_nothing() {
    let mut state = SubmitState::new();
    let action = state.on_data(&data(Some(obj(vec![]))));
    assert!(matches!(action, SubmitAction::Nothing));
    assert_eq!(state.bar, None);
}

#[test]
fn submit_stages_name_the_spinner() {
    for (event, stage) in [
        ("IN_QUEUE", Stage::InQueue),
        ("COMPILING", Stage::Compiling),
        ("CHECKING", Stage::Checking),
        ("BENCHMARKING", Stage::Benchmarking),
    ] {
        let mut state = submit_in(event);
        match state.on_data(&data(None)) {
            SubmitAction::Stage(s) => assert_eq!(s, stage),
            _ => panic!("expected a stage"),
        }
    }
}

#[test]
fn submit_counts_passed_tests() {
    let mut state = submit_in("TEST_RESULT");
    let first = SubmitData {
        value: Some(obj(vec![("total_tests", n(4))])),
        test_status: Some("PASSED".to_string()),
        counts: None,
        error_text: None,
    };
    match state.on_data(&first) {
        SubmitAction::TestResult { new_bar, length, position } => {
            assert!(new_bar);
            assert_eq!(length, Some(4));
            assert_eq!(position, Some(1));
        }
        _ => panic!("expected a test result"),
    }
    let second = SubmitData {
        value: Some(obj(vec![("total_tests", n(9))])),
        test_status: Some("FAILED".to_string()),
        counts: None,
        error_text: None,
    };
    match state.on_data(&second) {
        SubmitAction::TestResult { new_bar, length, position } => {
            assert!(!new_bar);
            assert_eq!(length, None);
            assert_eq!(position, Some(1));
        }
        _ => panic!("expected a test result"),
    }
    assert_eq!(state.total_tests, 4);
    assert_eq!(state.passed_tests, 1);
    assert_eq!(state.bar, Some(Bar::Tests));
}

#[test]
fn submit_checked_closes_the_bar_and_resets_counts() {
    let mut state = submit_in("TEST_RESULT");
    let pass = SubmitData {
        value: Some(obj(vec![])),
        test_status: Some("PASSED".to_string()),
        counts: None,
        error_text: None,
    };
    state.on_data(&pass);
    state.read_line("event: CHECKED");
    let checked = SubmitData { value: None, test_status: None, counts: Some((3, 5)), error_text: None };
    match state.on_data(&checked) {
        SubmitAction::Checked { counts, bar_finished } => {
            assert_eq!(counts, Some((3, 5)));
            assert!(bar_finished);
        }
        _ => panic!("expected checked"),
    }
    assert_eq!(state.bar, None);
    assert_eq!(state.passed_tests, 0);
    assert_eq!(state.total_tests, 0);
}

#[test]
fn submit_benchmark_results_open_a_bar_once() {
    let mut state = submit_in("BENCHMARK_RESULT");
    let first = obj(vec![("total_tests", n(2)), ("result", obj(vec![("name", s("n=1024"))]))]);
    match state.on_data(&data(Some(first))) {
        SubmitAction::BenchmarkResult(step) => {
            assert_eq!(step.new_bar, Some(2));
            let shown = step.shown.expect("shown");
            assert_eq!(shown.position, 1);
            assert_eq!(shown.name, "n=1024");
        }
        _ => panic!("expected a benchmark result"),
    }
    let second = obj(vec![("result", obj(vec![]))]);
    match state.on_data(&data(Some(second))) {
        SubmitAction::BenchmarkResult(step) => {
            assert_eq!(step.new_bar, None);
            let shown = step.shown.expect("shown");
            assert_eq!(shown.position, 2);
            assert_eq!(shown.name, "Unnamed");
        }
        _ => panic!("expected a benchmark result"),
    }
    assert_eq!(state.bar, Some(Bar::Benchmarks));
    assert_eq!(state.benchmarks.completed, 2);
    assert_eq!(state.benchmarks.results.len(), 2);
    let unreadable = state.on_data(&data(None));
    assert!(matches!(unreadable, SubmitAction::Nothing));
}

#[test]
fn submit_accepted_lists_the_detailed_results_and_ends() {
    let mut state = submit_in("ACCEPTED");
    let value = obj(vec![
        ("avg_gflops", f("1.5")),
        ("benchmark_results", Json::Array(vec![obj(vec![("name", s("a"))]), obj(vec![])])),
    ]);
    let action = state.on_data(&data(Some(value)));
    assert!(action.ends_stream());
    match action {
        SubmitAction::Accepted { bar_finished, results } => {
            assert!(!bar_finished);
            assert_eq!(results.expect("results").len(), 2);
        }
        _ => panic!("expected accepted"),
    }
    let mut other = submit_in("ACCEPTED");
    match other.on_data(&data(Some(obj(vec![])))) {
        SubmitAction::Accepted { results, .. } => assert_eq!(results.expect("results").len(), 0),
        _ => panic!("expected accepted"),
    }
}

#[test]
fn submit_error_messages() {
    let mut state = submit_in("ERROR");
    let parsed = SubmitData {
        value: None,
        test_status: None,
        counts: None,
        error_text: Some(Some("out of memory".to_string())),
    };
    match state.on_data(&parsed) {
        SubmitAction::Failed { message, .. } => assert_eq!(message.as_deref(), Some("out of memory")),
        _ => panic!("expected failed"),
    }
    let mut state = submit_in("ERROR");
    let empty = SubmitData { value: None, test_status: None, counts: None, error_text: Some(None) };
    match state.on_data(&empty) {
        SubmitAction::Failed { message, .. } => assert_eq!(message.as_deref(), Some("Unknown error")),
        _ => panic!("expected failed"),
    }
    let mut state = submit_in("ERROR");
    match state.on_data(&data(None)) {
        SubmitAction::Failed { message, .. } => assert_eq!(message, None),
        _ => panic!("expected failed"),
    }
}

#[test]
fn submit_compile_error_details() {
    let mut state = submit_in("COMPILE_ERROR");
    let action = state.on_data(&data(Some(obj(vec![("details", s("line 3: bad"))]))));
    assert!(action.ends_stream());
    match action {
        SubmitAction::CompileError { details, .. } => assert_eq!(details.as_deref(), Some("line 3: bad")),
        _ => panic!("expected compile error"),
    }
    let mut state = submit_in("COMPILE_ERROR");
    match state.on_data(&data(Some(obj(vec![])))) {
        SubmitAction::CompileError { details, .. } => assert_eq!(details.as_deref(), Some("Unknown error")),
        _ => panic!("expected compile error"),
    }
}

fn coordinate_debug_info() -> Json {
    let sample = |k: &str| {
        (k.to_string(), obj(vec![("actual", f("1.0")), ("diff", f("0.5")), ("expected", n(1))]))
    };
    let mut samples: Vec<(String, Json)> = (0..7).map(|i| sample(&format!("({}, 0)", i))).collect();
    samples[1] = ("(1, 0)".to_string(), obj(vec![("actual", f("1.0"))]));
    obj(vec![
        ("message", s("mismatch")),
        ("max_difference", f("0.5")),
        ("mean_difference", n(0)),
        ("sample_differences", Json::Object(samples)),
        ("tolerance", f("0.001")),
        ("shape", s("[8, 8]")),
    ])
}

#[test]
fn submit_wrong_answer_reports_debug_info() {
    let mut state = submit_in("WRONG_ANSWER");
    let value = obj(vec![("debug_info", coordinate_debug_info())]);
    let action = state.on_data(&data(Some(value)));
    assert!(action.ends_stream());
    match action {
        SubmitAction::WrongAnswer { debug, .. } => {
            let report = debug.expect("debug");
            assert_eq!(report.message.as_deref(), Some("mismatch"));
            assert_eq!(report.max_difference.map(|n| n.text), Some("0.5".to_string()));
            assert!(report.mean_difference.is_none());
            match report.samples {
                SampleDifferences::ByCoordinate { shown, more } => {
                    assert_eq!(more, 2);
                    let positions: Vec<usize> = shown.iter().map(|s| s.position).collect();
                    assert_eq!(positions, vec![1, 3, 4, 5]);
                    assert_eq!(shown[0].coordinate, "(0, 0)");
                    assert_eq!(shown[0].expected.text, "1");
                }
                _ => panic!("expected samples by coordinate"),
            }
            assert_eq!(report.others.len(), 2);
            assert_eq!(report.others[0].0, "tolerance");
            assert!(matches!(report.others[0].1, DebugValue::Float(_)));
            assert_eq!(report.others[1].0, "shape");
            assert!(matches!(report.others[1].1, DebugValue::Other(_)));
        }
        _ => panic!("expected wrong answer"),
    }
}

#[test]
fn debug_report_by_position_shows_numbers() {
    let info = obj(vec![(
        "sample_differences",
        Json::Array(vec![f("0.1"), s("x"), n(2), f("0.3"), f("0.4"), f("0.5"), f("0.6")]),
    )]);
    let report = debug_report(&info, SampleLayout::ByPosition);
    match report.samples {
        SampleDifferences::ByPosition { values, more } => {
            assert_eq!(more, 2);
            let positions: Vec<usize> = values.iter().map(|v| v.position).collect();
            assert_eq!(positions, vec![1, 3, 4, 5]);
            assert_eq!(values[1].diff.text, "2");
        }
        _ => panic!("expected samples by position"),
    }
    let coordinates = debug_report(&info, SampleLayout::ByCoordinate);
    assert!(matches!(coordinates.samples, SampleDifferences::NotShown));
    assert!(report.message.is_none());
    assert!(report.others.is_empty());
}

#[test]
fn line_buffer_keeps_the_unfinished_line() {
    let mut buffer = LineBuffer::new();
    let lines = buffer.push_chunk("data: {\"a\"");
    assert!(lines.is_empty());
    let lines = buffer.push_chunk(":1}  \r\n\ndata: x\nda");
    assert_eq!(lines, vec!["data: {\"a\":1}".to_string(), "".to_string(), "data: x".to_string()]);
    assert_eq!(buffer.pending, "da");
}

#[test]
fn line_buffer_chunking_makes_no_difference() {
    let stream = "event: A\ndata: 1\n\ndata: 2\npartial";
    let mut whole = LineBuffer::new();
    let all = whole.push_chunk(stream);
    for cut in 0..=stream.len() {
        let mut split = LineBuffer::new();
        let mut lines = split.push_chunk(&stream[..cut]);
        lines.extend(split.push_chunk(&stream[cut..]));
        assert_eq!(lines, all);
        assert_eq!(split.pending, whole.pending);
    }
}

#[test]
fn details_are_classified_by_line() {
    let lines = classify_details("a.cu(3): error: x\nwarning: y\n   ^\nplain\r\n");
    let kinds: Vec<DetailKind> = lines.iter().map(|l| l.kind).collect();
    assert_eq!(kinds, vec![DetailKind::Error, DetailKind::Warning, DetailKind::Caret, DetailKind::Plain]);
    assert_eq!(lines[3].text, "plain");
}

#[test]
fn checker_stream_error_ends_the_stream() {
    let mut state = CheckerStreamState::new();
    let event = obj(vec![("status", s("ERROR")), ("details", s("x: error: bad\nok"))]);
    let action = state.on_event(&event);
    assert!(action.ends_stream());
    match action {
        CheckerStreamAction::Error { message, details } => {
            assert_eq!(message, "Unknown error");
            assert_eq!(details.expect("details").len(), 2);
        }
        _ => panic!("expected an error"),
    }
}

#[test]
fn checker_stream_counts_results_and_checks() {
    let mut state = CheckerStreamState::new();
    assert!(matches!(state.on_event(&obj(vec![("status", s("COMPILING"))])), CheckerStreamAction::Stage(Stage::Compiling)));
    let first = obj(vec![
        ("status", s("TEST_RESULT")),
        ("total_tests", n(2)),
        ("result", obj(vec![("name", s("small")), ("status", s("PASSED"))])),
    ]);
    match state.on_event(&first) {
        CheckerStreamAction::TestResult { new_bar, shown } => {
            assert_eq!(new_bar, Some(2));
            let shown = shown.expect("shown");
            assert_eq!(shown.position, 1);
            assert!(shown.passed);
            assert_eq!(shown.name, "small");
        }
        _ => panic!("expected a test result"),
    }
    let second = obj(vec![("status", s("TEST_RESULT")), ("result", obj(vec![("status", s("FAILED"))]))]);
    match state.on_event(&second) {
        CheckerStreamAction::TestResult { new_bar, shown } => {
            assert_eq!(new_bar, None);
            let shown = shown.expect("shown");
            assert!(!shown.passed);
            assert_eq!(shown.name, "Unknown test");
        }
        _ => panic!("expected a test result"),
    }
    let not_object = obj(vec![("status", s("TEST_RESULT")), ("result", s("x"))]);
    assert!(matches!(state.on_event(&not_object), CheckerStreamAction::TestResult { shown: None, .. }));
    assert_eq!(state.completed, 2);
    let checked = obj(vec![("status", s("CHECKED")), ("passedTests", n(1)), ("totalTests", n(2))]);
    match state.on_event(&checked) {
        CheckerStreamAction::Checked { bar_finished, passed, total, all_passed, tests } => {
            assert!(bar_finished);
            assert_eq!((passed, total, all_passed), (1, 2, false));
            match tests {
                CheckedTests::Collected(rows) => {
                    assert_eq!(rows.len(), 2);
                    assert_eq!(rows[1].position, 2);
                    assert_eq!(rows[1].status, "FAILED");
                    assert_eq!(rows[0].name, "small");
                }
                _ => panic!("expected collected tests"),
            }
        }
        _ => panic!("expected checked"),
    }
    assert!(!state.test_bar);
}

#[test]
fn checker_stream_reported_tests_carry_debug_info_when_failed() {
    let mut state = CheckerStreamState::new();
    let failed_debug = obj(vec![("sample_differences", Json::Array(vec![f("0.2")]))]);
    let checked = obj(vec![
        ("status", s("CHECKED")),
        (
            "test_results",
            Json::Array(vec![
                obj(vec![("test_id", n(7)), ("name", s("a")), ("status", s("FAILED")), ("debug_info", failed_debug)]),
                obj(vec![("status", s("PASSED")), ("debug_info", obj(vec![]))]),
            ]),
        ),
    ]);
    match state.on_event(&checked) {
        CheckerStreamAction::Checked { passed, total, all_passed, tests, .. } => {
            assert_eq!((passed, total, all_passed), (0, 0, true));
            match tests {
                CheckedTests::Reported(rows) => {
                    assert_eq!(rows[0].test_id, 7);
                    assert!(rows[0].debug.is_some());
                    assert_eq!(rows[1].test_id, 0);
                    assert_eq!(rows[1].name, "Unknown test");
                    assert!(rows[1].debug.is_none());
                }
                _ => panic!("expected reported tests"),
            }
        }
        _ => panic!("expected checked"),
    }
}

#[test]
fn checker_stream_wrong_answer_goes_on() {
    let mut state = CheckerStreamState::new();
    let event = obj(vec![("status", s("WRONG_ANSWER")), ("debug_info", obj(vec![("message", s("off"))]))]);
    let action = state.on_event(&event);
    assert!(!action.ends_stream());
    match action {
        CheckerStreamAction::WrongAnswer { bar_finished, debug } => {
            assert!(!bar_finished);
            assert_eq!(debug.message.as_deref(), Some("off"));
        }
        _ => panic!("expected a wrong answer"),
    }
}

#[test]
fn benchmark_stream_reads_results_and_the_final_event() {
    let mut state = BenchmarkStreamState::new();
    assert!(matches!(
        state.on_event(&obj(vec![("status", s("SANITY_CHECK_PASSED"))])),
        BenchmarkStreamAction::Stage(Stage::SanityChecked)
    ));
    let result = obj(vec![("status", s("BENCHMARK_RESULT")), ("result", obj(vec![("name", s("r"))]))]);
    match state.on_event(&result) {
        BenchmarkStreamAction::Result(step) => {
            assert_eq!(step.new_bar, Some(0));
            assert_eq!(step.shown.expect("shown").position, 1);
        }
        _ => panic!("expected a result"),
    }
    assert!(state.bar);
    let partial = obj(vec![("avg_gflops", f("2.0")), ("avg_runtime_ms", f("1.0"))]);
    assert!(matches!(state.on_event(&partial), BenchmarkStreamAction::Nothing));
    let last = obj(vec![
        ("avg_gflops", f("2.0")),
        ("avg_runtime_ms", f("1.0")),
        ("benchmark_results", Json::Array(vec![obj(vec![])])),
    ]);
    match state.on_event(&last) {
        BenchmarkStreamAction::Final { bar_finished, results } => {
            assert!(bar_finished);
            assert_eq!(results.len(), 1);
        }
        _ => panic!("expected the final event"),
    }
    assert!(!state.bar);
}

#[test]
fn split_pieces_join_back_to_the_text() {
    for text in ["a\n\nb\n", "", "\n", "no newline", "x\r\ny"] {
        let pieces = tensara::text::split_on_char(text, '\n');
        assert_eq!(pieces.join("\n"), text);
    }
}
