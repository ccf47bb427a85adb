//! The server-sent events of the sample, checker and benchmark endpoints,
//! and the results the command line draws from them.
use crate::json::{
    clone_all, deep_clone, get, get_array, get_str, get_str_any, get_u64_any, json_get, json_seq_view, json_view,
    key_views, lemma_json_seq_view, str_any, str_field, u64_any, array_field, Json, JsonView,
    JsonNumber, number_any, number_view, get_number_any, clone_number, lemma_json_fields_view,
    json_fields_view, opt_json_view, opt_number_view,
};
use crate::text::{is_blank, opt_view, strip_prefix, str_eq, text_or, trim, trim_ws};
use vstd::prelude::*;

verus! {

/// The payload of a server-sent event line: the text after `data: `.
pub fn sse_data_payload(line: &str) -> (res: Option<String>)
    ensures
        res is Some <==> "data: "@.is_prefix_of(line@),
        res matches Some(p) ==> p@ == line@.skip(6),
{
    proof {
        reveal_strlit("data: ");
    }
    strip_prefix(line, "data: ")
}

/// The status an event carries.
pub open spec fn status_of(e: JsonView) -> Option<Seq<char>> {
    str_field(e, "status"@)
}

/// The statuses with which the checker or the benchmark stops on an error.
pub open spec fn is_error_status(s: Seq<char>) -> bool {
    ||| s == "COMPILE_ERROR"@
    ||| s == "RUNTIME_ERROR"@
    ||| s == "TIME_LIMIT_EXCEEDED"@
    ||| s == "MEMORY_LIMIT_EXCEEDED"@
    ||| s == "RATE_LIMIT_EXCEEDED"@
    ||| s == "SANDBOX_TIMEOUT"@
    ||| s == "SANDBOX_OUTPUT_LIMIT"@
    ||| s == "OUTPUT_LIMIT_EXCEEDED"@
    ||| s == "ERROR"@
}

pub fn is_error_status_exec(s: &str) -> (res: bool)
    ensures
        res == is_error_status(s@),
{
    str_eq(s, "COMPILE_ERROR") || str_eq(s, "RUNTIME_ERROR") || str_eq(s, "TIME_LIMIT_EXCEEDED")
        || str_eq(s, "MEMORY_LIMIT_EXCEEDED") || str_eq(s, "RATE_LIMIT_EXCEEDED") || str_eq(
        s,
        "SANDBOX_TIMEOUT",
    ) || str_eq(s, "SANDBOX_OUTPUT_LIMIT") || str_eq(s, "OUTPUT_LIMIT_EXCEEDED") || str_eq(
        s,
        "ERROR",
    )
}

/// Which stream an event may end.
#[derive(Clone, Copy, PartialEq, Eq, Structural, Debug)]
pub enum Stream {
    Checker,
    Benchmark,
}

/// An event that ends a stream: for the checker a `CHECKED`, `WRONG_ANSWER`
/// or error status; for the benchmark an `ACCEPTED`, `BENCHMARKED`,
/// `WRONG_ANSWER` or error status, or an event with both averages.
pub open spec fn ends_stream(stream: Stream, e: JsonView) -> bool {
    match stream {
        Stream::Checker => match status_of(e) {
            Some(s) => s == "CHECKED"@ || s == "WRONG_ANSWER"@ || is_error_status(s),
            None => false,
        },
        Stream::Benchmark => (match status_of(e) {
            Some(s) => s == "ACCEPTED"@ || s == "BENCHMARKED"@ || s == "WRONG_ANSWER"@
                || is_error_status(s),
            None => false,
        }) || (json_get(e, "avg_gflops"@) is Some && json_get(e, "avg_runtime_ms"@) is Some),
    }
}

fn ends_stream_exec(stream: Stream, e: &Json) -> (res: bool)
    ensures
        res == ends_stream(stream, json_view(*e)),
{
    let status = get_str(e, "status");
    match stream {
        Stream::Checker => match status {
            Some(s) => str_eq(s.as_str(), "CHECKED") || str_eq(s.as_str(), "WRONG_ANSWER")
                || is_error_status_exec(s.as_str()),
            None => false,
        },
        Stream::Benchmark => {
            let by_status = match status {
                Some(s) => str_eq(s.as_str(), "ACCEPTED") || str_eq(s.as_str(), "BENCHMARKED")
                    || str_eq(s.as_str(), "WRONG_ANSWER") || is_error_status_exec(s.as_str()),
                None => false,
            };
            by_status || (get(e, "avg_gflops").is_some() && get(e, "avg_runtime_ms").is_some())
        },
    }
}

/// The index of the last event that ends the stream.
pub open spec fn last_end(events: Seq<JsonView>, stream: Stream) -> Option<nat>
    decreases events.len(),
{
    if events.len() == 0 {
        None
    } else if ends_stream(stream, events.last()) {
        Some((events.len() - 1) as nat)
    } else {
        last_end(events.drop_last(), stream)
    }
}

/// The last event that ends the stream.
pub open spec fn final_event(events: Seq<JsonView>, stream: Stream) -> Option<JsonView> {
    match last_end(events, stream) {
        Some(i) => Some(events[i as int]),
        None => None,
    }
}

proof fn lemma_last_end(events: Seq<JsonView>, stream: Stream)
    ensures
        last_end(events, stream) matches Some(i) ==> i < events.len(),
    decreases events.len(),
{
    if events.len() > 0 && !ends_stream(stream, events.last()) {
        lemma_last_end(events.drop_last(), stream);
    }
}

/// The index of the last event that ends the stream.
fn find_final(events: &Vec<Json>, stream: Stream) -> (res: Option<usize>)
    ensures
        match res {
            Some(i) => i < events@.len() && last_end(json_seq_view(events@), stream) == Some(
                i as nat,
            ),
            None => last_end(json_seq_view(events@), stream) is None,
        },
{
    let ghost ev = json_seq_view(events@);
    proof {
        lemma_json_seq_view(events@);
        assert(ev.take(ev.len() as int) =~= ev);
    }
    let mut i = events.len();
    while i > 0
        invariant
            ev == json_seq_view(events@),
            ev.len() == events@.len(),
            forall|k: int| 0 <= k < events@.len() ==> #[trigger] ev[k] == json_view(events@[k]),
            i <= events@.len(),
            last_end(ev, stream) == last_end(ev.take(i as int), stream),
        decreases i,
    {
        proof {
            assert(ev.take(i as int).last() == ev[i - 1]);
            assert(ev.take(i as int).drop_last() =~= ev.take(i - 1));
        }
        if ends_stream_exec(stream, &events[i - 1]) {
            return Some(i - 1);
        }
        i -= 1;
    }
    None
}

/// The `result` of each event with the given status, in order.
pub open spec fn collected_results(events: Seq<JsonView>, status: Seq<char>) -> Seq<JsonView>
    decreases events.len(),
{
    if events.len() == 0 {
        Seq::empty()
    } else {
        let rest = collected_results(events.drop_last(), status);
        let e = events.last();
        if status_of(e) == Some(status) {
            match json_get(e, "result"@) {
                Some(r) => rest.push(r),
                None => rest,
            }
        } else {
            rest
        }
    }
}

/// The results of the events with this status.
fn collect_results(events: &Vec<Json>, status: &str) -> (res: Vec<Json>)
    ensures
        json_seq_view(res@) == collected_results(json_seq_view(events@), status@),
{
    let ghost ev = json_seq_view(events@);
    proof {
        lemma_json_seq_view(events@);
    }
    let mut res: Vec<Json> = Vec::new();
    let mut i: usize = 0;
    proof {
        assert(ev.take(0) =~= Seq::<JsonView>::empty());
        assert(json_seq_view(res@) =~= Seq::<JsonView>::empty());
    }
    while i < events.len()
        invariant
            ev == json_seq_view(events@),
            ev.len() == events@.len(),
            forall|k: int| 0 <= k < events@.len() ==> #[trigger] ev[k] == json_view(events@[k]),
            i <= events@.len(),
            json_seq_view(res@) == collected_results(ev.take(i as int), status@),
        decreases events@.len() - i,
    {
        proof {
            assert(ev.take(i + 1).last() == ev[i as int]);
            assert(ev.take(i + 1).drop_last() =~= ev.take(i as int));
        }
        let e = &events[i];
        let matches_status = match get_str(e, "status") {
            Some(s) => str_eq(s.as_str(), status),
            None => false,
        };
        if matches_status {
            match get(e, "result") {
                Some(r) => {
                    let ghost before = res@;
                    res.push(deep_clone(r));
                    proof {
                        lemma_json_seq_view(before);
                        lemma_json_seq_view(res@);
                        assert(json_seq_view(res@) =~= json_seq_view(before).push(json_view(*r)));
                    }
                },
                None => {},
            }
        }
        i += 1;
    }
    proof {
        assert(ev.take(i as int) =~= ev);
    }
    res
}

/// The array field of the final event when there is one, else the collected
/// results.
pub open spec fn array_or_collected(
    event: Option<JsonView>,
    field: Seq<char>,
    collected: Seq<JsonView>,
) -> Seq<JsonView> {
    match event {
        Some(e) => match array_field(e, field) {
            Some(a) => a,
            None => collected,
        },
        None => collected,
    }
}

/// How many results have the status `PASSED`.
pub open spec fn count_passed(results: Seq<JsonView>) -> nat
    decreases results.len(),
{
    if results.len() == 0 {
        0
    } else {
        count_passed(results.drop_last()) + if status_of(results.last()) == Some("PASSED"@) {
            1nat
        } else {
            0nat
        }
    }
}

proof fn lemma_count_passed_bound(results: Seq<JsonView>)
    ensures
        count_passed(results) <= results.len(),
    decreases results.len(),
{
    if results.len() > 0 {
        lemma_count_passed_bound(results.drop_last());
    }
}

fn count_passed_exec(results: &Vec<Json>) -> (res: u64)
    ensures
        res as nat == count_passed(json_seq_view(results@)),
{
    let ghost rv = json_seq_view(results@);
    proof {
        lemma_json_seq_view(results@);
        assert(rv.take(0) =~= Seq::<JsonView>::empty());
    }
    let mut n: u64 = 0;
    let mut i: usize = 0;
    while i < results.len()
        invariant
            rv == json_seq_view(results@),
            rv.len() == results@.len(),
            forall|k: int| 0 <= k < results@.len() ==> #[trigger] rv[k] == json_view(results@[k]),
            i <= results@.len(),
            n as nat == count_passed(rv.take(i as int)),
            n <= i,
        decreases results@.len() - i,
    {
        proof {
            assert(rv.take(i + 1).last() == rv[i as int]);
            assert(rv.take(i + 1).drop_last() =~= rv.take(i as int));
        }
        let passed = match get_str(&results[i], "status") {
            Some(s) => {
                proof {
                    reveal_strlit("PASSED");
                }
                str_eq(s.as_str(), "PASSED")
            },
            None => false,
        };
        if passed {
            n = n + 1;
        }
        i += 1;
    }
    proof {
        assert(rv.take(i as int) =~= rv);
    }
    n
}

/// What is shown of an event that ends a stream on an error.
pub struct ErrorEventReport {
    /// The event's status, or `ERROR`.
    pub status: String,
    /// The `error` or else `message` field, or a default text.
    pub message: String,
    /// The first of `details`, `stderr`, `traceback` that is a string, trimmed,
    /// when it is not blank.
    pub details: Option<String>,
}

pub open spec fn error_event_status(e: JsonView) -> Seq<char> {
    match status_of(e) {
        Some(s) => s,
        None => "ERROR"@,
    }
}

pub open spec fn error_event_message(e: JsonView) -> Seq<char> {
    match str_any(e, seq!["error"@, "message"@]) {
        Some(m) => m,
        None => "No error message returned by the server."@,
    }
}

pub open spec fn error_event_details(e: JsonView) -> Option<Seq<char>> {
    match str_any(e, seq!["details"@, "stderr"@, "traceback"@]) {
        Some(d) => if trim_ws(d).len() == 0 {
            None
        } else {
            Some(trim_ws(d))
        },
        None => None,
    }
}

pub open spec fn error_event_report_of(e: JsonView, r: ErrorEventReport) -> bool {
    &&& r.status@ == error_event_status(e)
    &&& r.message@ == error_event_message(e)
    &&& opt_view(r.details) == error_event_details(e)
}


pub fn error_event_report(event: &Json) -> (res: ErrorEventReport)
    ensures
        error_event_report_of(json_view(*event), res),
{
    let status = match get_str(event, "status") {
        Some(s) => s.clone(),
        None => String::from_str("ERROR"),
    };
    let message_keys = ["error", "message"];
    proof {
        assert(key_views(message_keys@) =~= seq!["error"@, "message"@]);
    }
    let message = match get_str_any(event, &message_keys) {
        Some(m) => m.clone(),
        None => String::from_str("No error message returned by the server."),
    };
    let detail_keys = ["details", "stderr", "traceback"];
    proof {
        assert(key_views(detail_keys@) =~= seq!["details"@, "stderr"@, "traceback"@]);
    }
    let details = match get_str_any(event, &detail_keys) {
        Some(d) => if is_blank(d.as_str()) {
            None
        } else {
            Some(trim(d.as_str()))
        },
        None => None,
    };
    ErrorEventReport { status, message, details }
}

/// How a checker run ended.
#[derive(Clone, Copy, PartialEq, Eq, Structural, Debug)]
pub enum CheckerVerdict {
    /// `CHECKED` with every test passed.
    Passed,
    /// `CHECKED` with a failed test, or `WRONG_ANSWER`.
    Failed,
    /// An error status.
    Errored,
    /// No event came.
    NoResponse,
    /// The stream ended before a final event.
    Incomplete,
}

/// The outcome of a checker run.
pub struct CheckerSummary {
    pub status: String,
    pub passed_tests: u64,
    pub total_tests: u64,
    pub test_results: Vec<Json>,
    /// The `debug_info` of the final event.
    pub debug_info: Option<Json>,
    /// The `error` or else `message` string of the final event.
    pub message: Option<String>,
    /// The `details` of the final event.
    pub details: Option<Json>,
    /// The error report of the final event, for an error verdict.
    pub error_report: Option<ErrorEventReport>,
    pub verdict: CheckerVerdict,
}

pub open spec fn checker_results(events: Seq<JsonView>) -> Seq<JsonView> {
    array_or_collected(
        final_event(events, Stream::Checker),
        "test_results"@,
        collected_results(events, "TEST_RESULT"@),
    )
}

/// The passed count the final event gives (`passed_tests` or `passedTests`),
/// else the number of passed results.
pub open spec fn checker_passed(events: Seq<JsonView>) -> int {
    let counted = count_passed(checker_results(events)) as int;
    match final_event(events, Stream::Checker) {
        Some(f) => match u64_any(f, seq!["passed_tests"@, "passedTests"@]) {
            Some(n) => n as int,
            None => counted,
        },
        None => counted,
    }
}

/// The total the final event gives (`total_tests` or `totalTests`), else the
/// number of results.
pub open spec fn checker_total(events: Seq<JsonView>) -> int {
    let counted = checker_results(events).len() as int;
    match final_event(events, Stream::Checker) {
        Some(f) => match u64_any(f, seq!["total_tests"@, "totalTests"@]) {
            Some(n) => n as int,
            None => counted,
        },
        None => counted,
    }
}

/// The status of the final event; without one, `NO_RESPONSE` when no event
/// came and `INCOMPLETE` otherwise.
pub open spec fn run_status(events: Seq<JsonView>, stream: Stream) -> Seq<char> {
    let fallback = if events.len() == 0 {
        "NO_RESPONSE"@
    } else {
        "INCOMPLETE"@
    };
    match final_event(events, stream) {
        Some(f) => match status_of(f) {
            Some(s) => s,
            None => fallback,
        },
        None => fallback,
    }
}

pub open spec fn checker_verdict(status: Seq<char>, passed: int, total: int) -> CheckerVerdict {
    if status == "CHECKED"@ && passed == total {
        CheckerVerdict::Passed
    } else if status == "CHECKED"@ || status == "WRONG_ANSWER"@ {
        CheckerVerdict::Failed
    } else if is_error_status(status) {
        CheckerVerdict::Errored
    } else if status == "NO_RESPONSE"@ {
        CheckerVerdict::NoResponse
    } else {
        CheckerVerdict::Incomplete
    }
}

/// A field of the final event, when there is a final event.
pub open spec fn final_field(events: Seq<JsonView>, stream: Stream, key: Seq<char>) -> Option<JsonView> {
    match final_event(events, stream) {
        Some(f) => json_get(f, key),
        None => None,
    }
}

/// The `error` or else `message` string of the final event.
pub open spec fn final_message(events: Seq<JsonView>, stream: Stream) -> Option<Seq<char>> {
    match final_event(events, stream) {
        Some(f) => str_any(f, seq!["error"@, "message"@]),
        None => None,
    }
}

/// The error report of the final event, for an error status.
pub open spec fn final_error_report(
    events: Seq<JsonView>,
    stream: Stream,
    errored: bool,
    report: Option<ErrorEventReport>,
) -> bool {
    match final_event(events, stream) {
        Some(f) => if errored {
            report matches Some(r) && error_event_report_of(f, r)
        } else {
            report is None
        },
        None => report is None,
    }
}

fn field_copy(event: Option<&Json>, key: &str) -> (res: Option<Json>)
    ensures
        opt_json_view(res) == match event {
            Some(e) => json_get(json_view(*e), key@),
            None => None,
        },
{
    match event {
        Some(e) => match get(e, key) {
            Some(v) => Some(deep_clone(v)),
            None => None,
        },
        None => None,
    }
}

fn message_of(event: Option<&Json>) -> (res: Option<String>)
    ensures
        opt_view(res) == match event {
            Some(e) => str_any(json_view(*e), seq!["error"@, "message"@]),
            None => None,
        },
{
    match event {
        Some(e) => {
            let keys = ["error", "message"];
            proof {
                assert(key_views(keys@) =~= seq!["error"@, "message"@]);
            }
            match get_str_any(e, &keys) {
                Some(m) => Some(m.clone()),
                None => None,
            }
        },
        None => None,
    }
}

fn run_status_exec(events: &Vec<Json>, final_index: Option<usize>, stream: Stream) -> (res: String)
    requires
        match final_index {
            Some(i) => i < events@.len() && final_event(json_seq_view(events@), stream) == Some(
                json_view(events@[i as int]),
            ),
            None => final_event(json_seq_view(events@), stream) is None,
        },
    ensures
        res@ == run_status(json_seq_view(events@), stream),
{
    proof {
        lemma_json_seq_view(events@);
    }
    let status = match final_index {
        Some(i) => get_str(&events[i], "status"),
        None => None,
    };
    match status {
        Some(s) => s.clone(),
        None => if events.len() == 0 {
            String::from_str("NO_RESPONSE")
        } else {
            String::from_str("INCOMPLETE")
        },
    }
}

/// The outcome of a checker run, from its events in order.
pub fn summarize_checker(events: &Vec<Json>) -> (res: CheckerSummary)
    ensures
        ({
            let ev = json_seq_view(events@);
            &&& res.status@ == run_status(ev, Stream::Checker)
            &&& res.passed_tests as int == checker_passed(ev)
            &&& res.total_tests as int == checker_total(ev)
            &&& json_seq_view(res.test_results@) == checker_results(ev)
            &&& opt_json_view(res.debug_info) == final_field(ev, Stream::Checker, "debug_info"@)
            &&& opt_view(res.message) == final_message(ev, Stream::Checker)
            &&& opt_json_view(res.details) == final_field(ev, Stream::Checker, "details"@)
            &&& res.verdict == checker_verdict(
                run_status(ev, Stream::Checker),
                checker_passed(ev),
                checker_total(ev),
            )
            &&& final_error_report(
                ev,
                Stream::Checker,
                res.verdict == CheckerVerdict::Errored,
                res.error_report,
            )
        }),
        res.status@ == "CHECKED"@ ==> (res.verdict == CheckerVerdict::Passed <==> res.passed_tests
            == res.total_tests),
{
    let ghost ev = json_seq_view(events@);
    proof {
        lemma_json_seq_view(events@);
    }
    let final_index = find_final(events, Stream::Checker);
    let final_ref: Option<&Json> = match final_index {
        Some(i) => Some(&events[i]),
        None => None,
    };
    let collected = collect_results(events, "TEST_RESULT");
    let test_results = match final_ref {
        Some(f) => match get_array(f, "test_results") {
            Some(a) => clone_all(a),
            None => collected,
        },
        None => collected,
    };
    let counted = count_passed_exec(&test_results);
    proof {
        lemma_json_seq_view(test_results@);
    }
    let passed_keys = ["passed_tests", "passedTests"];
    let total_keys = ["total_tests", "totalTests"];
    proof {
        assert(key_views(passed_keys@) =~= seq!["passed_tests"@, "passedTests"@]);
        assert(key_views(total_keys@) =~= seq!["total_tests"@, "totalTests"@]);
    }
    let passed_tests = match final_ref {
        Some(f) => match get_u64_any(f, &passed_keys) {
            Some(n) => n,
            None => counted,
        },
        None => counted,
    };
    let total_tests = match final_ref {
        Some(f) => match get_u64_any(f, &total_keys) {
            Some(n) => n,
            None => test_results.len() as u64,
        },
        None => test_results.len() as u64,
    };
    let status = run_status_exec(events, final_index, Stream::Checker);
    let verdict = if str_eq(status.as_str(), "CHECKED") && passed_tests == total_tests {
        CheckerVerdict::Passed
    } else if str_eq(status.as_str(), "CHECKED") || str_eq(status.as_str(), "WRONG_ANSWER") {
        CheckerVerdict::Failed
    } else if is_error_status_exec(status.as_str()) {
        CheckerVerdict::Errored
    } else if str_eq(status.as_str(), "NO_RESPONSE") {
        CheckerVerdict::NoResponse
    } else {
        CheckerVerdict::Incomplete
    };
    let error_report = match final_ref {
        Some(f) => if verdict == CheckerVerdict::Errored {
            Some(error_event_report(f))
        } else {
            None
        },
        None => None,
    };
    proof {
        lemma_checked_run_passes_only_when_all_tests_pass(
            status@,
            passed_tests as int,
            total_tests as int,
        );
    }
    CheckerSummary {
        status,
        passed_tests,
        total_tests,
        test_results,
        debug_info: field_copy(final_ref, "debug_info"),
        message: message_of(final_ref),
        details: field_copy(final_ref, "details"),
        error_report,
        verdict,
    }
}

/// How a benchmark run ended.
#[derive(Clone, Copy, PartialEq, Eq, Structural, Debug)]
pub enum BenchmarkVerdict {
    /// `ACCEPTED` or `BENCHMARKED`.
    Accepted,
    WrongAnswer,
    /// An error status.
    Errored,
    /// No event came.
    NoResponse,
    /// The stream ended before a final event.
    Incomplete,
}

/// The outcome of a benchmark run.
pub struct BenchmarkSummary {
    pub status: String,
    pub avg_gflops: Option<JsonNumber>,
    pub avg_runtime_ms: Option<JsonNumber>,
    pub benchmark_results: Vec<Json>,
    /// The `error` or else `message` string of the final event.
    pub message: Option<String>,
    /// The `details` of the final event.
    pub details: Option<Json>,
    /// The `debug_info` of the final event.
    pub debug_info: Option<Json>,
    /// The error report of the final event, for an error verdict.
    pub error_report: Option<ErrorEventReport>,
    pub verdict: BenchmarkVerdict,
}

pub open spec fn benchmark_results(events: Seq<JsonView>) -> Seq<JsonView> {
    array_or_collected(
        final_event(events, Stream::Benchmark),
        "benchmark_results"@,
        collected_results(events, "BENCHMARK_RESULT"@),
    )
}

/// The status of the final event; a final event without one (an event with
/// both averages) counts as `ACCEPTED`; without a final event, `NO_RESPONSE`
/// when no event came and `INCOMPLETE` otherwise.
pub open spec fn benchmark_status(events: Seq<JsonView>) -> Seq<char> {
    match final_event(events, Stream::Benchmark) {
        Some(f) => match status_of(f) {
            Some(s) => s,
            None => "ACCEPTED"@,
        },
        None => if events.len() == 0 {
            "NO_RESPONSE"@
        } else {
            "INCOMPLETE"@
        },
    }
}

pub open spec fn benchmark_verdict(status: Seq<char>) -> BenchmarkVerdict {
    if status == "ACCEPTED"@ || status == "BENCHMARKED"@ {
        BenchmarkVerdict::Accepted
    } else if status == "WRONG_ANSWER"@ {
        BenchmarkVerdict::WrongAnswer
    } else if is_error_status(status) {
        BenchmarkVerdict::Errored
    } else if status == "NO_RESPONSE"@ {
        BenchmarkVerdict::NoResponse
    } else {
        BenchmarkVerdict::Incomplete
    }
}

/// The first of `keys` of the final event that is a number.
pub open spec fn final_number(events: Seq<JsonView>, keys: Seq<Seq<char>>) -> Option<JsonView> {
    match final_event(events, Stream::Benchmark) {
        Some(f) => number_any(f, keys),
        None => None,
    }
}

fn number_of(event: Option<&Json>, keys: &[&str]) -> (res: Option<JsonNumber>)
    ensures
        opt_number_view(res) == match event {
            Some(e) => number_any(json_view(*e), key_views(keys@)),
            None => None,
        },
{
    match event {
        Some(e) => match get_number_any(e, keys) {
            Some(n) => Some(clone_number(n)),
            None => None,
        },
        None => None,
    }
}

/// The outcome of a benchmark run, from its events in order.
pub fn summarize_benchmark(events: &Vec<Json>) -> (res: BenchmarkSummary)
    ensures
        ({
            let ev = json_seq_view(events@);
            &&& res.status@ == benchmark_status(ev)
            &&& opt_number_view(res.avg_gflops) == final_number(ev, seq!["avg_gflops"@, "avgGflops"@])
            &&& opt_number_view(res.avg_runtime_ms) == final_number(
                ev,
                seq!["avg_runtime_ms"@, "avgRuntimeMs"@],
            )
            &&& json_seq_view(res.benchmark_results@) == benchmark_results(ev)
            &&& opt_view(res.message) == final_message(ev, Stream::Benchmark)
            &&& opt_json_view(res.details) == final_field(ev, Stream::Benchmark, "details"@)
            &&& opt_json_view(res.debug_info) == final_field(ev, Stream::Benchmark, "debug_info"@)
            &&& res.verdict == benchmark_verdict(benchmark_status(ev))
            &&& final_error_report(
                ev,
                Stream::Benchmark,
                res.verdict == BenchmarkVerdict::Errored,
                res.error_report,
            )
        }),
{
    let ghost ev = json_seq_view(events@);
    proof {
        lemma_json_seq_view(events@);
    }
    let final_index = find_final(events, Stream::Benchmark);
    let final_ref: Option<&Json> = match final_index {
        Some(i) => Some(&events[i]),
        None => None,
    };
    let collected = collect_results(events, "BENCHMARK_RESULT");
    let benchmark_results = match final_ref {
        Some(f) => match get_array(f, "benchmark_results") {
            Some(a) => clone_all(a),
            None => collected,
        },
        None => collected,
    };
    let gflops_keys = ["avg_gflops", "avgGflops"];
    let runtime_keys = ["avg_runtime_ms", "avgRuntimeMs"];
    proof {
        assert(key_views(gflops_keys@) =~= seq!["avg_gflops"@, "avgGflops"@]);
        assert(key_views(runtime_keys@) =~= seq!["avg_runtime_ms"@, "avgRuntimeMs"@]);
    }
    let avg_gflops = number_of(final_ref, &gflops_keys);
    let avg_runtime_ms = number_of(final_ref, &runtime_keys);
    let status = match final_ref {
        Some(f) => match get_str(f, "status") {
            Some(s) => s.clone(),
            None => String::from_str("ACCEPTED"),
        },
        None => if events.len() == 0 {
            String::from_str("NO_RESPONSE")
        } else {
            String::from_str("INCOMPLETE")
        },
    };
    let verdict = if str_eq(status.as_str(), "ACCEPTED") || str_eq(status.as_str(), "BENCHMARKED") {
        BenchmarkVerdict::Accepted
    } else if str_eq(status.as_str(), "WRONG_ANSWER") {
        BenchmarkVerdict::WrongAnswer
    } else if is_error_status_exec(status.as_str()) {
        BenchmarkVerdict::Errored
    } else if str_eq(status.as_str(), "NO_RESPONSE") {
        BenchmarkVerdict::NoResponse
    } else {
        BenchmarkVerdict::Incomplete
    };
    let error_report = match final_ref {
        Some(f) => if verdict == BenchmarkVerdict::Errored {
            Some(error_event_report(f))
        } else {
            None
        },
        None => None,
    };
    BenchmarkSummary {
        status,
        avg_gflops,
        avg_runtime_ms,
        benchmark_results,
        message: message_of(final_ref),
        details: field_copy(final_ref, "details"),
        debug_info: field_copy(final_ref, "debug_info"),
        error_report,
        verdict,
    }
}

/// A field of a result, or `null` when it is missing.
pub open spec fn field_or_null(r: JsonView, key: Seq<char>) -> JsonView {
    match json_get(r, key) {
        Some(v) => v,
        None => JsonView::Null,
    }
}

/// A benchmark result cut down to its test id, name, GFLOPS, runtime and
/// status (`PASSED` when it has none); missing fields become `null`.
pub open spec fn compact_result(r: JsonView) -> JsonView {
    JsonView::Object(
        seq![
            ("test_id"@, field_or_null(r, "test_id"@)),
            ("name"@, field_or_null(r, "name"@)),
            ("gflops"@, field_or_null(r, "gflops"@)),
            ("runtime_ms"@, field_or_null(r, "runtime_ms"@)),
            ("status"@, match json_get(r, "status"@) {
                Some(v) => v,
                None => JsonView::Str("PASSED"@),
            }),
        ],
    )
}

fn copy_or_null(r: &Json, key: &str) -> (res: Json)
    ensures
        json_view(res) == field_or_null(json_view(*r), key@),
{
    match get(r, key) {
        Some(v) => deep_clone(v),
        None => Json::Null,
    }
}

fn compact_one(r: &Json) -> (res: Json)
    ensures
        json_view(res) == compact_result(json_view(*r)),
{
    let mut fields: Vec<(String, Json)> = Vec::new();
    fields.push((String::from_str("test_id"), copy_or_null(r, "test_id")));
    fields.push((String::from_str("name"), copy_or_null(r, "name")));
    fields.push((String::from_str("gflops"), copy_or_null(r, "gflops")));
    fields.push((String::from_str("runtime_ms"), copy_or_null(r, "runtime_ms")));
    let status = match get(r, "status") {
        Some(v) => deep_clone(v),
        None => Json::Str(String::from_str("PASSED")),
    };
    fields.push((String::from_str("status"), status));
    proof {
        lemma_json_fields_view(fields@);
        assert(json_fields_view(fields@) =~= compact_result(json_view(*r))->Object_0);
    }
    Json::Object(fields)
}

/// The benchmark results as the JSON output lists them.
pub fn compact_benchmark_results(results: &Vec<Json>) -> (res: Vec<Json>)
    ensures
        json_seq_view(res@) == json_seq_view(results@).map_values(|r: JsonView| compact_result(r)),
{
    let ghost rv = json_seq_view(results@);
    proof {
        lemma_json_seq_view(results@);
    }
    let mut res: Vec<Json> = Vec::new();
    let mut i: usize = 0;
    while i < results.len()
        invariant
            rv == json_seq_view(results@),
            rv.len() == results@.len(),
            forall|k: int| 0 <= k < results@.len() ==> #[trigger] rv[k] == json_view(results@[k]),
            i <= results@.len(),
            res@.len() == i,
            forall|k: int| 0 <= k < i ==> json_view(#[trigger] res@[k]) == compact_result(rv[k]),
        decreases results@.len() - i,
    {
        res.push(compact_one(&results[i]));
        i += 1;
    }
    proof {
        lemma_json_seq_view(res@);
        assert(json_seq_view(res@) =~= rv.map_values(|r: JsonView| compact_result(r)));
    }
    res
}

/// One test result as the checker lists it.
pub struct TestRow {
    /// The result's name, or `Unnamed`.
    pub name: String,
    /// The result's status, or `UNKNOWN`.
    pub status: String,
}

pub fn test_row(result: &Json) -> (res: TestRow)
    ensures
        res.name@ == text_or(str_field(json_view(*result), "name"@), "Unnamed"@),
        res.status@ == text_or(status_of(json_view(*result)), "UNKNOWN"@),
{
    let name = match get_str(result, "name") {
        Some(n) => n.clone(),
        None => String::from_str("Unnamed"),
    };
    let status = match get_str(result, "status") {
        Some(s) => s.clone(),
        None => String::from_str("UNKNOWN"),
    };
    TestRow { name, status }
}

/// One benchmark result as the benchmark table lists it.
pub struct BenchmarkRow {
    /// The result's name, or `Unnamed`.
    pub name: String,
    /// Its `gflops` number.
    pub gflops: Option<JsonNumber>,
    /// Its `runtime_ms` or else `runtimeMs` number.
    pub runtime_ms: Option<JsonNumber>,
}

pub fn benchmark_row(result: &Json) -> (res: BenchmarkRow)
    ensures
        res.name@ == text_or(str_field(json_view(*result), "name"@), "Unnamed"@),
        opt_number_view(res.gflops) == number_any(json_view(*result), seq!["gflops"@]),
        opt_number_view(res.runtime_ms) == number_any(
            json_view(*result),
            seq!["runtime_ms"@, "runtimeMs"@],
        ),
{
    let name = match get_str(result, "name") {
        Some(n) => n.clone(),
        None => String::from_str("Unnamed"),
    };
    let gflops_keys = ["gflops"];
    let runtime_keys = ["runtime_ms", "runtimeMs"];
    proof {
        assert(key_views(gflops_keys@) =~= seq!["gflops"@]);
        assert(key_views(runtime_keys@) =~= seq!["runtime_ms"@, "runtimeMs"@]);
    }
    BenchmarkRow {
        name,
        gflops: number_of(Some(result), &gflops_keys),
        runtime_ms: number_of(Some(result), &runtime_keys),
    }
}

/// The statuses with which a sample run stops on an error.
pub open spec fn is_sample_error_status(s: Seq<char>) -> bool {
    ||| s == "COMPILE_ERROR"@
    ||| s == "RUNTIME_ERROR"@
    ||| s == "TIME_LIMIT_EXCEEDED"@
    ||| s == "TOO_MANY_REQUESTS"@
    ||| s == "RATE_LIMIT_EXCEEDED"@
    ||| s == "SANDBOX_TIMEOUT"@
    ||| s == "SANDBOX_OUTPUT_LIMIT"@
    ||| s == "OUTPUT_LIMIT_EXCEEDED"@
    ||| s == "ERROR"@
}

/// What one event of a sample run calls for.
pub enum SampleStep {
    /// The sample passed: the input, the expected and the actual output, and
    /// the captured stdout and stderr (trimmed) when not blank.
    Passed {
        input: Option<Json>,
        expected_output: Option<Json>,
        output: Option<Json>,
        stdout: Option<String>,
        stderr: Option<String>,
    },
    /// The sample failed: the input, the expected and the actual output, the
    /// debug information, and the captured stdout and stderr (trimmed) when
    /// not blank.
    Failed {
        input: Option<Json>,
        expected_output: Option<Json>,
        output: Option<Json>,
        debug_info: Option<Json>,
        stdout: Option<String>,
        stderr: Option<String>,
    },
    /// The run stopped on an error: its status, its `message` or else `error`
    /// (or a default text) and its `details`.
    Errored { status: String, message: String, details: Option<String> },
    /// The run goes on; the status to show.
    Progress(String),
    /// An event without a status.
    Waiting,
}

/// A captured output as it is shown: trimmed, and only when not blank.
pub open spec fn shown_output(e: JsonView, key: Seq<char>) -> Option<Seq<char>> {
    match str_field(e, key) {
        Some(s) => if trim_ws(s).len() == 0 {
            None
        } else {
            Some(trim_ws(s))
        },
        None => None,
    }
}

pub open spec fn sample_step_of(e: JsonView, step: SampleStep) -> bool {
    match status_of(e) {
        Some(s) => if s == "PASSED"@ {
            step matches SampleStep::Passed { input, expected_output, output, stdout, stderr }
                && opt_json_view(input) == json_get(e, "input"@) && opt_json_view(expected_output)
                == json_get(e, "expected_output"@) && opt_json_view(output) == json_get(
                e,
                "output"@,
            ) && opt_view(stdout) == shown_output(e, "stdout"@) && opt_view(stderr)
                == shown_output(e, "stderr"@)
        } else if s == "FAILED"@ {
            step matches SampleStep::Failed {
                input,
                expected_output,
                output,
                debug_info,
                stdout,
                stderr,
            } && opt_json_view(input) == json_get(e, "input"@) && opt_json_view(expected_output)
                == json_get(e, "expected_output"@) && opt_json_view(output) == json_get(
                e,
                "output"@,
            ) && opt_json_view(debug_info) == json_get(e, "debug_info"@) && opt_view(stdout)
                == shown_output(e, "stdout"@) && opt_view(stderr) == shown_output(e, "stderr"@)
        } else if is_sample_error_status(s) {
            step matches SampleStep::Errored { status, message, details } && status@ == s
                && message@ == text_or(str_any(e, seq!["message"@, "error"@]), "Sample run failed"@)
                && opt_view(details) == str_field(e, "details"@)
        } else {
            step matches SampleStep::Progress(p) && p@ == s
        },
        None => step is Waiting,
    }
}

fn is_sample_error_status_exec(s: &str) -> (res: bool)
    ensures
        res == is_sample_error_status(s@),
{
    str_eq(s, "COMPILE_ERROR") || str_eq(s, "RUNTIME_ERROR") || str_eq(s, "TIME_LIMIT_EXCEEDED")
        || str_eq(s, "TOO_MANY_REQUESTS") || str_eq(s, "RATE_LIMIT_EXCEEDED") || str_eq(
        s,
        "SANDBOX_TIMEOUT",
    ) || str_eq(s, "SANDBOX_OUTPUT_LIMIT") || str_eq(s, "OUTPUT_LIMIT_EXCEEDED") || str_eq(
        s,
        "ERROR",
    )
}

fn shown_output_exec(e: &Json, key: &str) -> (res: Option<String>)
    ensures
        opt_view(res) == shown_output(json_view(*e), key@),
{
    match get_str(e, key) {
        Some(s) => if is_blank(s.as_str()) {
            None
        } else {
            Some(trim(s.as_str()))
        },
        None => None,
    }
}

/// What one event of a sample run calls for.
pub fn sample_step(event: &Json) -> (res: SampleStep)
    ensures
        sample_step_of(json_view(*event), res),
{
    let e = Some(event);
    match get_str(event, "status") {
        Some(s) => {
            if str_eq(s.as_str(), "PASSED") {
                SampleStep::Passed {
                    input: field_copy(e, "input"),
                    expected_output: field_copy(e, "expected_output"),
                    output: field_copy(e, "output"),
                    stdout: shown_output_exec(event, "stdout"),
                    stderr: shown_output_exec(event, "stderr"),
                }
            } else if str_eq(s.as_str(), "FAILED") {
                SampleStep::Failed {
                    input: field_copy(e, "input"),
                    expected_output: field_copy(e, "expected_output"),
                    output: field_copy(e, "output"),
                    debug_info: field_copy(e, "debug_info"),
                    stdout: shown_output_exec(event, "stdout"),
                    stderr: shown_output_exec(event, "stderr"),
                }
            } else if is_sample_error_status_exec(s.as_str()) {
                let keys = ["message", "error"];
                proof {
                    assert(key_views(keys@) =~= seq!["message"@, "error"@]);
                }
                let message = match get_str_any(event, &keys) {
                    Some(m) => m.clone(),
                    None => String::from_str("Sample run failed"),
                };
                let details = match get_str(event, "details") {
                    Some(d) => Some(d.clone()),
                    None => None,
                };
                SampleStep::Errored { status: s.clone(), message, details }
            } else {
                SampleStep::Progress(s.clone())
            }
        },
        None => SampleStep::Waiting,
    }
}

/// A checker run that ends in `CHECKED` passes exactly when every test
/// passed: with fewer passed tests than the total it fails. A run that ends
/// in `WRONG_ANSWER` fails.
pub proof fn lemma_checked_run_passes_only_when_all_tests_pass(status: Seq<char>, passed: int, total: int)
    ensures
        status == "CHECKED"@ ==> (checker_verdict(status, passed, total) == CheckerVerdict::Passed
            <==> passed == total),
        status == "CHECKED"@ && passed != total ==> checker_verdict(status, passed, total)
            == CheckerVerdict::Failed,
        status == "WRONG_ANSWER"@ ==> checker_verdict(status, passed, total) == CheckerVerdict::Failed,
{
    reveal_strlit("CHECKED");
    reveal_strlit("WRONG_ANSWER");
    assert("CHECKED"@.len() != "WRONG_ANSWER"@.len());
}

/// An event whose status is one of the errors that stop a checker or a
/// benchmark run (`COMPILE_ERROR`, `RUNTIME_ERROR`, `TIME_LIMIT_EXCEEDED`,
/// `MEMORY_LIMIT_EXCEEDED`, `RATE_LIMIT_EXCEEDED`, `SANDBOX_TIMEOUT`,
/// `SANDBOX_OUTPUT_LIMIT`, `OUTPUT_LIMIT_EXCEEDED`, `ERROR`) ends the run
/// when it comes last: the run's status is that status, its verdict is
/// `Errored`, and its error report is that event's.
pub proof fn lemma_error_event_ends_the_run(events: Seq<JsonView>, s: Seq<char>)
    requires
        events.len() > 0,
        status_of(events.last()) == Some(s),
        s == "COMPILE_ERROR"@ || s == "RUNTIME_ERROR"@ || s == "TIME_LIMIT_EXCEEDED"@ || s
            == "MEMORY_LIMIT_EXCEEDED"@ || s == "RATE_LIMIT_EXCEEDED"@ || s == "SANDBOX_TIMEOUT"@ || s
            == "SANDBOX_OUTPUT_LIMIT"@ || s == "OUTPUT_LIMIT_EXCEEDED"@ || s == "ERROR"@,
    ensures
        final_event(events, Stream::Checker) == Some(events.last()),
        final_event(events, Stream::Benchmark) == Some(events.last()),
        run_status(events, Stream::Checker) == s,
        benchmark_status(events) == s,
        forall|passed: int, total: int| #[trigger] checker_verdict(s, passed, total) == CheckerVerdict::Errored,
        benchmark_verdict(s) == BenchmarkVerdict::Errored,
        forall|r: Option<ErrorEventReport>| #[trigger] final_error_report(events, Stream::Checker, true, r)
            <==> (r matches Some(x) && error_event_report_of(events.last(), x)),
        forall|r: Option<ErrorEventReport>| #[trigger] final_error_report(events, Stream::Benchmark, true, r)
            <==> (r matches Some(x) && error_event_report_of(events.last(), x)),
{
    reveal_strlit("COMPILE_ERROR");
    reveal_strlit("RUNTIME_ERROR");
    reveal_strlit("TIME_LIMIT_EXCEEDED");
    reveal_strlit("MEMORY_LIMIT_EXCEEDED");
    reveal_strlit("RATE_LIMIT_EXCEEDED");
    reveal_strlit("SANDBOX_TIMEOUT");
    reveal_strlit("SANDBOX_OUTPUT_LIMIT");
    reveal_strlit("OUTPUT_LIMIT_EXCEEDED");
    reveal_strlit("ERROR");
    reveal_strlit("CHECKED");
    reveal_strlit("WRONG_ANSWER");
    reveal_strlit("ACCEPTED");
    reveal_strlit("BENCHMARKED");
    reveal_strlit("NO_RESPONSE");
    assert(s.len() != 7 && s.len() != 8 && s.len() != 11 && s.len() != 12);
    assert(is_error_status(s));
    assert(ends_stream(Stream::Checker, events.last()));
    assert(ends_stream(Stream::Benchmark, events.last()));
    assert(events[events.len() - 1] == events.last());
}

/// A sample event whose status is one of the errors that stop a sample run
/// (`COMPILE_ERROR`, `RUNTIME_ERROR`, `TIME_LIMIT_EXCEEDED`,
/// `TOO_MANY_REQUESTS`, `RATE_LIMIT_EXCEEDED`, `SANDBOX_TIMEOUT`,
/// `SANDBOX_OUTPUT_LIMIT`, `OUTPUT_LIMIT_EXCEEDED`, `ERROR`) is an error
/// step: it carries that status, the event's `message` (else its `error`,
/// else `Sample run failed`) and its `details`.
pub proof fn lemma_sample_error_status_stops_the_run(e: JsonView, s: Seq<char>, step: SampleStep)
    requires
        status_of(e) == Some(s),
        s == "COMPILE_ERROR"@ || s == "RUNTIME_ERROR"@ || s == "TIME_LIMIT_EXCEEDED"@ || s
            == "TOO_MANY_REQUESTS"@ || s == "RATE_LIMIT_EXCEEDED"@ || s == "SANDBOX_TIMEOUT"@ || s
            == "SANDBOX_OUTPUT_LIMIT"@ || s == "OUTPUT_LIMIT_EXCEEDED"@ || s == "ERROR"@,
        sample_step_of(e, step),
    ensures
        step matches SampleStep::Errored { status, message, details } && status@ == s && message@
            == text_or(str_any(e, seq!["message"@, "error"@]), "Sample run failed"@) && opt_view(details)
            == str_field(e, "details"@),
{
    reveal_strlit("COMPILE_ERROR");
    reveal_strlit("RUNTIME_ERROR");
    reveal_strlit("TIME_LIMIT_EXCEEDED");
    reveal_strlit("TOO_MANY_REQUESTS");
    reveal_strlit("RATE_LIMIT_EXCEEDED");
    reveal_strlit("SANDBOX_TIMEOUT");
    reveal_strlit("SANDBOX_OUTPUT_LIMIT");
    reveal_strlit("OUTPUT_LIMIT_EXCEEDED");
    reveal_strlit("ERROR");
    reveal_strlit("PASSED");
    reveal_strlit("FAILED");
    assert(s.len() != 6);
    assert(is_sample_error_status(s));
}

} // verus!
