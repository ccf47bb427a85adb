//! The state machines that follow the event stream of a submission, of the
//! streaming checker and of the streaming benchmark. Each takes one event,
//! updates what it counts, and says what the command line shows for it.
use crate::debug::{debug_report, debug_report_of, DebugReport, SampleLayout};
use crate::events::status_of;
use crate::json::{
    clone_all, deep_clone, get, get_array, get_str, get_u64, json_get, json_seq_view, json_view,
    lemma_json_seq_view, array_field, str_field, u64_field, Json, JsonView,
};
use crate::text::{
    contains, contains_seq, lemma_split_char_append, lemma_split_char_last, lines, split_char,
    split_lines, split_on_char, opt_view, str_eq, strip_prefix, text_or, trim, trim_ws, views,
};
use vstd::prelude::*;

verus! {

/// A stage of a run that the spinner names.
#[derive(Clone, Copy, PartialEq, Eq, Structural, Debug)]
pub enum Stage {
    InQueue,
    Compiling,
    Checking,
    SanityChecked,
    Benchmarking,
}

/// The progress bar on screen during a submission.
#[derive(Clone, Copy, PartialEq, Eq, Structural, Debug)]
pub enum Bar {
    Tests,
    Benchmarks,
}

/// The benchmark results counted so far: the total the first result
/// announced, how many came, and the results themselves.
pub struct BenchmarkTally {
    pub total: u64,
    pub completed: u64,
    pub results: Vec<Json>,
}

impl BenchmarkTally {
    pub fn new() -> (res: Self)
        ensures
            tally_view(res) == (0u64, 0u64, Seq::<JsonView>::empty()),
    {
        let res = BenchmarkTally { total: 0, completed: 0, results: Vec::new() };
        proof {
            assert(json_seq_view(res.results@) =~= Seq::<JsonView>::empty());
        }
        res
    }
}

pub open spec fn tally_view(t: BenchmarkTally) -> (u64, u64, Seq<JsonView>) {
    (t.total, t.completed, json_seq_view(t.results@))
}

/// A benchmark result as the progress bar shows it: the bar's new position,
/// the result's name and the result.
pub struct BenchmarkProgress {
    pub position: u64,
    pub name: String,
    pub result: Json,
}

/// What a benchmark result does to the progress bar: the length of a new bar
/// that replaces the current one, and the result shown on the bar.
pub struct BenchmarkStep {
    pub new_bar: Option<u64>,
    pub shown: Option<BenchmarkProgress>,
}

pub open spec fn step_view(s: BenchmarkStep) -> (Option<u64>, Option<(u64, Seq<char>, JsonView)>) {
    (
        s.new_bar,
        match s.shown {
            Some(p) => Some((p.position, p.name@, json_view(p.result))),
            None => None,
        },
    )
}

/// The `name` of a result, or `default`.
pub open spec fn name_or(r: JsonView, default: Seq<char>) -> Seq<char> {
    text_or(str_field(r, "name"@), default)
}

/// A benchmark result event `v` counted into tally `t` while a bar is on
/// screen or not: the first result (while the total is 0) sets the total
/// from `total_tests` (0 when missing) and opens a new bar of that length;
/// an event with a `result` adds it to the results, and the bar, if any,
/// moves to the new count and shows the result's name (`Unnamed` by default).
pub open spec fn benchmark_step(t: (u64, u64, Seq<JsonView>), bar: bool, v: JsonView) -> (
    (u64, u64, Seq<JsonView>),
    (Option<u64>, Option<(u64, Seq<char>, JsonView)>),
) {
    let total = if t.0 == 0 {
        match u64_field(v, "total_tests"@) {
            Some(n) => n,
            None => 0u64,
        }
    } else {
        t.0
    };
    let new_bar = if t.0 == 0 {
        Some(total)
    } else {
        None
    };
    match json_get(v, "result"@) {
        Some(r) => {
            let c = (t.1 + 1) as u64;
            (
                (total, c, t.2.push(r)),
                (
                    new_bar,
                    if bar || t.0 == 0 {
                        Some((c, name_or(r, "Unnamed"@), r))
                    } else {
                        None
                    },
                ),
            )
        },
        None => ((total, t.1, t.2), (new_bar, None)),
    }
}

fn name_or_exec(r: &Json, default: &str) -> (res: String)
    ensures
        res@ == name_or(json_view(*r), default@),
{
    match get_str(r, "name") {
        Some(n) => n.clone(),
        None => String::from_str(default),
    }
}

/// Counts benchmark result event `event` into `tally`.
fn record_benchmark(tally: &mut BenchmarkTally, bar: bool, event: &Json) -> (res: BenchmarkStep)
    requires
        old(tally).completed < u64::MAX,
    ensures
        (tally_view(*final(tally)), step_view(res)) == benchmark_step(
            tally_view(*old(tally)),
            bar,
            json_view(*event),
        ),
{
    let mut new_bar: Option<u64> = None;
    if tally.total == 0 {
        tally.total = match get_u64(event, "total_tests") {
            Some(n) => n,
            None => 0,
        };
        new_bar = Some(tally.total);
    }
    let shows = bar || new_bar.is_some();
    match get(event, "result") {
        Some(r) => {
            let ghost before = tally.results@;
            tally.results.push(deep_clone(r));
            proof {
                lemma_json_seq_view(before);
                lemma_json_seq_view(tally.results@);
                assert(json_seq_view(tally.results@) =~= json_seq_view(before).push(json_view(*r)));
            }
            tally.completed = tally.completed + 1;
            let shown = if shows {
                Some(
                    BenchmarkProgress {
                        position: tally.completed,
                        name: name_or_exec(r, "Unnamed"),
                        result: deep_clone(r),
                    },
                )
            } else {
                None
            };
            BenchmarkStep { new_bar, shown }
        },
        None => BenchmarkStep { new_bar, shown: None },
    }
}

/// What the state of a submission's stream holds.
pub struct SubmitState {
    /// The event named by the last `event: ` line.
    pub current_event: Option<String>,
    pub passed_tests: u64,
    pub total_tests: u64,
    /// The progress bar on screen.
    pub bar: Option<Bar>,
    pub benchmarks: BenchmarkTally,
}

/// What the command line reads out of a data line of a submission's stream.
pub struct SubmitData {
    /// The data read as a JSON value, when it is one.
    pub value: Option<Json>,
    /// The `status` of its `result`, when it reads as a test result with one.
    pub test_status: Option<String>,
    /// Its `passed_tests` and `total_tests`, when it reads as a checked
    /// record with both.
    pub counts: Option<(u32, u32)>,
    /// When it reads as an error record: its `error`, else its `message`.
    pub error_text: Option<Option<String>>,
}

/// What a data line of a submission's stream calls for.
pub enum SubmitAction {
    Nothing,
    /// The spinner names a stage.
    Stage(Stage),
    /// A test result: whether a test bar is opened, the bar's new length
    /// (once the total is known) and its new position (the passed count).
    TestResult { new_bar: bool, length: Option<u64>, position: Option<u64> },
    /// The tests were checked: the counts the event gave, and whether a bar
    /// was on screen (it is closed).
    Checked { counts: Option<(u64, u64)>, bar_finished: bool },
    BenchmarkResult(BenchmarkStep),
    /// The submission is accepted: the detailed results, when the event
    /// reads as JSON. The stream ends.
    Accepted { bar_finished: bool, results: Option<Vec<Json>> },
    /// A wrong answer, with what is shown of its debug information when the
    /// event reads as JSON. The stream ends.
    WrongAnswer { bar_finished: bool, debug: Option<DebugReport> },
    /// An error, with its message when the event reads as an error record.
    /// The stream ends.
    Failed { bar_finished: bool, message: Option<String> },
    /// A compile error, with its details when the event reads as JSON. The
    /// stream ends.
    CompileError { bar_finished: bool, details: Option<String> },
}

impl SubmitAction {
    /// Whether the stream ends after this action.
    pub fn ends_stream(&self) -> (res: bool)
        ensures
            res == (self is Accepted || self is WrongAnswer || self is Failed
                || self is CompileError),
    {
        match self {
            SubmitAction::Accepted { .. } => true,
            SubmitAction::WrongAnswer { .. } => true,
            SubmitAction::Failed { .. } => true,
            SubmitAction::CompileError { .. } => true,
            _ => false,
        }
    }
}

pub open spec fn same_counts(o: SubmitState, f: SubmitState) -> bool {
    &&& f.passed_tests == o.passed_tests
    &&& f.total_tests == o.total_tests
    &&& tally_view(f.benchmarks) == tally_view(o.benchmarks)
}

pub open spec fn unchanged_by(o: SubmitState, f: SubmitState) -> bool {
    f.bar == o.bar && same_counts(o, f)
}

/// A test result: a test bar opens if none is on screen; while the total is
/// 0 it is read from `total_tests` (0 when missing); a `PASSED` result
/// raises the passed count, which the bar shows.
pub open spec fn test_result_step(o: SubmitState, d: SubmitData, f: SubmitState, a: SubmitAction) -> bool {
    let length = if o.total_tests == 0 {
        match d.value {
            Some(v) => Some(
                match u64_field(json_view(v), "total_tests"@) {
                    Some(n) => n,
                    None => 0u64,
                },
            ),
            None => None,
        }
    } else {
        None
    };
    let passed = match d.test_status {
        Some(s) => if s@ == "PASSED"@ {
            (o.passed_tests + 1) as u64
        } else {
            o.passed_tests
        },
        None => o.passed_tests,
    };
    &&& f.bar == (if o.bar is None {
        Some(Bar::Tests)
    } else {
        o.bar
    })
    &&& f.total_tests == (match length {
        Some(t) => t,
        None => o.total_tests,
    })
    &&& f.passed_tests == passed
    &&& tally_view(f.benchmarks) == tally_view(o.benchmarks)
    &&& a == SubmitAction::TestResult {
        new_bar: o.bar is None,
        length,
        position: if d.test_status is Some {
            Some(passed)
        } else {
            None
        },
    }
}

/// The tests were checked: the bar closes and the counts start again.
pub open spec fn checked_step(o: SubmitState, d: SubmitData, f: SubmitState, a: SubmitAction) -> bool {
    &&& f.bar is None
    &&& f.passed_tests == 0
    &&& f.total_tests == 0
    &&& tally_view(f.benchmarks) == tally_view(o.benchmarks)
    &&& a == SubmitAction::Checked {
        counts: match d.counts {
            Some(c) => Some((c.0 as u64, c.1 as u64)),
            None => None,
        },
        bar_finished: o.bar is Some,
    }
}

/// A benchmark result, when the data reads as JSON: counted as
/// `benchmark_step` says; a new bar is a benchmark bar.
pub open spec fn benchmark_result_step(o: SubmitState, d: SubmitData, f: SubmitState, a: SubmitAction) -> bool {
    match d.value {
        Some(v) => {
            let next = benchmark_step(tally_view(o.benchmarks), o.bar is Some, json_view(v));
            &&& tally_view(f.benchmarks) == next.0
            &&& f.bar == (if next.1.0 is Some {
                Some(Bar::Benchmarks)
            } else {
                o.bar
            })
            &&& f.passed_tests == o.passed_tests
            &&& f.total_tests == o.total_tests
            &&& a matches SubmitAction::BenchmarkResult(s) && step_view(s) == next.1
        },
        None => a is Nothing && unchanged_by(o, f),
    }
}

/// The detailed results of an accepted submission: its `benchmark_results`
/// (none when missing).
pub open spec fn accepted_results(v: JsonView) -> Seq<JsonView> {
    match array_field(v, "benchmark_results"@) {
        Some(rs) => rs,
        None => Seq::empty(),
    }
}

/// The debug information of a wrong answer.
pub open spec fn debug_info_of(v: JsonView) -> JsonView {
    match json_get(v, "debug_info"@) {
        Some(d) => d,
        None => JsonView::Null,
    }
}

/// An event that ends the stream: the bar closes and the counts stay.
pub open spec fn final_step(o: SubmitState, d: SubmitData, f: SubmitState, a: SubmitAction, e: Seq<char>) -> bool {
    &&& f.bar is None
    &&& same_counts(o, f)
    &&& if e == "ACCEPTED"@ {
        a matches SubmitAction::Accepted { bar_finished, results } && bar_finished == o.bar is Some
            && match d.value {
            Some(v) => results matches Some(rs) && json_seq_view(rs@) == accepted_results(json_view(v)),
            None => results is None,
        }
    } else if e == "WRONG_ANSWER"@ {
        a matches SubmitAction::WrongAnswer { bar_finished, debug } && bar_finished == o.bar is Some
            && match d.value {
            Some(v) => debug matches Some(r) && debug_report_of(
                debug_info_of(json_view(v)),
                SampleLayout::ByCoordinate,
                r,
            ),
            None => debug is None,
        }
    } else if e == "ERROR"@ {
        a matches SubmitAction::Failed { bar_finished, message } && bar_finished == o.bar is Some
            && opt_view(message) == match d.error_text {
            Some(t) => Some(text_or(opt_view(t), "Unknown error"@)),
            None => None,
        }
    } else {
        a matches SubmitAction::CompileError { bar_finished, details } && bar_finished == o.bar is Some
            && opt_view(details) == match d.value {
            Some(v) => Some(text_or(str_field(json_view(v), "details"@), "Unknown error"@)),
            None => None,
        }
    }
}

/// What a data line `d` of the event named `e` does.
pub open spec fn submit_event_step(e: Seq<char>, o: SubmitState, d: SubmitData, f: SubmitState, a: SubmitAction) -> bool {
    if e == "IN_QUEUE"@ {
        a == SubmitAction::Stage(Stage::InQueue) && unchanged_by(o, f)
    } else if e == "COMPILING"@ {
        a == SubmitAction::Stage(Stage::Compiling) && unchanged_by(o, f)
    } else if e == "CHECKING"@ {
        a == SubmitAction::Stage(Stage::Checking) && unchanged_by(o, f)
    } else if e == "BENCHMARKING"@ {
        a == SubmitAction::Stage(Stage::Benchmarking) && unchanged_by(o, f)
    } else if e == "TEST_RESULT"@ {
        test_result_step(o, d, f, a)
    } else if e == "CHECKED"@ {
        checked_step(o, d, f, a)
    } else if e == "BENCHMARK_RESULT"@ {
        benchmark_result_step(o, d, f, a)
    } else if e == "ACCEPTED"@ || e == "WRONG_ANSWER"@ || e == "ERROR"@ || e == "COMPILE_ERROR"@ {
        final_step(o, d, f, a, e)
    } else {
        a is Nothing && unchanged_by(o, f)
    }
}

/// What a data line `d` does in state `o`: `f` is the next state and `a`
/// what is shown. A data line before any `event: ` line does nothing.
pub open spec fn submit_step(o: SubmitState, d: SubmitData, f: SubmitState, a: SubmitAction) -> bool {
    &&& opt_view(f.current_event) == opt_view(o.current_event)
    &&& match o.current_event {
        Some(e) => submit_event_step(e@, o, d, f, a),
        None => a is Nothing && unchanged_by(o, f),
    }
}

/// The data lines on which a submission's stream can go on: a wrong answer
/// that reads as JSON has an object as its debug information.
pub open spec fn submit_data_ok(current_event: Option<String>, d: SubmitData) -> bool {
    opt_view(current_event) == Some("WRONG_ANSWER"@) ==> match d.value {
        Some(v) => json_get(json_view(v), "debug_info"@) matches Some(JsonView::Object(_)),
        None => true,
    }
}

impl SubmitState {
    pub fn new() -> (res: Self)
        ensures
            res.current_event is None,
            res.passed_tests == 0,
            res.total_tests == 0,
            res.bar is None,
            tally_view(res.benchmarks) == (0u64, 0u64, Seq::<JsonView>::empty()),
    {
        SubmitState {
            current_event: None,
            passed_tests: 0,
            total_tests: 0,
            bar: None,
            benchmarks: BenchmarkTally::new(),
        }
    }

    /// Reads a line of the stream: an `event: ` line names the event that
    /// the next data lines belong to (trimmed); a `data: ` line is returned
    /// without its prefix; any other line is passed over.
    pub fn read_line(&mut self, line: &str) -> (res: Option<String>)
        ensures
            unchanged_by(*old(self), *final(self)),
            "event: "@.is_prefix_of(line@) ==> res is None && opt_view(final(self).current_event)
                == Some(trim_ws(line@.skip(7))),
            !"event: "@.is_prefix_of(line@) ==> {
                &&& opt_view(final(self).current_event) == opt_view(old(self).current_event)
                &&& (res is Some <==> "data: "@.is_prefix_of(line@))
                &&& (res matches Some(p) ==> p@ == line@.skip(6))
            },
    {
        proof {
            reveal_strlit("event: ");
            reveal_strlit("data: ");
        }
        match strip_prefix(line, "event: ") {
            Some(name) => {
                self.current_event = Some(trim(name.as_str()));
                None
            },
            None => strip_prefix(line, "data: "),
        }
    }

    /// Takes a data line of the event named last.
    pub fn on_data(&mut self, data: &SubmitData) -> (res: SubmitAction)
        requires
            old(self).passed_tests < u64::MAX,
            old(self).benchmarks.completed < u64::MAX,
            submit_data_ok(old(self).current_event, *data),
        ensures
            submit_step(*old(self), *data, *final(self), res),
    {
        let event = match &self.current_event {
            Some(e) => e.clone(),
            None => {
                return SubmitAction::Nothing;
            },
        };
        let e = event.as_str();
        if str_eq(e, "IN_QUEUE") {
            SubmitAction::Stage(Stage::InQueue)
        } else if str_eq(e, "COMPILING") {
            SubmitAction::Stage(Stage::Compiling)
        } else if str_eq(e, "CHECKING") {
            SubmitAction::Stage(Stage::Checking)
        } else if str_eq(e, "BENCHMARKING") {
            SubmitAction::Stage(Stage::Benchmarking)
        } else if str_eq(e, "TEST_RESULT") {
            let new_bar = self.bar.is_none();
            if new_bar {
                self.bar = Some(Bar::Tests);
            }
            let mut length: Option<u64> = None;
            if self.total_tests == 0 {
                match &data.value {
                    Some(v) => {
                        self.total_tests = match get_u64(v, "total_tests") {
                            Some(n) => n,
                            None => 0,
                        };
                        length = Some(self.total_tests);
                    },
                    None => {},
                }
            }
            let position = match &data.test_status {
                Some(s) => {
                    proof {
                        reveal_strlit("PASSED");
                    }
                    if str_eq(s.as_str(), "PASSED") {
                        self.passed_tests = self.passed_tests + 1;
                    }
                    Some(self.passed_tests)
                },
                None => None,
            };
            SubmitAction::TestResult { new_bar, length, position }
        } else if str_eq(e, "CHECKED") {
            let counts = match data.counts {
                Some(c) => Some((c.0 as u64, c.1 as u64)),
                None => None,
            };
            let bar_finished = self.bar.is_some();
            self.bar = None;
            self.passed_tests = 0;
            self.total_tests = 0;
            SubmitAction::Checked { counts, bar_finished }
        } else if str_eq(e, "BENCHMARK_RESULT") {
            match &data.value {
                Some(v) => {
                    let step = record_benchmark(&mut self.benchmarks, self.bar.is_some(), v);
                    if step.new_bar.is_some() {
                        self.bar = Some(Bar::Benchmarks);
                    }
                    SubmitAction::BenchmarkResult(step)
                },
                None => SubmitAction::Nothing,
            }
        } else if str_eq(e, "ACCEPTED") {
            let bar_finished = self.bar.is_some();
            self.bar = None;
            let results = match &data.value {
                Some(v) => match get_array(v, "benchmark_results") {
                    Some(rs) => Some(clone_all(rs)),
                    None => {
                        let empty: Vec<Json> = Vec::new();
                        proof {
                            assert(json_seq_view(empty@) =~= Seq::<JsonView>::empty());
                        }
                        Some(empty)
                    },
                },
                None => None,
            };
            SubmitAction::Accepted { bar_finished, results }
        } else if str_eq(e, "WRONG_ANSWER") {
            let bar_finished = self.bar.is_some();
            self.bar = None;
            let debug = match &data.value {
                Some(v) => match get(v, "debug_info") {
                    Some(d) => Some(debug_report(d, SampleLayout::ByCoordinate)),
                    None => {
                        proof {
                            assert(false);
                        }
                        None
                    },
                },
                None => None,
            };
            SubmitAction::WrongAnswer { bar_finished, debug }
        } else if str_eq(e, "ERROR") {
            let bar_finished = self.bar.is_some();
            self.bar = None;
            let message = match &data.error_text {
                Some(t) => match t {
                    Some(m) => Some(m.clone()),
                    None => Some(String::from_str("Unknown error")),
                },
                None => None,
            };
            SubmitAction::Failed { bar_finished, message }
        } else if str_eq(e, "COMPILE_ERROR") {
            let bar_finished = self.bar.is_some();
            self.bar = None;
            let details = match &data.value {
                Some(v) => match get_str(v, "details") {
                    Some(s) => Some(s.clone()),
                    None => Some(String::from_str("Unknown error")),
                },
                None => None,
            };
            SubmitAction::CompileError { bar_finished, details }
        } else {
            SubmitAction::Nothing
        }
    }
}

/// The whole lines in `s`, trimmed: the pieces between newlines but the last.
pub open spec fn closed_lines(s: Seq<char>) -> Seq<Seq<char>> {
    split_char(s, '\n').drop_last().map_values(|p: Seq<char>| trim_ws(p))
}

/// The text after the last newline of `s`, which no line holds yet.
pub open spec fn open_tail(s: Seq<char>) -> Seq<char> {
    split_char(s, '\n').last()
}

/// The text of a stream that does not make a whole line yet.
pub struct LineBuffer {
    pub pending: String,
}

impl LineBuffer {
    pub fn new() -> (res: Self)
        ensures
            res.pending@ == Seq::<char>::empty(),
    {
        LineBuffer { pending: String::new() }
    }

    /// Adds a chunk of the stream and hands out the lines it completes, each
    /// trimmed; the text after the last newline waits for the next chunk.
    pub fn push_chunk(&mut self, chunk: &str) -> (res: Vec<String>)
        ensures
            views(res@) == closed_lines(old(self).pending@ + chunk@),
            final(self).pending@ == open_tail(old(self).pending@ + chunk@),
    {
        let mut all = self.pending.clone();
        all.append(chunk);
        let pieces = split_on_char(all.as_str(), '\n');
        let ghost sv = split_char(all@, '\n');
        proof {
            lemma_split_char_last(all@, '\n');
            assert(views(pieces@).len() == pieces@.len());
        }
        let n = pieces.len();
        let mut res: Vec<String> = Vec::new();
        let mut i: usize = 0;
        while i + 1 < n
            invariant
                views(pieces@) == sv,
                sv.len() == n,
                n >= 1,
                i + 1 <= n,
                views(res@) == sv.take(i as int).map_values(|p: Seq<char>| trim_ws(p)),
            decreases n - i,
        {
            proof {
                assert(views(pieces@)[i as int] == pieces@[i as int]@);
            }
            let line = trim(pieces[i].as_str());
            let ghost before = res@;
            res.push(line);
            proof {
                assert(views(res@) =~= views(before).push(line@));
                assert(sv.take(i + 1).map_values(|p: Seq<char>| trim_ws(p)) =~= sv.take(
                    i as int,
                ).map_values(|p: Seq<char>| trim_ws(p)).push(trim_ws(sv[i as int])));
            }
            i += 1;
        }
        proof {
            assert(sv.take(i as int) =~= sv.drop_last());
            assert(views(pieces@)[n - 1] == pieces@[n - 1]@);
        }
        self.pending = pieces[n - 1].clone();
        res
    }
}

/// A stream cut into two chunks gives the lines and the waiting text that
/// it gives in one chunk: how the stream is cut makes no difference.
pub proof fn lemma_chunks_join(pending: Seq<char>, a: Seq<char>, b: Seq<char>)
    ensures
        closed_lines(pending + a) + closed_lines(open_tail(pending + a) + b) == closed_lines(
            pending + a + b,
        ),
        open_tail(open_tail(pending + a) + b) == open_tail(pending + a + b),
{
    let x = pending + a;
    lemma_split_char_append(x, b, '\n');
    lemma_split_char_last(x, '\n');
    lemma_split_char_last(open_tail(x) + b, '\n');
    let first = split_char(x, '\n').drop_last();
    let second = split_char(open_tail(x) + b, '\n');
    assert(split_char(x + b, '\n') == first + second);
    assert((first + second).drop_last() =~= first + second.drop_last());
    assert((first + second).drop_last().map_values(|p: Seq<char>| trim_ws(p)) =~= first.map_values(
        |p: Seq<char>| trim_ws(p),
    ) + second.drop_last().map_values(|p: Seq<char>| trim_ws(p)));
    assert((first + second).last() == second.last());
}

/// The text waiting in a line buffer never holds a newline.
pub proof fn lemma_open_tail_has_no_newline(s: Seq<char>)
    ensures
        forall|i: int| 0 <= i < open_tail(s).len() ==> open_tail(s)[i] != '\n',
{
    lemma_split_char_last(s, '\n');
}

/// How a line of compiler output is shown.
#[derive(Clone, Copy, PartialEq, Eq, Structural, Debug)]
pub enum DetailKind {
    /// It holds `error:`.
    Error,
    /// It holds `warning:` (and no `error:`).
    Warning,
    /// It holds `^` (and neither of the others).
    Caret,
    Plain,
}

pub open spec fn detail_kind(line: Seq<char>) -> DetailKind {
    if contains_seq(line, "error:"@) {
        DetailKind::Error
    } else if contains_seq(line, "warning:"@) {
        DetailKind::Warning
    } else if contains_seq(line, "^"@) {
        DetailKind::Caret
    } else {
        DetailKind::Plain
    }
}

/// A line of compiler output and how it is shown.
pub struct DetailLine {
    pub kind: DetailKind,
    pub text: String,
}

pub open spec fn detail_lines_view(v: Seq<DetailLine>) -> Seq<(DetailKind, Seq<char>)> {
    v.map_values(|d: DetailLine| (d.kind, d.text@))
}

/// The lines of `details`, each with how it is shown.
pub open spec fn detail_lines(details: Seq<char>) -> Seq<(DetailKind, Seq<char>)> {
    lines(details).map_values(|l: Seq<char>| (detail_kind(l), l))
}

fn detail_kind_exec(line: &str) -> (res: DetailKind)
    ensures
        res == detail_kind(line@),
{
    if contains(line, "error:") {
        DetailKind::Error
    } else if contains(line, "warning:") {
        DetailKind::Warning
    } else if contains(line, "^") {
        DetailKind::Caret
    } else {
        DetailKind::Plain
    }
}

/// The lines of compiler output, each with how it is shown.
pub fn classify_details(details: &str) -> (res: Vec<DetailLine>)
    ensures
        detail_lines_view(res@) == detail_lines(details@),
{
    let ls = split_lines(details);
    let ghost lv = lines(details@);
    let mut res: Vec<DetailLine> = Vec::new();
    let mut i: usize = 0;
    while i < ls.len()
        invariant
            views(ls@) == lv,
            lv.len() == ls@.len(),
            i <= ls@.len(),
            detail_lines_view(res@) == lv.take(i as int).map_values(|l: Seq<char>| (detail_kind(l), l)),
        decreases ls@.len() - i,
    {
        proof {
            assert(views(ls@)[i as int] == ls@[i as int]@);
        }
        let d = DetailLine { kind: detail_kind_exec(ls[i].as_str()), text: ls[i].clone() };
        let ghost before = res@;
        res.push(d);
        proof {
            assert(detail_lines_view(res@) =~= detail_lines_view(before).push((d.kind, d.text@)));
            assert(lv.take(i + 1).map_values(|l: Seq<char>| (detail_kind(l), l)) =~= lv.take(
                i as int,
            ).map_values(|l: Seq<char>| (detail_kind(l), l)).push((detail_kind(lv[i as int]), lv[i as int])));
        }
        i += 1;
    }
    proof {
        assert(lv.take(i as int) =~= lv);
    }
    res
}

/// A test result as the test bar shows it: the bar's new position, whether
/// the test passed and its name.
pub struct TestProgress {
    pub position: u64,
    pub passed: bool,
    pub name: String,
}

/// A test of a checked run as the event lists it.
pub struct ReportedTest {
    /// Its `test_id`, or 0.
    pub test_id: u64,
    /// Its `name`, or `Unknown test`.
    pub name: String,
    /// Its `status`, or `UNKNOWN`.
    pub status: String,
    /// What is shown of its debug information, for a `FAILED` test that has
    /// it as an object.
    pub debug: Option<DebugReport>,
}

/// A test of a checked run as the results collected from the stream give it.
pub struct CollectedTest {
    /// Its position, counted from 1.
    pub position: usize,
    pub name: String,
    pub status: String,
}

/// The tests of a checked run.
pub enum CheckedTests {
    /// The event's own `test_results`.
    Reported(Vec<ReportedTest>),
    /// The results collected from the stream, when the event lists none.
    Collected(Vec<CollectedTest>),
}

/// What an event of the streaming checker calls for.
pub enum CheckerStreamAction {
    Nothing,
    Stage(Stage),
    /// The run failed: the `error` (or `Unknown error`) and the lines of the
    /// `details`, when there are any. The stream ends.
    Error { message: String, details: Option<Vec<DetailLine>> },
    /// A test result: the length of a test bar that opens, and the result
    /// shown on the bar.
    TestResult { new_bar: Option<u64>, shown: Option<TestProgress> },
    /// A wrong answer, with what is shown of its debug information; the test
    /// bar, if any, closes.
    WrongAnswer { bar_finished: bool, debug: DebugReport },
    /// The tests were checked: the counts, whether all passed, and the
    /// tests; the test bar, if any, closes.
    Checked { bar_finished: bool, passed: u64, total: u64, all_passed: bool, tests: CheckedTests },
}

impl CheckerStreamAction {
    /// Whether the stream ends after this action.
    pub fn ends_stream(&self) -> (res: bool)
        ensures
            res == self is Error,
    {
        match self {
            CheckerStreamAction::Error { .. } => true,
            _ => false,
        }
    }
}

/// What the streaming checker has counted: whether a test bar is on screen,
/// how many results came, and the results.
pub struct CheckerStreamState {
    pub test_bar: bool,
    pub completed: u64,
    pub results: Vec<Json>,
}

pub open spec fn status_or(r: JsonView, default: Seq<char>) -> Seq<char> {
    text_or(str_field(r, "status"@), default)
}

pub open spec fn u64_or_zero(o: Option<u64>) -> u64 {
    match o {
        Some(n) => n,
        None => 0u64,
    }
}

pub open spec fn test_progress_view(p: Option<TestProgress>) -> Option<(u64, bool, Seq<char>)> {
    match p {
        Some(t) => Some((t.position, t.passed, t.name@)),
        None => None,
    }
}

/// A test of a checked run, as shown from its entry `r`.
pub open spec fn reported_test_of(r: JsonView, t: ReportedTest) -> bool {
    let status = status_or(r, "UNKNOWN"@);
    &&& t.test_id == u64_or_zero(u64_field(r, "test_id"@))
    &&& t.name@ == name_or(r, "Unknown test"@)
    &&& t.status@ == status
    &&& if status == "FAILED"@ && json_get(r, "debug_info"@) matches Some(JsonView::Object(_)) {
        t.debug matches Some(d) && debug_report_of(debug_info_of(r), SampleLayout::ByPosition, d)
    } else {
        t.debug is None
    }
}

pub open spec fn collected_tests_view(v: Seq<CollectedTest>) -> Seq<(nat, Seq<char>, Seq<char>)> {
    v.map_values(|t: CollectedTest| (t.position as nat, t.name@, t.status@))
}

/// The tests of a checked run as the results collected from the stream give
/// them.
pub open spec fn collected_tests(results: Seq<JsonView>) -> Seq<(nat, Seq<char>, Seq<char>)> {
    Seq::new(
        results.len(),
        |i: int| ((i + 1) as nat, name_or(results[i], "Unknown test"@), status_or(results[i], "UNKNOWN"@)),
    )
}

pub open spec fn checked_tests_of(v: JsonView, results: Seq<JsonView>, t: CheckedTests) -> bool {
    match array_field(v, "test_results"@) {
        Some(rs) => t matches CheckedTests::Reported(rows) && rows@.len() == rs.len() && forall|i: int|
            0 <= i < rs.len() ==> reported_test_of(rs[i], #[trigger] rows@[i]),
        None => t matches CheckedTests::Collected(rows) && collected_tests_view(rows@) == collected_tests(results),
    }
}

pub open spec fn checker_unchanged(o: CheckerStreamState, f: CheckerStreamState) -> bool {
    f.test_bar == o.test_bar && f.completed == o.completed && json_seq_view(f.results@) == json_seq_view(
        o.results@,
    )
}

/// What event `v` does in state `o` of the streaming checker.
pub open spec fn checker_stream_step(o: CheckerStreamState, v: JsonView, f: CheckerStreamState, a: CheckerStreamAction) -> bool {
    match status_of(v) {
        Some(s) => if s == "IN_QUEUE"@ {
            a == CheckerStreamAction::Stage(Stage::InQueue) && checker_unchanged(o, f)
        } else if s == "COMPILING"@ {
            a == CheckerStreamAction::Stage(Stage::Compiling) && checker_unchanged(o, f)
        } else if s == "CHECKING"@ {
            a == CheckerStreamAction::Stage(Stage::Checking) && checker_unchanged(o, f)
        } else if s == "ERROR"@ {
            &&& checker_unchanged(o, f)
            &&& a matches CheckerStreamAction::Error { message, details }
            &&& message@ == text_or(str_field(v, "error"@), "Unknown error"@)
            &&& match str_field(v, "details"@) {
                Some(d) => details matches Some(ls) && detail_lines_view(ls@) == detail_lines(d),
                None => details is None,
            }
        } else if s == "TEST_RESULT"@ {
            let new_bar = if o.test_bar {
                None
            } else {
                u64_field(v, "total_tests"@)
            };
            let bar = o.test_bar || new_bar is Some;
            &&& f.test_bar == bar
            &&& match json_get(v, "result"@) {
                Some(JsonView::Object(fs)) => {
                    let r = JsonView::Object(fs);
                    let c = (o.completed + 1) as u64;
                    &&& f.completed == c
                    &&& json_seq_view(f.results@) == json_seq_view(o.results@).push(r)
                    &&& a matches CheckerStreamAction::TestResult { new_bar: nb, shown }
                    &&& nb == new_bar
                    &&& test_progress_view(shown) == if bar {
                        Some((c, status_or(r, "UNKNOWN"@) == "PASSED"@, name_or(r, "Unknown test"@)))
                    } else {
                        None
                    }
                },
                _ => {
                    &&& f.completed == o.completed
                    &&& json_seq_view(f.results@) == json_seq_view(o.results@)
                    &&& a matches CheckerStreamAction::TestResult { new_bar: nb, shown }
                    &&& nb == new_bar
                    &&& shown is None
                },
            }
        } else if s == "WRONG_ANSWER"@ {
            &&& !f.test_bar
            &&& f.completed == o.completed
            &&& json_seq_view(f.results@) == json_seq_view(o.results@)
            &&& a matches CheckerStreamAction::WrongAnswer { bar_finished, debug }
            &&& bar_finished == o.test_bar
            &&& debug_report_of(debug_info_of(v), SampleLayout::ByCoordinate, debug)
        } else if s == "CHECKED"@ {
            let passed = u64_or_zero(u64_field(v, "passedTests"@));
            let total = u64_or_zero(u64_field(v, "totalTests"@));
            &&& !f.test_bar
            &&& f.completed == o.completed
            &&& json_seq_view(f.results@) == json_seq_view(o.results@)
            &&& a matches CheckerStreamAction::Checked { bar_finished, passed: p, total: t, all_passed, tests }
            &&& bar_finished == o.test_bar
            &&& p == passed
            &&& t == total
            &&& all_passed == (passed == total)
            &&& checked_tests_of(v, json_seq_view(o.results@), tests)
        } else {
            a is Nothing && checker_unchanged(o, f)
        },
        None => a is Nothing && checker_unchanged(o, f),
    }
}

/// The events on which the streaming checker can go on: a wrong answer
/// carries its debug information as an object.
pub open spec fn checker_event_ok(v: JsonView) -> bool {
    status_of(v) == Some("WRONG_ANSWER"@) ==> json_get(v, "debug_info"@) matches Some(JsonView::Object(_))
}

fn reported_tests(rs: &Vec<Json>) -> (res: Vec<ReportedTest>)
    ensures
        res@.len() == rs@.len(),
        forall|i: int| 0 <= i < rs@.len() ==> reported_test_of(json_view(rs@[i]), #[trigger] res@[i]),
{
    let mut res: Vec<ReportedTest> = Vec::new();
    let mut i: usize = 0;
    while i < rs.len()
        invariant
            i <= rs@.len(),
            res@.len() == i,
            forall|k: int| 0 <= k < i ==> reported_test_of(json_view(rs@[k]), #[trigger] res@[k]),
        decreases rs@.len() - i,
    {
        let r = &rs[i];
        let test_id = match get_u64(r, "test_id") {
            Some(n) => n,
            None => 0,
        };
        let name = name_or_exec(r, "Unknown test");
        let status = match get_str(r, "status") {
            Some(st) => st.clone(),
            None => String::from_str("UNKNOWN"),
        };
        let debug = if str_eq(status.as_str(), "FAILED") {
            match get(r, "debug_info") {
                Some(d) => match d {
                    Json::Object(_) => Some(debug_report(d, SampleLayout::ByPosition)),
                    _ => None,
                },
                None => None,
            }
        } else {
            None
        };
        res.push(ReportedTest { test_id, name, status, debug });
        i += 1;
    }
    res
}

fn collected_test_list(results: &Vec<Json>) -> (res: Vec<CollectedTest>)
    ensures
        collected_tests_view(res@) == collected_tests(json_seq_view(results@)),
{
    let ghost rv = json_seq_view(results@);
    proof {
        lemma_json_seq_view(results@);
    }
    let mut res: Vec<CollectedTest> = Vec::new();
    let mut i: usize = 0;
    while i < results.len()
        invariant
            rv == json_seq_view(results@),
            rv.len() == results@.len(),
            forall|k: int| 0 <= k < results@.len() ==> #[trigger] rv[k] == json_view(results@[k]),
            i <= results@.len(),
            collected_tests_view(res@) == collected_tests(rv).take(i as int),
        decreases results@.len() - i,
    {
        let r = &results[i];
        let status = match get_str(r, "status") {
            Some(st) => st.clone(),
            None => String::from_str("UNKNOWN"),
        };
        let t = CollectedTest { position: i + 1, name: name_or_exec(r, "Unknown test"), status };
        let ghost before = res@;
        res.push(t);
        proof {
            assert(rv[i as int] == json_view(*r));
            assert(collected_tests_view(res@) =~= collected_tests_view(before).push(
                (t.position as nat, t.name@, t.status@),
            ));
            assert(collected_tests(rv).take(i + 1) =~= collected_tests(rv).take(i as int).push(
                collected_tests(rv)[i as int],
            ));
        }
        i += 1;
    }
    proof {
        assert(collected_tests(rv).take(i as int) =~= collected_tests(rv));
    }
    res
}

impl CheckerStreamState {
    pub fn new() -> (res: Self)
        ensures
            !res.test_bar,
            res.completed == 0,
            res.results@.len() == 0,
    {
        CheckerStreamState { test_bar: false, completed: 0, results: Vec::new() }
    }

    /// Takes an event of the streaming checker.
    pub fn on_event(&mut self, event: &Json) -> (res: CheckerStreamAction)
        requires
            old(self).completed < u64::MAX,
            checker_event_ok(json_view(*event)),
        ensures
            checker_stream_step(*old(self), json_view(*event), *final(self), res),
    {
        let status = match get_str(event, "status") {
            Some(s) => s,
            None => {
                return CheckerStreamAction::Nothing;
            },
        };
        let st = status.as_str();
        if str_eq(st, "IN_QUEUE") {
            CheckerStreamAction::Stage(Stage::InQueue)
        } else if str_eq(st, "COMPILING") {
            CheckerStreamAction::Stage(Stage::Compiling)
        } else if str_eq(st, "CHECKING") {
            CheckerStreamAction::Stage(Stage::Checking)
        } else if str_eq(st, "ERROR") {
            let message = match get_str(event, "error") {
                Some(m) => m.clone(),
                None => String::from_str("Unknown error"),
            };
            let details = match get_str(event, "details") {
                Some(d) => Some(classify_details(d.as_str())),
                None => None,
            };
            CheckerStreamAction::Error { message, details }
        } else if str_eq(st, "TEST_RESULT") {
            let new_bar = if self.test_bar {
                None
            } else {
                get_u64(event, "total_tests")
            };
            if new_bar.is_some() {
                self.test_bar = true;
            }
            match get(event, "result") {
                Some(r) => match r {
                    Json::Object(_) => {
                        let ghost before = self.results@;
                        self.results.push(deep_clone(r));
                        proof {
                            lemma_json_seq_view(before);
                            lemma_json_seq_view(self.results@);
                            assert(json_seq_view(self.results@) =~= json_seq_view(before).push(
                                json_view(*r),
                            ));
                        }
                        self.completed = self.completed + 1;
                        let shown = if self.test_bar {
                            let passed = match get_str(r, "status") {
                                Some(rs) => str_eq(rs.as_str(), "PASSED"),
                                None => {
                                    proof {
                                        reveal_strlit("UNKNOWN");
                                        reveal_strlit("PASSED");
                                        assert("UNKNOWN"@[0] != "PASSED"@[0]);
                                    }
                                    false
                                },
                            };
                            Some(
                                TestProgress {
                                    position: self.completed,
                                    passed,
                                    name: name_or_exec(r, "Unknown test"),
                                },
                            )
                        } else {
                            None
                        };
                        CheckerStreamAction::TestResult { new_bar, shown }
                    },
                    _ => CheckerStreamAction::TestResult { new_bar, shown: None },
                },
                None => CheckerStreamAction::TestResult { new_bar, shown: None },
            }
        } else if str_eq(st, "WRONG_ANSWER") {
            let bar_finished = self.test_bar;
            self.test_bar = false;
            let debug = match get(event, "debug_info") {
                Some(d) => debug_report(d, SampleLayout::ByCoordinate),
                None => {
                    proof {
                        assert(false);
                    }
                    debug_report(event, SampleLayout::ByCoordinate)
                },
            };
            CheckerStreamAction::WrongAnswer { bar_finished, debug }
        } else if str_eq(st, "CHECKED") {
            let bar_finished = self.test_bar;
            self.test_bar = false;
            let passed = match get_u64(event, "passedTests") {
                Some(n) => n,
                None => 0,
            };
            let total = match get_u64(event, "totalTests") {
                Some(n) => n,
                None => 0,
            };
            let tests = match get_array(event, "test_results") {
                Some(rs) => {
                    proof {
                        lemma_json_seq_view(rs@);
                    }
                    CheckedTests::Reported(reported_tests(rs))
                },
                None => CheckedTests::Collected(collected_test_list(&self.results)),
            };
            CheckerStreamAction::Checked {
                bar_finished,
                passed,
                total,
                all_passed: passed == total,
                tests,
            }
        } else {
            CheckerStreamAction::Nothing
        }
    }
}

/// What an event of the streaming benchmark calls for.
pub enum BenchmarkStreamAction {
    Nothing,
    Stage(Stage),
    Result(BenchmarkStep),
    /// The final event (no status, with both averages and the results): the
    /// bar, if any, closes, and the detailed results are shown.
    Final { bar_finished: bool, results: Vec<Json> },
}

/// What the streaming benchmark has counted: whether a bar is on screen and
/// the benchmark results.
pub struct BenchmarkStreamState {
    pub bar: bool,
    pub tally: BenchmarkTally,
}

/// What event `v` does in state `o` of the streaming benchmark.
pub open spec fn benchmark_stream_step(o: BenchmarkStreamState, v: JsonView, f: BenchmarkStreamState, a: BenchmarkStreamAction) -> bool {
    match status_of(v) {
        Some(s) => if s == "COMPILING"@ {
            a == BenchmarkStreamAction::Stage(Stage::Compiling) && f.bar == o.bar && tally_view(f.tally)
                == tally_view(o.tally)
        } else if s == "SANITY_CHECK_PASSED"@ {
            a == BenchmarkStreamAction::Stage(Stage::SanityChecked) && f.bar == o.bar && tally_view(
                f.tally,
            ) == tally_view(o.tally)
        } else if s == "BENCHMARKING"@ {
            a == BenchmarkStreamAction::Stage(Stage::Benchmarking) && f.bar == o.bar && tally_view(
                f.tally,
            ) == tally_view(o.tally)
        } else if s == "BENCHMARK_RESULT"@ {
            let next = benchmark_step(tally_view(o.tally), o.bar, v);
            &&& tally_view(f.tally) == next.0
            &&& f.bar == (o.bar || next.1.0 is Some)
            &&& a matches BenchmarkStreamAction::Result(st) && step_view(st) == next.1
        } else {
            a is Nothing && f.bar == o.bar && tally_view(f.tally) == tally_view(o.tally)
        },
        None => if json_get(v, "avg_gflops"@) is Some && json_get(v, "avg_runtime_ms"@) is Some && json_get(
            v,
            "benchmark_results"@,
        ) is Some {
            &&& !f.bar
            &&& tally_view(f.tally) == tally_view(o.tally)
            &&& a matches BenchmarkStreamAction::Final { bar_finished, results }
            &&& bar_finished == o.bar
            &&& json_seq_view(results@) == accepted_results(v)
        } else {
            a is Nothing && f.bar == o.bar && tally_view(f.tally) == tally_view(o.tally)
        },
    }
}

impl BenchmarkStreamState {
    pub fn new() -> (res: Self)
        ensures
            !res.bar,
            tally_view(res.tally) == (0u64, 0u64, Seq::<JsonView>::empty()),
    {
        BenchmarkStreamState { bar: false, tally: BenchmarkTally::new() }
    }

    /// Takes an event of the streaming benchmark.
    pub fn on_event(&mut self, event: &Json) -> (res: BenchmarkStreamAction)
        requires
            old(self).tally.completed < u64::MAX,
        ensures
            benchmark_stream_step(*old(self), json_view(*event), *final(self), res),
    {
        match get_str(event, "status") {
            Some(s) => {
                let st = s.as_str();
                if str_eq(st, "COMPILING") {
                    BenchmarkStreamAction::Stage(Stage::Compiling)
                } else if str_eq(st, "SANITY_CHECK_PASSED") {
                    BenchmarkStreamAction::Stage(Stage::SanityChecked)
                } else if str_eq(st, "BENCHMARKING") {
                    BenchmarkStreamAction::Stage(Stage::Benchmarking)
                } else if str_eq(st, "BENCHMARK_RESULT") {
                    let step = record_benchmark(&mut self.tally, self.bar, event);
                    if step.new_bar.is_some() {
                        self.bar = true;
                    }
                    BenchmarkStreamAction::Result(step)
                } else {
                    BenchmarkStreamAction::Nothing
                }
            },
            None => {
                if get(event, "avg_gflops").is_some() && get(event, "avg_runtime_ms").is_some() && get(
                    event,
                    "benchmark_results",
                ).is_some() {
                    let bar_finished = self.bar;
                    self.bar = false;
                    let results = match get_array(event, "benchmark_results") {
                        Some(rs) => clone_all(rs),
                        None => {
                            let empty: Vec<Json> = Vec::new();
                            proof {
                                assert(json_seq_view(empty@) =~= Seq::<JsonView>::empty());
                            }
                            empty
                        },
                    };
                    BenchmarkStreamAction::Final { bar_finished, results }
                } else {
                    BenchmarkStreamAction::Nothing
                }
            },
        }
    }
}

} // verus!
