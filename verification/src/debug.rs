//! The debug information that the checker attaches to a wrong answer, taken
//! apart into what the command line shows of it.
use crate::json::{
    clone_number, deep_clone, get, get_number, get_str, json_fields_view, json_get,
    json_seq_view, json_view, lemma_json_fields_view, lemma_json_seq_view, number_field,
    number_view, opt_number_view, str_field, Json, JsonNumber, JsonView,
};
use crate::text::{opt_view, str_eq};
use vstd::prelude::*;

verus! {

/// How many sample differences are shown at most.
pub const SHOWN_SAMPLES: usize = 5;

/// A number written with a fraction or an exponent (`Value::is_f64`).
pub open spec fn is_float(v: JsonView) -> bool {
    v matches JsonView::Number(_, _, f) && f
}

/// Field `key` when it holds a floating-point number.
pub open spec fn float_field(d: JsonView, key: Seq<char>) -> Option<JsonView> {
    match json_get(d, key) {
        Some(v) => if is_float(v) {
            Some(v)
        } else {
            None
        },
        None => None,
    }
}

/// How many of `len` samples are shown.
pub open spec fn shown_count(len: nat) -> nat {
    if len < 5 {
        len
    } else {
        5
    }
}

/// How many of `len` samples are left out.
pub open spec fn more_count(len: nat) -> nat {
    if len > 5 {
        (len - 5) as nat
    } else {
        0
    }
}

/// The samples among the first `n` entries of a map of differences that
/// carry a numeric `actual`, `expected` and `diff`: each with its position
/// (counted from 1), its coordinate and the three numbers.
pub open spec fn coordinate_samples(fs: Seq<(Seq<char>, JsonView)>, n: nat) -> Seq<
    (nat, Seq<char>, JsonView, JsonView, JsonView),
>
    decreases n,
{
    if n == 0 {
        Seq::empty()
    } else {
        let prev = coordinate_samples(fs, (n - 1) as nat);
        let e = fs[n - 1];
        match number_field(e.1, "actual"@) {
            Some(a) => match number_field(e.1, "expected"@) {
                Some(x) => match number_field(e.1, "diff"@) {
                    Some(d) => prev.push((n, e.0, a, x, d)),
                    None => prev,
                },
                None => prev,
            },
            None => prev,
        }
    }
}

/// The numbers among the first `n` elements of a list of differences, each
/// with its position (counted from 1).
pub open spec fn position_samples(vs: Seq<JsonView>, n: nat) -> Seq<(nat, JsonView)>
    decreases n,
{
    if n == 0 {
        Seq::empty()
    } else {
        let prev = position_samples(vs, (n - 1) as nat);
        if vs[n - 1] is Number {
            prev.push((n, vs[n - 1]))
        } else {
            prev
        }
    }
}

/// The keys that are shown in their own way, not among the other fields.
pub open spec fn reserved_key(k: Seq<char>) -> bool {
    ||| k == "message"@
    ||| k == "max_difference"@
    ||| k == "mean_difference"@
    ||| k == "sample_differences"@
}

/// The fields among the first `n` whose keys are not reserved, in order.
pub open spec fn other_fields(fs: Seq<(Seq<char>, JsonView)>, n: nat) -> Seq<(Seq<char>, JsonView)>
    decreases n,
{
    if n == 0 {
        Seq::empty()
    } else {
        let prev = other_fields(fs, (n - 1) as nat);
        if reserved_key(fs[n - 1].0) {
            prev
        } else {
            prev.push(fs[n - 1])
        }
    }
}

/// The fields of an object.
pub open spec fn fields_of(d: JsonView) -> Seq<(Seq<char>, JsonView)> {
    match d {
        JsonView::Object(fs) => fs,
        _ => Seq::empty(),
    }
}

/// Whether sample differences come as a map from coordinates to the three
/// numbers (a wrong answer) or as a list of numbers (a failed test).
#[derive(Clone, Copy, PartialEq, Eq, Structural, Debug)]
pub enum SampleLayout {
    ByCoordinate,
    ByPosition,
}

/// A sample difference at a coordinate.
pub struct CoordinateSample {
    /// Its position among the samples, counted from 1.
    pub position: usize,
    pub coordinate: String,
    pub actual: JsonNumber,
    pub expected: JsonNumber,
    pub diff: JsonNumber,
}

/// A sample difference given by its position alone.
pub struct PositionSample {
    /// Its position among the samples, counted from 1.
    pub position: usize,
    pub diff: JsonNumber,
}

/// The sample differences that are shown.
pub enum SampleDifferences {
    /// No non-empty map or list of differences of the expected layout.
    NotShown,
    /// The samples shown and how many more there are.
    ByCoordinate { shown: Vec<CoordinateSample>, more: usize },
    /// The samples shown and how many more there are.
    ByPosition { values: Vec<PositionSample>, more: usize },
}

/// A field shown as it is: a floating-point number, or any other value.
pub enum DebugValue {
    Float(JsonNumber),
    Other(Json),
}

/// What is shown of the debug information of a wrong answer.
pub struct DebugReport {
    /// The `message` field, when it is a string.
    pub message: Option<String>,
    /// The `max_difference` field, when it is a floating-point number.
    pub max_difference: Option<JsonNumber>,
    /// The `mean_difference` field, when it is a floating-point number.
    pub mean_difference: Option<JsonNumber>,
    pub samples: SampleDifferences,
    /// Every other field, in order.
    pub others: Vec<(String, DebugValue)>,
}

pub enum SamplesView {
    NotShown,
    ByCoordinate(Seq<(nat, Seq<char>, JsonView, JsonView, JsonView)>, nat),
    ByPosition(Seq<(nat, JsonView)>, nat),
}

/// The sample differences of debug information `d` that are shown.
pub open spec fn samples_of(d: JsonView, layout: SampleLayout) -> SamplesView {
    match json_get(d, "sample_differences"@) {
        Some(JsonView::Object(fs)) => if layout == SampleLayout::ByCoordinate && fs.len() > 0 {
            SamplesView::ByCoordinate(coordinate_samples(fs, shown_count(fs.len())), more_count(fs.len()))
        } else {
            SamplesView::NotShown
        },
        Some(JsonView::Array(vs)) => if layout == SampleLayout::ByPosition && vs.len() > 0 {
            SamplesView::ByPosition(position_samples(vs, shown_count(vs.len())), more_count(vs.len()))
        } else {
            SamplesView::NotShown
        },
        _ => SamplesView::NotShown,
    }
}

pub open spec fn coordinate_sample_view(s: CoordinateSample) -> (nat, Seq<char>, JsonView, JsonView, JsonView) {
    (s.position as nat, s.coordinate@, number_view(s.actual), number_view(s.expected), number_view(s.diff))
}

pub open spec fn position_sample_view(s: PositionSample) -> (nat, JsonView) {
    (s.position as nat, number_view(s.diff))
}

pub open spec fn samples_view(s: SampleDifferences) -> SamplesView {
    match s {
        SampleDifferences::NotShown => SamplesView::NotShown,
        SampleDifferences::ByCoordinate { shown, more } => SamplesView::ByCoordinate(
            shown@.map_values(|c: CoordinateSample| coordinate_sample_view(c)),
            more as nat,
        ),
        SampleDifferences::ByPosition { values, more } => SamplesView::ByPosition(
            values@.map_values(|p: PositionSample| position_sample_view(p)),
            more as nat,
        ),
    }
}

pub open spec fn debug_value_view(v: DebugValue) -> JsonView {
    match v {
        DebugValue::Float(n) => number_view(n),
        DebugValue::Other(j) => json_view(j),
    }
}

pub open spec fn others_view(s: Seq<(String, DebugValue)>) -> Seq<(Seq<char>, JsonView)> {
    s.map_values(|p: (String, DebugValue)| (p.0@, debug_value_view(p.1)))
}

/// `r` is what is shown of debug information `d`.
pub open spec fn debug_report_of(d: JsonView, layout: SampleLayout, r: DebugReport) -> bool {
    &&& opt_view(r.message) == str_field(d, "message"@)
    &&& opt_number_view(r.max_difference) == float_field(d, "max_difference"@)
    &&& opt_number_view(r.mean_difference) == float_field(d, "mean_difference"@)
    &&& samples_view(r.samples) == samples_of(d, layout)
    &&& others_view(r.others@) == other_fields(fields_of(d), fields_of(d).len())
    &&& forall|k: int|
        0 <= k < r.others@.len() ==> ((#[trigger] r.others@[k]).1 is Float <==> is_float(
            debug_value_view(r.others@[k].1),
        ))
}

/// Field `key` when it holds a floating-point number.
fn float_metric(d: &Json, key: &str) -> (res: Option<JsonNumber>)
    ensures
        opt_number_view(res) == float_field(json_view(*d), key@),
{
    match get(d, key) {
        Some(Json::Number(n)) => if n.is_float {
            Some(clone_number(n))
        } else {
            None
        },
        _ => None,
    }
}

fn coordinate_sample_list(fs: &Vec<(String, Json)>) -> (res: Vec<CoordinateSample>)
    ensures
        res@.map_values(|c: CoordinateSample| coordinate_sample_view(c)) == coordinate_samples(
            json_fields_view(fs@),
            shown_count(fs@.len()),
        ),
{
    let ghost fv = json_fields_view(fs@);
    proof {
        lemma_json_fields_view(fs@);
    }
    let n = if fs.len() < SHOWN_SAMPLES {
        fs.len()
    } else {
        SHOWN_SAMPLES
    };
    let mut shown: Vec<CoordinateSample> = Vec::new();
    let mut i: usize = 0;
    while i < n
        invariant
            fv == json_fields_view(fs@),
            fv.len() == fs@.len(),
            forall|k: int| 0 <= k < fs@.len() ==> #[trigger] fv[k] == (fs@[k].0@, json_view(fs@[k].1)),
            n == shown_count(fs@.len()),
            i <= n <= fs@.len(),
            shown@.map_values(|c: CoordinateSample| coordinate_sample_view(c)) == coordinate_samples(
                fv,
                i as nat,
            ),
        decreases n - i,
    {
        let ghost before = shown@;
        let vals = &fs[i].1;
        proof {
            assert(fv[i as int] == (fs@[i as int].0@, json_view(*vals)));
        }
        match get_number(vals, "actual") {
            Some(a) => match get_number(vals, "expected") {
                Some(x) => match get_number(vals, "diff") {
                    Some(df) => {
                        let s = CoordinateSample {
                            position: i + 1,
                            coordinate: fs[i].0.clone(),
                            actual: clone_number(a),
                            expected: clone_number(x),
                            diff: clone_number(df),
                        };
                        shown.push(s);
                        proof {
                            assert(shown@.map_values(|c: CoordinateSample| coordinate_sample_view(c))
                                =~= before.map_values(|c: CoordinateSample| coordinate_sample_view(c)).push(
                                coordinate_sample_view(s),
                            ));
                        }
                    },
                    None => {},
                },
                None => {},
            },
            None => {},
        }
        i += 1;
    }
    shown
}

fn position_sample_list(vs: &Vec<Json>) -> (res: Vec<PositionSample>)
    ensures
        res@.map_values(|p: PositionSample| position_sample_view(p)) == position_samples(
            json_seq_view(vs@),
            shown_count(vs@.len()),
        ),
{
    let ghost sv = json_seq_view(vs@);
    proof {
        lemma_json_seq_view(vs@);
    }
    let n = if vs.len() < SHOWN_SAMPLES {
        vs.len()
    } else {
        SHOWN_SAMPLES
    };
    let mut shown: Vec<PositionSample> = Vec::new();
    let mut i: usize = 0;
    while i < n
        invariant
            sv == json_seq_view(vs@),
            sv.len() == vs@.len(),
            forall|k: int| 0 <= k < vs@.len() ==> #[trigger] sv[k] == json_view(vs@[k]),
            n == shown_count(vs@.len()),
            i <= n <= vs@.len(),
            shown@.map_values(|p: PositionSample| position_sample_view(p)) == position_samples(
                sv,
                i as nat,
            ),
        decreases n - i,
    {
        let ghost before = shown@;
        proof {
            assert(sv[i as int] == json_view(vs@[i as int]));
        }
        match &vs[i] {
            Json::Number(d) => {
                let s = PositionSample { position: i + 1, diff: clone_number(d) };
                shown.push(s);
                proof {
                    assert(shown@.map_values(|p: PositionSample| position_sample_view(p))
                        =~= before.map_values(|p: PositionSample| position_sample_view(p)).push(
                        position_sample_view(s),
                    ));
                }
            },
            _ => {},
        }
        i += 1;
    }
    shown
}

fn sample_differences(d: &Json, layout: SampleLayout) -> (res: SampleDifferences)
    ensures
        samples_view(res) == samples_of(json_view(*d), layout),
{
    match get(d, "sample_differences") {
        Some(Json::Object(fs)) => {
            proof {
                lemma_json_fields_view(fs@);
            }
            if layout == SampleLayout::ByCoordinate && fs.len() > 0 {
                let shown = coordinate_sample_list(fs);
                let more = if fs.len() > SHOWN_SAMPLES {
                    fs.len() - SHOWN_SAMPLES
                } else {
                    0
                };
                SampleDifferences::ByCoordinate { shown, more }
            } else {
                SampleDifferences::NotShown
            }
        },
        Some(Json::Array(vs)) => {
            proof {
                lemma_json_seq_view(vs@);
            }
            if layout == SampleLayout::ByPosition && vs.len() > 0 {
                let values = position_sample_list(vs);
                let more = if vs.len() > SHOWN_SAMPLES {
                    vs.len() - SHOWN_SAMPLES
                } else {
                    0
                };
                SampleDifferences::ByPosition { values, more }
            } else {
                SampleDifferences::NotShown
            }
        },
        _ => SampleDifferences::NotShown,
    }
}

fn is_reserved_key(k: &str) -> (res: bool)
    ensures
        res == reserved_key(k@),
{
    str_eq(k, "message") || str_eq(k, "max_difference") || str_eq(k, "mean_difference")
        || str_eq(k, "sample_differences")
}

fn other_field_list(fs: &Vec<(String, Json)>) -> (res: Vec<(String, DebugValue)>)
    ensures
        others_view(res@) == other_fields(json_fields_view(fs@), fs@.len()),
        forall|k: int|
            0 <= k < res@.len() ==> ((#[trigger] res@[k]).1 is Float <==> is_float(
                debug_value_view(res@[k].1),
            )),
{
    let ghost fv = json_fields_view(fs@);
    proof {
        lemma_json_fields_view(fs@);
    }
    let mut res: Vec<(String, DebugValue)> = Vec::new();
    let mut i: usize = 0;
    while i < fs.len()
        invariant
            fv == json_fields_view(fs@),
            fv.len() == fs@.len(),
            forall|k: int| 0 <= k < fs@.len() ==> #[trigger] fv[k] == (fs@[k].0@, json_view(fs@[k].1)),
            i <= fs@.len(),
            others_view(res@) == other_fields(fv, i as nat),
            forall|k: int|
                0 <= k < res@.len() ==> ((#[trigger] res@[k]).1 is Float <==> is_float(
                    debug_value_view(res@[k].1),
                )),
        decreases fs@.len() - i,
    {
        let ghost before = res@;
        proof {
            assert(fv[i as int] == (fs@[i as int].0@, json_view(fs@[i as int].1)));
        }
        if !is_reserved_key(fs[i].0.as_str()) {
            let value = match &fs[i].1 {
                Json::Number(n) => if n.is_float {
                    DebugValue::Float(clone_number(n))
                } else {
                    DebugValue::Other(deep_clone(&fs[i].1))
                },
                other => DebugValue::Other(deep_clone(other)),
            };
            let entry = (fs[i].0.clone(), value);
            res.push(entry);
            proof {
                assert(others_view(res@) =~= others_view(before).push((entry.0@, debug_value_view(entry.1))));
            }
        }
        i += 1;
    }
    res
}

/// What is shown of debug information `debug_info`, an object.
pub fn debug_report(debug_info: &Json, layout: SampleLayout) -> (res: DebugReport)
    requires
        json_view(*debug_info) is Object,
    ensures
        debug_report_of(json_view(*debug_info), layout, res),
{
    let message = match get_str(debug_info, "message") {
        Some(m) => Some(m.clone()),
        None => None,
    };
    let max_difference = float_metric(debug_info, "max_difference");
    let mean_difference = float_metric(debug_info, "mean_difference");
    let samples = sample_differences(debug_info, layout);
    let others = match debug_info {
        Json::Object(fs) => {
            proof {
                lemma_json_fields_view(fs@);
                assert(fields_of(json_view(*debug_info)) == json_fields_view(fs@));
            }
            other_field_list(fs)
        },
        _ => {
            proof {
                assert(false);
            }
            Vec::new()
        },
    };
    DebugReport { message, max_difference, mean_difference, samples, others }
}

} // verus!
