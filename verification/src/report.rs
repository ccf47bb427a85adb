//! What the command line shows for a problem and for the errors it meets:
//! the PyTorch reference taken out of a problem definition, the reports of
//! argument errors and the report of an unsuccessful HTTP response.
use crate::client::HttpError;
use crate::text::{
    chars_of, contains, contains_seq, join, join_strings, lemma_encode_utf8_concat, lines,
    occurs_at, occurs_at_exec, opt_view, split_char, split_lines, split_on_char, str_eq, trim, trim_bounds,
    trim_start_ws, trim_ws, utf8_width, views,
};
use vstd::prelude::*;
use vstd::utf8::{encode_scalar, encode_utf8};

verus! {

/// The indentation of a line in bytes: the UTF-8 length of its leading white
/// space.
pub open spec fn indent_width(line: Seq<char>) -> int {
    encode_utf8(line).len() - encode_utf8(trim_start_ws(line)).len()
}

/// The line that opens the reference solution.
pub open spec fn starts_reference(line: Seq<char>) -> bool {
    "def reference_solution("@.is_prefix_of(trim_start_ws(line))
}

/// A line that closes a block opened at indentation `base`: not blank,
/// indented no deeper than `base`, and not a decorator line.
pub open spec fn closes_block(line: Seq<char>, base: int) -> bool {
    let t = trim_start_ws(line);
    t.len() > 0 && indent_width(line) <= base && t[0] != '@'
}

/// The first line from `e` on that closes a block opened at `base`, or the
/// number of lines when none does.
pub open spec fn block_end(ls: Seq<Seq<char>>, e: nat, base: int) -> nat
    decreases ls.len() - e,
{
    if e >= ls.len() {
        ls.len()
    } else if closes_block(ls[e as int], base) {
        e
    } else {
        block_end(ls, e + 1, base)
    }
}

/// The first line from `i` on that opens the reference solution.
pub open spec fn first_reference_start(ls: Seq<Seq<char>>, i: nat) -> Option<nat>
    decreases ls.len() - i,
{
    if i >= ls.len() {
        None
    } else if starts_reference(ls[i as int]) {
        Some(i)
    } else {
        first_reference_start(ls, i + 1)
    }
}

/// The `reference_solution` function of a problem definition: the lines from
/// its `def` line up to the first later line that closes its block, joined
/// by newlines; `None` when the definition has no such function.
pub open spec fn reference_solution(definition: Seq<char>) -> Option<Seq<char>> {
    let ls = lines(definition);
    match first_reference_start(ls, 0) {
        Some(s) => Some(
            join(ls.subrange(s as int, block_end(ls, s + 1, indent_width(ls[s as int])) as int), "\n"@),
        ),
        None => None,
    }
}

proof fn lemma_first_reference_start(ls: Seq<Seq<char>>, i: nat)
    ensures
        match first_reference_start(ls, i) {
            Some(s) => i <= s < ls.len() && starts_reference(ls[s as int]) && forall|k: int|
                i <= k < s ==> !starts_reference(#[trigger] ls[k]),
            None => forall|k: int| i <= k < ls.len() ==> !starts_reference(#[trigger] ls[k]),
        },
    decreases ls.len() - i,
{
    if i < ls.len() && !starts_reference(ls[i as int]) {
        lemma_first_reference_start(ls, i + 1);
    }
}

proof fn lemma_block_end(ls: Seq<Seq<char>>, e: nat, base: int)
    ensures
        e <= ls.len() ==> e <= block_end(ls, e, base) <= ls.len(),
        forall|k: int| e <= k < block_end(ls, e, base) ==> !closes_block(#[trigger] ls[k], base),
    decreases ls.len() - e,
{
    if e < ls.len() && !closes_block(ls[e as int], base) {
        lemma_block_end(ls, e + 1, base);
    }
}

/// The reference solution is one block: it starts at the first line that
/// opens `def reference_solution(`, and none of its later lines closes that
/// block (a later method at the same indentation is left out). There is none
/// exactly when no line opens it.
pub proof fn lemma_reference_solution_is_one_block(definition: Seq<char>)
    ensures
        ({
            let ls = lines(definition);
            &&& reference_solution(definition) is None <==> forall|k: int|
                0 <= k < ls.len() ==> !starts_reference(#[trigger] ls[k])
            &&& reference_solution(definition) matches Some(r) ==> exists|s: int, e: int|
                #![trigger ls.subrange(s, e)]
                {
                    &&& 0 <= s < e <= ls.len()
                    &&& starts_reference(ls[s])
                    &&& forall|k: int| 0 <= k < s ==> !starts_reference(#[trigger] ls[k])
                    &&& forall|k: int| s < k < e ==> !closes_block(#[trigger] ls[k], indent_width(ls[s]))
                    &&& r == join(ls.subrange(s, e), "\n"@)
                }
        }),
{
    let ls = lines(definition);
    lemma_first_reference_start(ls, 0);
    match first_reference_start(ls, 0) {
        Some(s) => {
            let base = indent_width(ls[s as int]);
            lemma_block_end(ls, s + 1, base);
            let e = block_end(ls, s + 1, base);
            assert(ls.subrange(s as int, e as int) == ls.subrange(s as int, e as int));
        },
        None => {},
    }
}

/// The indentation of `v`, whose leading white space ends at `lo`.
fn indentation(v: &Vec<char>, lo: usize) -> (w: u128)
    requires
        lo <= v@.len(),
        trim_start_ws(v@) == v@.subrange(lo as int, v@.len() as int),
    ensures
        w == indent_width(v@),
{
    let mut w: u128 = 0;
    let mut i: usize = 0;
    proof {
        assert(v@.take(0) =~= Seq::<char>::empty());
    }
    while i < lo
        invariant
            i <= lo <= v@.len(),
            w == encode_utf8(v@.take(i as int)).len(),
            w <= 4 * i,
        decreases lo - i,
    {
        let c = v[i];
        let d = utf8_width(c);
        proof {
            assert(v@.take(i + 1) =~= v@.take(i as int) + seq![c]);
            lemma_encode_utf8_concat(v@.take(i as int), seq![c]);
            assert(seq![c].drop_first() =~= Seq::<char>::empty());
            assert(encode_utf8(seq![c].drop_first()) =~= Seq::<u8>::empty());
            assert(seq![c][0] == c);
            assert(encode_utf8(seq![c]) =~= encode_scalar(c as u32) + encode_utf8(seq![c].drop_first()));
            assert(encode_utf8(seq![c]) =~= encode_scalar(c as u32));
            assert(d <= 4);
        }
        w = w + d as u128;
        i += 1;
    }
    proof {
        assert(v@ =~= v@.take(lo as int) + v@.subrange(lo as int, v@.len() as int));
        lemma_encode_utf8_concat(v@.take(lo as int), v@.subrange(lo as int, v@.len() as int));
    }
    w
}

/// The indentation of a line and whether its text (after the indentation)
/// is empty, begins with `@`, or begins with `def reference_solution(`.
struct LineShape {
    indent: u128,
    blank: bool,
    decorator: bool,
    opens_reference: bool,
}

fn line_shape(line: &str) -> (res: LineShape)
    ensures
        res.indent == indent_width(line@),
        res.blank == (trim_start_ws(line@).len() == 0),
        !res.blank ==> res.decorator == (trim_start_ws(line@)[0] == '@'),
        res.opens_reference == starts_reference(line@),
{
    let v = chars_of(line);
    let (lo, _hi) = trim_bounds(&v);
    let indent = indentation(&v, lo);
    let blank = lo == v.len();
    let decorator = !blank && v[lo] == '@';
    let pattern = chars_of("def reference_solution(");
    let opens_reference = occurs_at_exec(&v, &pattern, lo);
    proof {
        let t = v@.subrange(lo as int, v@.len() as int);
        let p = "def reference_solution("@;
        if opens_reference {
            assert forall|j: int| 0 <= j < p.len() implies p[j] == t[j] by {
                assert(v@.subrange(lo as int, lo + p.len())[j] == v@[lo + j]);
            }
        } else if p.is_prefix_of(t) {
            assert(v@.subrange(lo as int, lo + p.len()) =~= p) by {
                assert forall|j: int| 0 <= j < p.len() implies v@.subrange(lo as int, lo + p.len())[j]
                    == p[j] by {
                    assert(t[j] == v@[lo + j]);
                }
            }
        }
    }
    LineShape { indent, blank, decorator, opens_reference }
}

/// The `reference_solution` function of a problem definition, as the problem
/// view shows it.
pub fn extract_reference_solution(definition: &str) -> (res: Option<String>)
    ensures
        res matches Some(r) ==> reference_solution(definition@) == Some(r@),
        res is None ==> reference_solution(definition@) is None,
{
    let ls = split_lines(definition);
    let ghost lv = lines(definition@);
    let n = ls.len();
    let mut start: usize = 0;
    while start < n
        invariant
            n == ls@.len(),
            views(ls@) == lv,
            lv == lines(definition@),
            start <= n,
            first_reference_start(lv, 0) == first_reference_start(lv, start as nat),
        decreases n - start,
    {
        proof {
            assert(views(ls@)[start as int] == ls@[start as int]@);
        }
        let shape = line_shape(ls[start].as_str());
        if shape.opens_reference {
            let base = shape.indent;
            let ghost b = base as int;
            let mut end = start + 1;
            let mut closed = false;
            while end < n && !closed
                invariant
                    n == ls@.len(),
                    views(ls@) == lv,
                    start < end <= n,
                    block_end(lv, start as nat + 1, b) == if closed {
                        end as nat
                    } else {
                        block_end(lv, end as nat, b)
                    },
                    closed ==> end < n,
                    b == base as int,
                decreases n - end, if closed { 0int } else { 1int },
            {
                proof {
                    assert(views(ls@)[end as int] == ls@[end as int]@);
                }
                let next = line_shape(ls[end].as_str());
                if !next.blank && next.indent <= base && !next.decorator {
                    closed = true;
                } else {
                    end += 1;
                }
            }
            proof {
                if !closed {
                    assert(block_end(lv, end as nat, b) == end as nat);
                }
            }
            let mut block: Vec<String> = Vec::new();
            let mut k = start;
            while k < end
                invariant
                    start <= k <= end <= n == ls@.len(),
                    views(block@) == views(ls@).subrange(start as int, k as int),
                decreases end - k,
            {
                let ghost before = views(block@);
                block.push(ls[k].clone());
                proof {
                    assert(views(block@) =~= before.push(ls@[k as int]@));
                    assert(views(ls@).subrange(start as int, k + 1) =~= views(ls@).subrange(
                        start as int,
                        k as int,
                    ).push(ls@[k as int]@));
                }
                k += 1;
            }
            return Some(join_strings(&block, "\n"));
        }
        start += 1;
    }
    None
}

/// The value an argument error names: the third `:`-separated piece of its
/// message, trimmed; `None` when the message has fewer than three pieces.
pub open spec fn error_value(message: Seq<char>) -> Option<Seq<char>> {
    let parts = split_char(message, ':');
    if parts.len() >= 3 {
        Some(trim_ws(parts[2]))
    } else {
        None
    }
}

pub fn extract_value_from_error(error_message: &str) -> (res: Option<String>)
    ensures
        res matches Some(r) ==> error_value(error_message@) == Some(r@),
        res is None ==> error_value(error_message@) is None,
{
    let parts = split_on_char(error_message, ':');
    if parts.len() >= 3 {
        proof {
            assert(views(parts@)[2] == parts@[2]@);
        }
        Some(trim(parts[2].as_str()))
    } else {
        None
    }
}

/// The kinds of command-line argument errors that are reported apart.
#[derive(Clone, Copy, PartialEq, Eq, Structural, Debug)]
pub enum ArgErrorKind {
    InvalidValue,
    MissingRequiredArgument,
    DisplayHelp,
    Other,
}

/// How a command-line argument error is reported.
pub enum ArgErrorReport {
    /// An unknown problem, with the value given when the message names it.
    InvalidProblem(Option<String>),
    /// An unknown GPU type, with the value given when the message names it.
    InvalidGpu(Option<String>),
    /// A solution file that is missing, unreadable or of the wrong kind.
    InvalidFile,
    /// A solution language that is not supported yet.
    UnsupportedFile,
    /// A missing required argument, with the message.
    MissingArgument(String),
    /// The help text.
    Help(String),
    /// Any other error, with the message.
    Generic(String),
}

/// The report of an argument error of `kind` with `message`: an invalid value
/// is told apart by the placeholder its message names (`PROBLEM_NAME`,
/// `GPU_TYPE`, `SOLUTION_FILE`, `NOT_SUPPORTED`, in that order).
pub open spec fn arg_error_report_matches(kind: ArgErrorKind, message: Seq<char>, report: ArgErrorReport) -> bool {
    match kind {
        ArgErrorKind::InvalidValue => if contains_seq(message, "PROBLEM_NAME"@) {
            report matches ArgErrorReport::InvalidProblem(v) && opt_view(v) == error_value(message)
        } else if contains_seq(message, "GPU_TYPE"@) {
            report matches ArgErrorReport::InvalidGpu(v) && opt_view(v) == error_value(message)
        } else if contains_seq(message, "SOLUTION_FILE"@) {
            report is InvalidFile
        } else if contains_seq(message, "NOT_SUPPORTED"@) {
            report is UnsupportedFile
        } else {
            report matches ArgErrorReport::Generic(m) && m@ == message
        },
        ArgErrorKind::MissingRequiredArgument => report matches ArgErrorReport::MissingArgument(m)
            && m@ == message,
        ArgErrorKind::DisplayHelp => report matches ArgErrorReport::Help(m) && m@ == message,
        ArgErrorKind::Other => report matches ArgErrorReport::Generic(m) && m@ == message,
    }
}

fn value_or_none(message: &str) -> (res: Option<String>)
    ensures
        opt_view(res) == error_value(message@),
{
    extract_value_from_error(message)
}

pub fn arg_error_report(kind: ArgErrorKind, message: &str) -> (res: ArgErrorReport)
    ensures
        arg_error_report_matches(kind, message@, res),
{
    match kind {
        ArgErrorKind::InvalidValue => {
            if contains(message, "PROBLEM_NAME") {
                ArgErrorReport::InvalidProblem(value_or_none(message))
            } else if contains(message, "GPU_TYPE") {
                ArgErrorReport::InvalidGpu(value_or_none(message))
            } else if contains(message, "SOLUTION_FILE") {
                ArgErrorReport::InvalidFile
            } else if contains(message, "NOT_SUPPORTED") {
                ArgErrorReport::UnsupportedFile
            } else {
                ArgErrorReport::Generic(String::from_str(message))
            }
        },
        ArgErrorKind::MissingRequiredArgument => ArgErrorReport::MissingArgument(
            String::from_str(message),
        ),
        ArgErrorKind::DisplayHelp => ArgErrorReport::Help(String::from_str(message)),
        ArgErrorKind::Other => ArgErrorReport::Generic(String::from_str(message)),
    }
}

/// What the report of an unsuccessful response shows below its headline.
pub enum BodySection {
    /// The `details` the error body carried.
    Details(String),
    /// The raw body, trimmed.
    ResponseBody(String),
}

/// The report of an unsuccessful response.
pub struct HttpErrorReport {
    /// The error, else the message, else `Request failed`.
    pub summary: String,
    pub body: Option<BodySection>,
    /// Advice for some statuses.
    pub hint: Option<String>,
}

/// The headline of the report: the error, else the message, else a default.
pub open spec fn http_error_summary(error: HttpError) -> Seq<char> {
    match error.error {
        Some(e) => e@,
        None => match error.message {
            Some(m) => m@,
            None => "Request failed"@,
        },
    }
}

/// A raw body worth showing: not blank, and not `null` or `{}` once trimmed.
pub open spec fn shows_raw_body(body: Seq<char>) -> bool {
    let t = trim_ws(body);
    t.len() > 0 && t != "null"@ && t != "{}"@
}

/// The advice for a status: for 404 a wrong endpoint, for 429 the rate
/// limit, for 500..=599 a backend failure; none otherwise.
pub open spec fn http_error_hint(status: u16) -> Option<Seq<char>> {
    if status == 404 {
        Some(
            "The Tensara endpoint was not found. Check that your CLI is pointing at the right backend."@,
        )
    } else if status == 429 {
        Some("Rate limit exceeded. Wait a bit before retrying."@)
    } else if 500 <= status <= 599 {
        Some("The Tensara backend failed while handling your request."@)
    } else {
        None
    }
}

pub fn http_error_report(error: &HttpError) -> (res: HttpErrorReport)
    ensures
        res.summary@ == http_error_summary(*error),
        match error.details {
            Some(d) => res.body matches Some(BodySection::Details(t)) && t@ == d@,
            None => if shows_raw_body(error.raw_body@) {
                res.body matches Some(BodySection::ResponseBody(t)) && t@ == trim_ws(
                    error.raw_body@,
                )
            } else {
                res.body is None
            },
        },
        opt_view(res.hint) == http_error_hint(error.status_code),
{
    let summary = match &error.error {
        Some(e) => e.clone(),
        None => match &error.message {
            Some(m) => m.clone(),
            None => String::from_str("Request failed"),
        },
    };
    let body = match &error.details {
        Some(d) => Some(BodySection::Details(d.clone())),
        None => {
            let t = trim(error.raw_body.as_str());
            if chars_of(t.as_str()).len() > 0 && !str_eq(t.as_str(), "null") && !str_eq(
                t.as_str(),
                "{}",
            ) {
                Some(BodySection::ResponseBody(t))
            } else {
                None
            }
        },
    };
    let code = error.status_code;
    let hint = if code == 404 {
        Some(
            String::from_str(
                "The Tensara endpoint was not found. Check that your CLI is pointing at the right backend.",
            ),
        )
    } else if code == 429 {
        Some(String::from_str("Rate limit exceeded. Wait a bit before retrying."))
    } else if 500 <= code && code <= 599 {
        Some(String::from_str("The Tensara backend failed while handling your request."))
    } else {
        None
    };
    HttpErrorReport { summary, body, hint }
}

} // verus!
