//! The problem records served by the tRPC endpoints of the Tensara API, the
//! URLs that fetch them and the messages a failed fetch is reported with.
use crate::api::{normalize_api_base_url, normalized_api_base};
use crate::text::{trim_ws, trim, chars_of, string_of_range};
use vstd::prelude::*;

verus! {

/// A problem as the problem list gives it.
#[derive(Clone, Debug)]
pub struct Problem {
    pub id: String,
    pub slug: String,
    pub title: String,
    pub difficulty: Option<String>,
    pub author: Option<String>,
    pub tags: Option<Vec<String>>,
}

/// A problem with its description, definition and ABI parameters.
#[derive(Debug)]
pub struct ProblemDetails {
    pub id: String,
    pub slug: String,
    pub title: String,
    pub difficulty: Option<String>,
    pub author: Option<String>,
    pub tags: Option<Vec<String>>,
    pub description: Option<String>,
    pub definition: Option<String>,
    pub parameters: Option<Vec<ProblemParameter>>,
}

/// One parameter of a problem's solution function. `const_`, `pointer` and
/// `constant` hold `"true"` when the flag is set.
#[derive(Debug)]
pub struct ProblemParameter {
    pub name: String,
    pub ty: String,
    pub const_: Option<String>,
    pub pointer: Option<String>,
    pub constant: Option<String>,
}

/// The input of the submission-creating tRPC route.
#[derive(Debug)]
pub struct CreateSubmissionInput {
    pub problem_slug: String,
    pub code: String,
    pub language: String,
    pub gpu_type: String,
}

/// A submission record.
#[derive(Debug)]
pub struct Submission {
    pub id: String,
    pub status: Option<String>,
    pub language: Option<String>,
    pub gpu_type: Option<String>,
    pub problem_id: String,
    pub user_id: String,
}

/// How many characters of a response body an error message quotes.
pub const BODY_EXCERPT_CHARS: usize = 500;

/// A response body as an error message quotes it: trimmed, and cut to its
/// first 500 characters followed by `...` when longer.
pub open spec fn truncated_body(body: Seq<char>) -> Seq<char> {
    let t = trim_ws(body);
    if t.len() <= BODY_EXCERPT_CHARS {
        t
    } else {
        t.take(BODY_EXCERPT_CHARS as int) + "..."@
    }
}

/// An excerpt holds at most 503 characters (500 and `...`), and a body whose
/// trimmed text fits is quoted whole.
pub proof fn lemma_truncated_body_bound(body: Seq<char>)
    ensures
        truncated_body(body).len() <= BODY_EXCERPT_CHARS + 3,
        trim_ws(body).len() <= BODY_EXCERPT_CHARS ==> truncated_body(body) == trim_ws(body),
{
    reveal_strlit("...");
}

pub fn truncate_body(body: &str) -> (res: String)
    ensures
        res@ == truncated_body(body@),
{
    let trimmed = trim(body);
    let chars = chars_of(trimmed.as_str());
    if chars.len() <= BODY_EXCERPT_CHARS {
        return trimmed;
    }
    let mut res = string_of_range(&chars, 0, BODY_EXCERPT_CHARS);
    res.append("...");
    proof {
        assert(chars@.subrange(0, BODY_EXCERPT_CHARS as int) =~= trimmed@.take(BODY_EXCERPT_CHARS as int));
    }
    res
}

/// The message for a request that could not reach the API.
pub fn connect_failure_message(url: &str, error: &str) -> (res: String)
    ensures
        res@ == "failed to connect to Tensara API at "@ + url@ + ": "@ + error@,
{
    let mut res = String::from_str("failed to connect to Tensara API at ");
    res.append(url);
    res.append(": ");
    res.append(error);
    res
}

/// The message for a response whose body could not be read.
pub fn read_failure_message(url: &str, error: &str) -> (res: String)
    ensures
        res@ == "failed to read Tensara API response from "@ + url@ + ": "@ + error@,
{
    let mut res = String::from_str("failed to read Tensara API response from ");
    res.append(url);
    res.append(": ");
    res.append(error);
    res
}

/// The message for a response with an unsuccessful status: the status, the
/// URL and, when the quoted body is not empty, `": "` and the quoted body.
pub open spec fn http_failure_message_spec(status: Seq<char>, url: Seq<char>, body: Seq<char>) -> Seq<char> {
    let quoted = truncated_body(body);
    let suffix = if quoted.len() == 0 { Seq::<char>::empty() } else { ": "@ + quoted };
    "Tensara API returned HTTP "@ + status + " for "@ + url + suffix
}

pub fn http_failure_message(status: &str, url: &str, body: &str) -> (res: String)
    ensures
        res@ == http_failure_message_spec(status@, url@, body@),
{
    let quoted = truncate_body(body);
    let mut res = String::from_str("Tensara API returned HTTP ");
    res.append(status);
    res.append(" for ");
    res.append(url);
    let empty = chars_of(quoted.as_str()).len() == 0;
    if !empty {
        res.append(": ");
        res.append(quoted.as_str());
    }
    proof {
        if empty {
            assert(res@ + Seq::<char>::empty() =~= res@);
        }
    }
    res
}

/// The message for a body that is not the expected JSON.
pub fn parse_failure_message(url: &str, error: &str, body: &str) -> (res: String)
    ensures
        res@ == "failed to parse Tensara API JSON from "@ + url@ + ": "@ + error@
            + ". Response body: "@ + truncated_body(body@),
{
    let quoted = truncate_body(body);
    let mut res = String::from_str("failed to parse Tensara API JSON from ");
    res.append(url);
    res.append(": ");
    res.append(error);
    res.append(". Response body: ");
    res.append(quoted.as_str());
    res
}

/// A lower-case hexadecimal digit.
pub open spec fn hex_digit_lower(n: u32) -> char {
    if n < 10 { (48 + n) as char } else { (87 + n) as char }
}

/// An upper-case hexadecimal digit.
pub open spec fn hex_digit_upper(n: u8) -> char {
    if n < 10 { (48 + n) as char } else { (55 + n) as char }
}

/// One character as it stands inside a JSON string literal.
pub open spec fn json_escape_char(c: char) -> Seq<char> {
    let u = c as u32;
    if c == '"' {
        seq!['\\', '"']
    } else if c == '\\' {
        seq!['\\', '\\']
    } else if u == 0x8 {
        seq!['\\', 'b']
    } else if u == 0xc {
        seq!['\\', 'f']
    } else if c == '\n' {
        seq!['\\', 'n']
    } else if c == '\r' {
        seq!['\\', 'r']
    } else if c == '\t' {
        seq!['\\', 't']
    } else if u < 0x20 {
        seq!['\\', 'u', '0', '0', hex_digit_lower(u / 16), hex_digit_lower(u % 16)]
    } else {
        seq![c]
    }
}

pub open spec fn json_escape(s: Seq<char>) -> Seq<char>
    decreases s.len(),
{
    if s.len() == 0 {
        Seq::empty()
    } else {
        json_escape_char(s[0]) + json_escape(s.drop_first())
    }
}

/// `s` as a JSON string literal, the way `serde_json` writes one.
pub open spec fn json_quote(s: Seq<char>) -> Seq<char> {
    seq!['"'] + json_escape(s) + seq!['"']
}

/// A byte that percent-encoding leaves as it is: an ASCII letter or digit,
/// `-`, `.`, `_` or `~`.
pub open spec fn url_unreserved(b: u8) -> bool {
    (48 <= b <= 57) || (65 <= b <= 90) || (97 <= b <= 122) || b == 45 || b == 46 || b == 95 || b
        == 126
}

pub open spec fn percent_encode_byte(b: u8) -> Seq<char> {
    if url_unreserved(b) {
        seq![b as char]
    } else {
        seq!['%', hex_digit_upper(b / 16), hex_digit_upper(b % 16)]
    }
}

pub open spec fn percent_encode(bytes: Seq<u8>) -> Seq<char>
    decreases bytes.len(),
{
    if bytes.len() == 0 {
        Seq::empty()
    } else {
        percent_encode_byte(bytes[0]) + percent_encode(bytes.drop_first())
    }
}

/// `s` percent-encoded byte by byte over its UTF-8 encoding.
pub open spec fn url_encoded(s: Seq<char>) -> Seq<char> {
    percent_encode(vstd::utf8::encode_utf8(s))
}

/// `serde_json::to_string` on a string slice: the JSON string literal of `s`,
/// with `"` and `\` escaped by a backslash, the control characters U+0008,
/// U+000C, `\n`, `\r` and `\t` written as `\b`, `\f`, `\n`, `\r`, `\t`, the
/// other characters below U+0020 as `\u00xx` with lower-case hex digits, and
/// every other character as it is. Serializing a `str` into a `String` does
/// not fail.
#[verifier::external_body]
fn json_string_literal(s: &str) -> (res: String)
    ensures
        res@ == json_quote(s@),
{
    match serde_json::to_string(s) {
        Ok(text) => text,
        Err(_) => String::new(),
    }
}

/// `urlencoding::encode`: every byte of the UTF-8 encoding of `s` except
/// ASCII letters, digits, `-`, `.`, `_` and `~` becomes `%` and two
/// upper-case hex digits.
#[verifier::external_body]
fn url_encode(s: &str) -> (res: String)
    ensures
        res@ == url_encoded(s@),
{
    urlencoding::encode(s).into_owned()
}

/// The JSON input of the problem-by-slug route: `{"json":{"slug":<slug>}}`.
pub open spec fn slug_query(slug: Seq<char>) -> Seq<char> {
    "{\"json\":{\"slug\":"@ + json_quote(slug) + "}}"@
}

/// The URL that fetches one problem by its slug.
pub open spec fn problem_by_slug_url_spec(configured_base: Option<String>, slug: Seq<char>) -> Seq<char> {
    normalized_api_base(configured_base) + "/api/trpc/problems.getById?input="@ + url_encoded(
        slug_query(slug),
    )
}

pub fn slug_query_json(slug: &str) -> (res: String)
    ensures
        res@ == slug_query(slug@),
{
    let mut res = String::from_str("{\"json\":{\"slug\":");
    let literal = json_string_literal(slug);
    res.append(literal.as_str());
    res.append("}}");
    res
}

pub fn problem_by_slug_url(configured_base: Option<String>, slug: &str) -> (res: String)
    ensures
        res@ == problem_by_slug_url_spec(configured_base, slug@),
{
    let query = slug_query_json(slug);
    let encoded = url_encode(query.as_str());
    let mut res = normalize_api_base_url(configured_base);
    res.append("/api/trpc/problems.getById?input=");
    res.append(encoded.as_str());
    res
}

} // verus!
