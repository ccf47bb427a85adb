//! The base URL of the Tensara API and the URLs of its routes.
use crate::text::{
    lemma_trim_end_char, lemma_trim_start_char, trim, trim_end_char, trim_end_matches_char,
    trim_start_char, trim_start_matches_char, trim_ws,
};
use vstd::prelude::*;

verus! {

/// The production API, used when no base URL is configured.
pub const DEFAULT_API_BASE_URL: &'static str = "https://tensara.org";

/// The configured base URL, or the production API when none is configured.
pub open spec fn chosen_api_base(value: Option<String>) -> Seq<char> {
    match value {
        Some(v) => v@,
        None => DEFAULT_API_BASE_URL@,
    }
}

/// The base URL in use: the chosen one, trimmed of white space and of any
/// trailing slashes.
pub open spec fn normalized_api_base(value: Option<String>) -> Seq<char> {
    trim_end_char(trim_ws(chosen_api_base(value)), '/')
}

/// The URL of `path` under the base URL: the base, one slash, and the path
/// without its leading slashes.
pub open spec fn api_url_spec(value: Option<String>, path: Seq<char>) -> Seq<char> {
    normalized_api_base(value) + seq!['/'] + trim_start_char(path, '/')
}

/// A route's URL has exactly one slash between the base URL and the route:
/// the base in use never ends with a slash, and the route is taken without
/// its leading slashes.
pub proof fn lemma_api_url_has_one_joining_slash(value: Option<String>, path: Seq<char>)
    ensures
        normalized_api_base(value).len() == 0 || normalized_api_base(value).last() != '/',
        trim_start_char(path, '/').len() == 0 || trim_start_char(path, '/')[0] != '/',
        api_url_spec(value, path)[normalized_api_base(value).len() as int] == '/',
{
    lemma_trim_end_char(trim_ws(chosen_api_base(value)), '/');
    lemma_trim_start_char(path, '/');
}

/// Normalizes a configured API base URL (for instance the value of
/// `TENSARA_API_BASE_URL`), falling back to the production API.
pub fn normalize_api_base_url(value: Option<String>) -> (res: String)
    ensures
        res@ == normalized_api_base(value),
{
    let chosen = match value {
        Some(v) => v,
        None => String::from_str(DEFAULT_API_BASE_URL),
    };
    let trimmed = trim(chosen.as_str());
    trim_end_matches_char(trimmed.as_str(), '/')
}

/// The URL of an API route, given the configured base URL (if any).
pub fn api_url(configured_base: Option<String>, path: &str) -> (res: String)
    ensures
        res@ == api_url_spec(configured_base, path@),
{
    let mut res = normalize_api_base_url(configured_base);
    push_slash(&mut res);
    let route = trim_start_matches_char(path, '/');
    res.append(route.as_str());
    res
}

fn push_slash(s: &mut String)
    ensures
        final(s)@ == old(s)@ + seq!['/'],
{
    crate::text::push_char(s, '/');
    proof {
        assert(old(s)@.push('/') =~= old(s)@ + seq!['/']);
    }
}

} // verus!
