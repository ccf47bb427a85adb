//! The request sent to a submission endpoint and the errors it can come back with.
use vstd::prelude::*;

verus! {

/// The body of a submission request (sample, checker, benchmark or submit).
#[allow(non_snake_case)]
pub struct Request {
    pub problemSlug: String,
    pub code: String,
    pub dtype: String,
    pub language: String,
    pub gpuType: String,
}

#[allow(non_snake_case)]
impl Request {
    pub fn new(
        problemSlug: String,
        code: String,
        dtype: String,
        language: String,
        gpuType: String,
    ) -> (res: Self)
        ensures
            res.problemSlug == problemSlug,
            res.code == code,
            res.dtype == dtype,
            res.language == language,
            res.gpuType == gpuType,
    {
        Self { problemSlug, code, dtype, language, gpuType }
    }
}

/// Why a submission request did not give a usable response.
pub enum ClientError {
    /// The request could not be sent or no response came back.
    RequestFailed(String),
    /// The server answered with a status outside the success range.
    Http(HttpError),
}

/// A response with an unsuccessful HTTP status, with what its body said.
pub struct HttpError {
    pub endpoint: String,
    pub status_code: u16,
    pub status_text: String,
    pub content_type: Option<String>,
    pub error: Option<String>,
    pub message: Option<String>,
    pub details: Option<String>,
    pub raw_body: String,
}

/// The fields that an error response's JSON body may carry.
pub struct ErrorPayload {
    pub error: Option<String>,
    pub message: Option<String>,
    pub details: Option<String>,
    pub status: Option<String>,
}

/// A status in the success range 200..=299.
pub open spec fn is_success_code(code: u16) -> bool {
    200 <= code <= 299
}

/// Whether a response with this status is handed on as a success.
pub fn is_success_status(code: u16) -> (res: bool)
    ensures
        res == is_success_code(code),
{
    200 <= code && code <= 299
}

/// The `Authorization` header value that carries an API key.
pub fn bearer_authorization(token: &str) -> (res: String)
    ensures
        res@ == "Bearer "@ + token@,
{
    let mut res = String::from_str("Bearer ");
    res.append(token);
    res
}

/// The `Cookie` header value that carries an API key as a session token.
pub fn session_cookie(token: &str) -> (res: String)
    ensures
        res@ == "__Secure-next-auth.session-token="@ + token@,
{
    let mut res = String::from_str("__Secure-next-auth.session-token=");
    res.append(token);
    res
}

/// The `error` field of a parsed error body.
pub open spec fn payload_error(parsed: Option<ErrorPayload>) -> Option<String> {
    match parsed {
        Some(p) => p.error,
        None => None,
    }
}

/// The `message` field of a parsed error body, or its `status` field when
/// it has no message.
pub open spec fn payload_message(parsed: Option<ErrorPayload>) -> Option<String> {
    match parsed {
        Some(p) => match p.message {
            Some(m) => Some(m),
            None => p.status,
        },
        None => None,
    }
}

/// The `details` field of a parsed error body.
pub open spec fn payload_details(parsed: Option<ErrorPayload>) -> Option<String> {
    match parsed {
        Some(p) => p.details,
        None => None,
    }
}

/// The error reported for an unsuccessful response, from its status, its
/// content type, its raw body and that body read as an error payload (`None`
/// when it did not parse).
pub fn http_error_from_response(
    endpoint: &str,
    status_code: u16,
    status_text: String,
    content_type: Option<String>,
    raw_body: String,
    parsed: Option<ErrorPayload>,
) -> (res: HttpError)
    ensures
        res.endpoint@ == endpoint@,
        res.status_code == status_code,
        res.status_text == status_text,
        res.content_type == content_type,
        res.raw_body == raw_body,
        res.error == payload_error(parsed),
        res.message == payload_message(parsed),
        res.details == payload_details(parsed),
{
    let (error, message, details) = match parsed {
        Some(p) => {
            let message = match p.message {
                Some(m) => Some(m),
                None => p.status,
            };
            (p.error, message, p.details)
        },
        None => (None, None, None),
    };
    HttpError {
        endpoint: String::from_str(endpoint),
        status_code,
        status_text,
        content_type,
        error,
        message,
        details,
        raw_body,
    }
}

} // verus!
