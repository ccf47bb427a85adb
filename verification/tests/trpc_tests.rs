use tensara::client::{
    bearer_authorization, http_error_from_response, is_success_status, session_cookie, ErrorPayload, Request,
};
use tensara::trpc::{
    connect_failure_message, http_failure_message, parse_failure_message, problem_by_slug_url,
    read_failure_message, slug_query_json, truncate_body,
};

#[test]
fn truncate_body_trims_short_bodies() {
    assert_eq!(truncate_body("  not found \n"), "not found");
    assert_eq!(truncate_body(""), "");
}

#[test]
fn truncate_body_cuts_long_bodies_at_500_characters() {
    let long = "é".repeat(501);
    let cut = truncate_body(&long);
    assert_eq!(cut, format!("{}...", "é".repeat(500)));
    let exact = "x".repeat(500);
    assert_eq!(truncate_body(&exact), exact);
}

#[test]
fn http_failure_message_quotes_the_body_when_there_is_one() {
    assert_eq!(
        http_failure_message("404 Not Found", "http://a/b", " gone "),
        "Tensara API returned HTTP 404 Not Found for http://a/b: gone"
    );
    assert_eq!(
        http_failure_message("500 Internal Server Error", "http://a/b", "   "),
        "Tensara API returned HTTP 500 Internal Server Error for http://a/b"
    );
}

#[test]
fn other_failure_messages() {
    assert_eq!(
        connect_failure_message("http://a", "refused"),
        "failed to connect to Tensara API at http://a: refused"
    );
    assert_eq!(
        read_failure_message("http://a", "eof"),
        "failed to read Tensara API response from http://a: eof"
    );
    assert_eq!(
        parse_failure_message("http://a", "expected value", " <html> "),
        "failed to parse Tensara API JSON from http://a: expected value. Response body: <html>"
    );
}

#[test]
fn problem_url_encodes_the_json_input() {
    assert_eq!(slug_query_json("vector-addition"), "{\"json\":{\"slug\":\"vector-addition\"}}");
    assert_eq!(slug_query_json("a\"b\\c\n"), "{\"json\":{\"slug\":\"a\\\"b\\\\c\\n\"}}");
    assert_eq!(
        problem_by_slug_url(None, "vector-addition"),
        "https://tensara.org/api/trpc/problems.getById?input=%7B%22json%22%3A%7B%22slug%22%3A%22vector-addition%22%7D%7D"
    );
    assert_eq!(
        problem_by_slug_url(Some("http://localhost:3000/".to_string()), "a b~é"),
        "http://localhost:3000/api/trpc/problems.getById?input=%7B%22json%22%3A%7B%22slug%22%3A%22a%20b~%C3%A9%22%7D%7D"
    );
}

#[test]
fn success_range_is_200_to_299() {
    assert!(is_success_status(200));
    assert!(is_success_status(299));
    assert!(!is_success_status(199));
    assert!(!is_success_status(300));
    assert!(!is_success_status(404));
}

#[test]
fn session_cookie_carries_the_token() {
    assert_eq!(session_cookie("tok"), "__Secure-next-auth.session-token=tok");
}

#[test]
fn bearer_header_value() {
    assert_eq!(bearer_authorization("abc"), "Bearer abc");
}

#[test]
fn request_keeps_its_fields() {
    let r = Request::new(
        "relu".to_string(),
        "code".to_string(),
        "float32".to_string(),
        "cuda".to_string(),
        "T4".to_string(),
    );
    assert_eq!(r.problemSlug, "relu");
    assert_eq!(r.code, "code");
    assert_eq!(r.dtype, "float32");
    assert_eq!(r.language, "cuda");
    assert_eq!(r.gpuType, "T4");
}

#[test]
fn http_error_takes_message_or_else_status_from_the_payload() {
    let payload = ErrorPayload {
        error: Some("Unauthorized".to_string()),
        message: None,
        details: Some("bad key".to_string()),
        status: Some("UNAUTHORIZED".to_string()),
    };
    let e = http_error_from_response(
        "http://e",
        401,
        "401 Unauthorized".to_string(),
        Some("application/json".to_string()),
        "{}".to_string(),
        Some(payload),
    );
    assert_eq!(e.endpoint, "http://e");
    assert_eq!(e.status_code, 401);
    assert_eq!(e.error.as_deref(), Some("Unauthorized"));
    assert_eq!(e.message.as_deref(), Some("UNAUTHORIZED"));
    assert_eq!(e.details.as_deref(), Some("bad key"));
    let none = http_error_from_response("http://e", 500, "500".to_string(), None, "oops".to_string(), None);
    assert_eq!(none.error, None);
    assert_eq!(none.message, None);
    assert_eq!(none.details, None);
    assert_eq!(none.raw_body, "oops");
}
