use tensara::client::{ClientError, HttpError};
use tensara::commands::{
    endpoint_for, failure_report, problem_command, resolve_endpoints, sample_endpoint_from_submit,
    FailureReport, ProblemCommand,
};

#[test]
fn derives_sample_endpoint_from_full_submit_endpoint() {
    assert_eq!(
        sample_endpoint_from_submit("http://localhost:3000/api/submissions/direct-submit"),
        "http://localhost:3000/api/submissions/sample"
    );
}

#[test]
fn derives_sample_endpoint_from_short_submit_endpoint() {
    assert_eq!(
        sample_endpoint_from_submit("https://tensara.org/direct-submit"),
        "https://tensara.org/sample"
    );
}

#[test]
fn sample_endpoint_leaves_other_urls_alone() {
    assert_eq!(
        sample_endpoint_from_submit("https://tensara.org/api/submit"),
        "https://tensara.org/api/submit"
    );
    assert_eq!(
        sample_endpoint_from_submit("/direct-submit/direct-submit"),
        "/sample/sample"
    );
}

#[test]
fn command_names_map_to_submission_commands() {
    assert_eq!(problem_command("checker"), Some(ProblemCommand::Checker));
    assert_eq!(problem_command("benchmark"), Some(ProblemCommand::Benchmark));
    assert_eq!(problem_command("submit"), Some(ProblemCommand::Submit));
    assert_eq!(problem_command("sample"), Some(ProblemCommand::Sample));
    assert_eq!(problem_command("problems"), None);
}

#[test]
fn endpoints_default_to_routes_under_the_base_url() {
    let endpoints = resolve_endpoints(None, None, None, None, None);
    assert_eq!(endpoints.checker, "https://tensara.org/api/submissions/checker");
    assert_eq!(endpoints.benchmark, "https://tensara.org/api/submissions/benchmark");
    assert_eq!(endpoints.submit, "https://tensara.org/api/submissions/direct-submit");
    assert_eq!(endpoints.sample, "https://tensara.org/api/submissions/sample");
    assert_eq!(
        endpoint_for(&endpoints, ProblemCommand::Sample),
        "https://tensara.org/api/submissions/sample"
    );
}

#[test]
fn overrides_win_and_sample_follows_the_submit_override() {
    let endpoints = resolve_endpoints(
        Some("http://localhost:3000".to_string()),
        Some("http://c/check".to_string()),
        None,
        Some("http://s/direct-submit".to_string()),
        None,
    );
    assert_eq!(endpoints.checker, "http://c/check");
    assert_eq!(endpoints.benchmark, "http://localhost:3000/api/submissions/benchmark");
    assert_eq!(endpoints.submit, "http://s/direct-submit");
    assert_eq!(endpoints.sample, "http://s/sample");
    let with_sample = resolve_endpoints(None, None, None, None, Some("http://x/y".to_string()));
    assert_eq!(with_sample.sample, "http://x/y");
}

fn http_error(status_code: u16) -> HttpError {
    HttpError {
        endpoint: "http://e".to_string(),
        status_code,
        status_text: "x".to_string(),
        content_type: None,
        error: None,
        message: None,
        details: None,
        raw_body: String::new(),
    }
}

#[test]
fn unauthorized_responses_are_reported_as_authentication_failures() {
    assert_eq!(failure_report(&ClientError::Http(http_error(401))), FailureReport::Authentication);
    assert_eq!(failure_report(&ClientError::Http(http_error(500))), FailureReport::Server);
    assert_eq!(
        failure_report(&ClientError::RequestFailed("refused".to_string())),
        FailureReport::Network
    );
}
