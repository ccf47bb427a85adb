use tensara::client::HttpError;
use tensara::report::{
    arg_error_report, extract_reference_solution, extract_value_from_error, http_error_report,
    ArgErrorKind, ArgErrorReport, BodySection,
};

#[test]
fn extracts_reference_solution_method_only() {
    let definition = r#"
class VectorAddition:
    def reference_solution(self, a, b):
        c = a + b
        return c

    def verify_result(self, expected, actual):
        return True, {}
"#;

    let reference = extract_reference_solution(definition).unwrap();

    assert!(reference.contains("def reference_solution"));
    assert!(reference.contains("return c"));
    assert!(!reference.contains("def verify_result"));
}

#[test]
fn returns_none_when_reference_solution_is_missing() {
    assert!(extract_reference_solution("class Problem:\n    pass").is_none());
}

#[test]
fn reference_solution_keeps_blank_lines_and_decorators_inside_it() {
    let definition = "class P:\n    def reference_solution(self, x):\n        y = x\n\n        return y\n    @staticmethod\n    def helper():\n        pass\n";
    assert_eq!(
        extract_reference_solution(definition).unwrap(),
        "    def reference_solution(self, x):\n        y = x\n\n        return y\n    @staticmethod"
    );
    let last = "def reference_solution(a):\n  return a\n";
    assert_eq!(extract_reference_solution(last).unwrap(), "def reference_solution(a):\n  return a");
}

#[test]
fn error_value_is_the_third_colon_piece() {
    assert_eq!(
        extract_value_from_error("error: invalid value: foo  : more").as_deref(),
        Some("foo")
    );
    assert_eq!(extract_value_from_error("error: only two"), None);
}

#[test]
fn argument_errors_are_told_apart() {
    match arg_error_report(ArgErrorKind::InvalidValue, "error: invalid value 'x' for '<PROBLEM_NAME>': bad") {
        ArgErrorReport::InvalidProblem(v) => assert_eq!(v.as_deref(), Some("bad")),
        _ => panic!("expected an invalid problem report"),
    }
    match arg_error_report(ArgErrorKind::InvalidValue, "GPU_TYPE") {
        ArgErrorReport::InvalidGpu(v) => assert_eq!(v, None),
        _ => panic!("expected an invalid GPU report"),
    }
    assert!(matches!(
        arg_error_report(ArgErrorKind::InvalidValue, "bad SOLUTION_FILE"),
        ArgErrorReport::InvalidFile
    ));
    assert!(matches!(
        arg_error_report(ArgErrorKind::InvalidValue, "NOT_SUPPORTED"),
        ArgErrorReport::UnsupportedFile
    ));
    assert!(matches!(
        arg_error_report(ArgErrorKind::InvalidValue, "other"),
        ArgErrorReport::Generic(m) if m == "other"
    ));
    assert!(matches!(
        arg_error_report(ArgErrorKind::MissingRequiredArgument, "missing"),
        ArgErrorReport::MissingArgument(m) if m == "missing"
    ));
    assert!(matches!(
        arg_error_report(ArgErrorKind::DisplayHelp, "usage"),
        ArgErrorReport::Help(m) if m == "usage"
    ));
    assert!(matches!(
        arg_error_report(ArgErrorKind::Other, "PROBLEM_NAME"),
        ArgErrorReport::Generic(m) if m == "PROBLEM_NAME"
    ));
}

fn http_error(status_code: u16, error: Option<&str>, message: Option<&str>, details: Option<&str>, raw: &str) -> HttpError {
    HttpError {
        endpoint: "http://e".to_string(),
        status_code,
        status_text: format!("{}", status_code),
        content_type: None,
        error: error.map(|s| s.to_string()),
        message: message.map(|s| s.to_string()),
        details: details.map(|s| s.to_string()),
        raw_body: raw.to_string(),
    }
}

#[test]
fn http_error_report_picks_summary_body_and_hint() {
    let r = http_error_report(&http_error(404, Some("E"), Some("M"), Some("D"), "raw"));
    assert_eq!(r.summary, "E");
    assert!(matches!(r.body, Some(BodySection::Details(d)) if d == "D"));
    assert!(r.hint.unwrap().starts_with("The Tensara endpoint was not found."));

    let r = http_error_report(&http_error(429, None, Some("M"), None, "  body  "));
    assert_eq!(r.summary, "M");
    assert!(matches!(r.body, Some(BodySection::ResponseBody(b)) if b == "body"));
    assert_eq!(r.hint.as_deref(), Some("Rate limit exceeded. Wait a bit before retrying."));

    let r = http_error_report(&http_error(503, None, None, None, " null "));
    assert_eq!(r.summary, "Request failed");
    assert!(r.body.is_none());
    assert_eq!(r.hint.as_deref(), Some("The Tensara backend failed while handling your request."));

    let r = http_error_report(&http_error(400, None, None, None, "{}"));
    assert!(r.body.is_none());
    assert!(r.hint.is_none());
}
