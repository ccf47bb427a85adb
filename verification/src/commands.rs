//! The decisions the command line makes around a submission: which endpoint
//! each command goes to and how a failed request is reported.
use crate::api::{api_url, api_url_spec};
use crate::client::ClientError;
use crate::text::{replace, replace_all};
use vstd::prelude::*;

verus! {

/// The sample endpoint derived from the submit endpoint: the full
/// `/api/submissions/direct-submit` route becomes `/api/submissions/sample`,
/// then any remaining `/direct-submit` becomes `/sample`.
pub open spec fn sample_endpoint_spec(submit: Seq<char>) -> Seq<char> {
    replace_all(
        replace_all(submit, "/api/submissions/direct-submit"@, "/api/submissions/sample"@),
        "/direct-submit"@,
        "/sample"@,
    )
}

pub fn sample_endpoint_from_submit(submit_endpoint: &str) -> (res: String)
    ensures
        res@ == sample_endpoint_spec(submit_endpoint@),
{
    proof {
        reveal_strlit("/api/submissions/direct-submit");
        reveal_strlit("/direct-submit");
    }
    let first = replace(submit_endpoint, "/api/submissions/direct-submit", "/api/submissions/sample");
    replace(first.as_str(), "/direct-submit", "/sample")
}

/// The commands that send a solution to an endpoint.
#[derive(Clone, Copy, PartialEq, Eq, Structural, Debug)]
pub enum ProblemCommand {
    Checker,
    Benchmark,
    Submit,
    Sample,
}

pub open spec fn problem_command_spec(name: Seq<char>) -> Option<ProblemCommand> {
    if name == "checker"@ {
        Some(ProblemCommand::Checker)
    } else if name == "benchmark"@ {
        Some(ProblemCommand::Benchmark)
    } else if name == "submit"@ {
        Some(ProblemCommand::Submit)
    } else if name == "sample"@ {
        Some(ProblemCommand::Sample)
    } else {
        None
    }
}

/// The submission command a command name stands for, if any.
pub fn problem_command(name: &str) -> (res: Option<ProblemCommand>)
    ensures
        res == problem_command_spec(name@),
{
    if crate::text::str_eq(name, "checker") {
        Some(ProblemCommand::Checker)
    } else if crate::text::str_eq(name, "benchmark") {
        Some(ProblemCommand::Benchmark)
    } else if crate::text::str_eq(name, "submit") {
        Some(ProblemCommand::Submit)
    } else if crate::text::str_eq(name, "sample") {
        Some(ProblemCommand::Sample)
    } else {
        None
    }
}

/// The endpoint of each submission command.
pub struct Endpoints {
    pub checker: String,
    pub benchmark: String,
    pub submit: String,
    pub sample: String,
}

/// An override if one is set, else the default.
pub open spec fn overridden(value: Option<String>, default: Seq<char>) -> Seq<char> {
    match value {
        Some(v) => v@,
        None => default,
    }
}

fn clone_option(value: &Option<String>) -> (res: Option<String>)
    ensures
        res == *value,
{
    match value {
        Some(v) => Some(v.clone()),
        None => None,
    }
}

/// The endpoints in use, from the configured API base URL and the per-route
/// overrides (`CHECKER_ENDPOINT`, `BENCHMARK_ENDPOINT`, `SUBMIT_ENDPOINT`,
/// `SAMPLE_ENDPOINT`). Without an override the sample endpoint is derived
/// from the submit endpoint in use.
pub fn resolve_endpoints(
    configured_base: Option<String>,
    checker: Option<String>,
    benchmark: Option<String>,
    submit: Option<String>,
    sample: Option<String>,
) -> (res: Endpoints)
    ensures
        res.checker@ == overridden(
            checker,
            api_url_spec(configured_base, "/api/submissions/checker"@),
        ),
        res.benchmark@ == overridden(
            benchmark,
            api_url_spec(configured_base, "/api/submissions/benchmark"@),
        ),
        res.submit@ == overridden(
            submit,
            api_url_spec(configured_base, "/api/submissions/direct-submit"@),
        ),
        res.sample@ == overridden(sample, sample_endpoint_spec(res.submit@)),
{
    let checker = match checker {
        Some(c) => c,
        None => api_url(clone_option(&configured_base), "/api/submissions/checker"),
    };
    let benchmark = match benchmark {
        Some(b) => b,
        None => api_url(clone_option(&configured_base), "/api/submissions/benchmark"),
    };
    let submit = match submit {
        Some(s) => s,
        None => api_url(clone_option(&configured_base), "/api/submissions/direct-submit"),
    };
    let sample = match sample {
        Some(s) => s,
        None => sample_endpoint_from_submit(submit.as_str()),
    };
    Endpoints { checker, benchmark, submit, sample }
}

/// The endpoint a submission command is sent to.
pub fn endpoint_for(endpoints: &Endpoints, command: ProblemCommand) -> (res: &String)
    ensures
        res == match command {
            ProblemCommand::Checker => &endpoints.checker,
            ProblemCommand::Benchmark => &endpoints.benchmark,
            ProblemCommand::Submit => &endpoints.submit,
            ProblemCommand::Sample => &endpoints.sample,
        },
{
    match command {
        ProblemCommand::Checker => &endpoints.checker,
        ProblemCommand::Benchmark => &endpoints.benchmark,
        ProblemCommand::Submit => &endpoints.submit,
        ProblemCommand::Sample => &endpoints.sample,
    }
}

/// How a failed submission request is reported.
#[derive(Clone, Copy, PartialEq, Eq, Structural, Debug)]
pub enum FailureReport {
    /// The server refused the credentials (HTTP 401).
    Authentication,
    /// The server answered with another unsuccessful status.
    Server,
    /// No response came back.
    Network,
}

pub open spec fn failure_report_spec(error: ClientError) -> FailureReport {
    match error {
        ClientError::Http(e) => if e.status_code == 401 {
            FailureReport::Authentication
        } else {
            FailureReport::Server
        },
        ClientError::RequestFailed(_) => FailureReport::Network,
    }
}

pub fn failure_report(error: &ClientError) -> (res: FailureReport)
    ensures
        res == failure_report_spec(*error),
{
    match error {
        ClientError::Http(e) => if e.status_code == 401 {
            FailureReport::Authentication
        } else {
            FailureReport::Server
        },
        ClientError::RequestFailed(_) => FailureReport::Network,
    }
}

} // verus!
