//! Asking the catalog service over HTTP: which answers are worth another
//! try, and what to report when the tries are used up.
use crate::number::{decimal_chars, decimal_text};
use crate::text::{chars_of, copy_range, string_of, trim, trim_bounds};
use vstd::prelude::*;
use vstd::slice::slice_subrange;

verus! {

/// How many characters of an answer's body are quoted in an error.
pub const BODY_QUOTE_LIMIT: usize = 240;

/// Whether a status is worth another try: a timeout, too many requests, or
/// an error of the server.
pub open spec fn is_retryable(status: u16) -> bool {
    status == 408 || status == 429 || (500 <= status && status <= 599)
}

/// Whether a status is worth another try.
pub fn should_retry_http_status(status: u16) -> (b: bool)
    ensures
        b == is_retryable(status),
{
    status == 408 || status == 429 || (500 <= status && status <= 599)
}

/// How one try ended.
#[derive(Debug, Clone)]
pub enum Attempt {
    /// The answer's text.
    Body(String),
    /// The answer could not be read as text; the error.
    DecodeFailed(String),
    /// The service answered with an error status; the answer's text.
    Status { status: u16, body: String },
    /// The service could not be reached; the error.
    Transport(String),
}

/// What to do after a try.
#[derive(Debug, Clone)]
pub enum RetryStep {
    /// Wait, then try again.
    Retry,
    /// Give the answer's text.
    Succeed(String),
    /// Give up with this error.
    Fail(String),
}

/// What a `RetryStep` stands for.
pub enum Step {
    Retry,
    Succeed(Seq<char>),
    Fail(Seq<char>),
}

impl View for RetryStep {
    type V = Step;

    open spec fn view(&self) -> Step {
        match self {
            RetryStep::Retry => Step::Retry,
            RetryStep::Succeed(s) => Step::Succeed(s@),
            RetryStep::Fail(s) => Step::Fail(s@),
        }
    }
}

/// The number of tries to make: the number asked for, and at least one.
pub open spec fn tries(attempts: usize) -> usize {
    if attempts >= 1 {
        attempts
    } else {
        1
    }
}

/// How an error status is reported: the status, and in brackets the start
/// of the trimmed body where there is one.
pub open spec fn status_error_text(status: u16, body: Seq<char>) -> Seq<char> {
    let t = trim(body);
    if t.len() == 0 {
        "HTTP status "@ + decimal_text(status as nat)
    } else {
        "HTTP status "@ + decimal_text(status as nat) + " ("@ + t.take(
            if t.len() <= 240 {
                t.len() as int
            } else {
                240
            },
        ) + ")"@
    }
}

/// The error of a request that was tried as often as allowed.
pub open spec fn exhausted_text(attempts: usize, what: Seq<char>) -> Seq<char> {
    "request failed after "@ + decimal_text(tries(attempts) as nat) + " attempt(s): "@ + what
}

/// What to do after try number `attempt` of `attempts`: an answer is given
/// back; an error of the service that is worth another try, and a failure
/// to reach it, lead to another try as long as tries are left; anything
/// else ends the request with an error.
pub open spec fn step_after(attempt: usize, attempts: usize, result: Attempt) -> Step {
    match result {
        Attempt::Body(body) => Step::Succeed(body@),
        Attempt::DecodeFailed(err) => Step::Fail(
            "request failed: response decode failed: "@ + err@,
        ),
        Attempt::Status { status, body } => if is_retryable(status) {
            if attempt < tries(attempts) {
                Step::Retry
            } else {
                Step::Fail(exhausted_text(attempts, status_error_text(status, body@)))
            }
        } else {
            Step::Fail("request failed: "@ + status_error_text(status, body@))
        },
        Attempt::Transport(err) => if attempt < tries(attempts) {
            Step::Retry
        } else {
            Step::Fail(exhausted_text(attempts, "transport error: "@ + err@))
        },
    }
}

fn status_error(status: u16, body: &str) -> (out: String)
    ensures
        out@ == status_error_text(status, body@),
{
    let mut out = String::from_str("HTTP status ");
    out.append(string_of(decimal_chars(status as u128).as_slice()).as_str());
    let c = chars_of(body);
    let (a, b) = trim_bounds(c.as_slice());
    let t = slice_subrange(c.as_slice(), a, b);
    if t.len() > 0 {
        let keep: usize = if t.len() <= BODY_QUOTE_LIMIT {
            t.len()
        } else {
            BODY_QUOTE_LIMIT
        };
        let quoted = copy_range(t, 0, keep);
        assert(t@.subrange(0, keep as int) =~= t@.take(keep as int));
        out.append(" (");
        out.append(string_of(quoted.as_slice()).as_str());
        out.append(")");
    }
    out
}

fn exhausted(attempts: usize, what: &str) -> (out: String)
    ensures
        out@ == exhausted_text(attempts, what@),
{
    let n: usize = if attempts >= 1 {
        attempts
    } else {
        1
    };
    let mut out = String::from_str("request failed after ");
    out.append(string_of(decimal_chars(n as u128).as_slice()).as_str());
    out.append(" attempt(s): ");
    out.append(what);
    out
}

/// Decides what to do after try number `attempt`, counted from 1, of at
/// most `attempts` tries.
pub fn retry_step(attempt: usize, attempts: usize, result: Attempt) -> (out: RetryStep)
    ensures
        out@ == step_after(attempt, attempts, result),
        attempt >= tries(attempts) ==> !(out is Retry),
{
    let n: usize = if attempts >= 1 {
        attempts
    } else {
        1
    };
    match result {
        Attempt::Body(body) => RetryStep::Succeed(body),
        Attempt::DecodeFailed(err) => {
            let mut m = String::from_str("request failed: response decode failed: ");
            m.append(err.as_str());
            RetryStep::Fail(m)
        },
        Attempt::Status { status, body } => {
            let what = status_error(status, body.as_str());
            if should_retry_http_status(status) {
                if attempt < n {
                    RetryStep::Retry
                } else {
                    RetryStep::Fail(exhausted(attempts, what.as_str()))
                }
            } else {
                let mut m = String::from_str("request failed: ");
                m.append(what.as_str());
                RetryStep::Fail(m)
            }
        },
        Attempt::Transport(err) => {
            if attempt < n {
                RetryStep::Retry
            } else {
                let mut what = String::from_str("transport error: ");
                what.append(err.as_str());
                RetryStep::Fail(exhausted(attempts, what.as_str()))
            }
        },
    }
}

/// The error of a request that ran out of tries without an answer.
pub fn exhausted_without_error() -> (out: String)
    ensures
        out@ == "request failed: exhausted attempts without a concrete error"@,
{
    String::from_str("request failed: exhausted attempts without a concrete error")
}

} // verus!
