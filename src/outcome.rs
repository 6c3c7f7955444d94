//! What became of one request: a decoded JSON body or a failure.
use vstd::prelude::*;

verus! {

/// Declares serde_json::Value, the decoded body of a successful request;
/// it is carried through and never looked into.
#[verifier::external_type_specification]
#[verifier::external_body]
pub struct ExJsonValue(serde_json::Value);

/// Whether the bytes are one complete JSON document (surrounding whitespace allowed).
pub uninterp spec fn json_accepts(b: Seq<u8>) -> bool;

/// Relies on serde_json::from_slice into a `serde_json::Value`: whether it
/// succeeds depends on the bytes alone, and empty input is rejected.
#[verifier::external_body]
fn parse_json(b: &[u8]) -> (r: Option<serde_json::Value>)
    ensures
        r is Some <==> json_accepts(b@),
        b@.len() == 0 ==> r is None,
{
    serde_json::from_slice::<serde_json::Value>(b).ok()
}

/// Why a request produced no JSON value.
#[derive(Clone, Copy, Debug, PartialEq, Eq, Structural)]
pub enum FailureKind {
    /// No response came back (connection, DNS, timeout or TLS failure).
    Transport,
    /// A response came back whose body is not JSON.
    BodyDecode,
}

impl FailureKind {
    /// A short human-readable description of the failure.
    pub fn describe(&self) -> (r: &'static str)
        ensures
            r@ == failure_text(*self),
    {
        match self {
            FailureKind::Transport => "transport error",
            FailureKind::BodyDecode => "body decode error",
        }
    }
}

/// The description of each failure kind.
pub open spec fn failure_text(k: FailureKind) -> Seq<char> {
    match k {
        FailureKind::Transport => "transport error"@,
        FailureKind::BodyDecode => "body decode error"@,
    }
}

/// The result of one request.
#[derive(Debug)]
pub enum RequestOutcome {
    /// The response body, decoded as JSON.
    Success(serde_json::Value),
    /// The request failed; `url` is the URL it was sent to.
    Failure { kind: FailureKind, url: String },
}

/// The model of an outcome: which kind it is and, for a failure, its cause
/// and URL; the JSON value is left out.
pub enum OutcomeView {
    Success,
    Failure { kind: FailureKind, url: Seq<char> },
}

impl View for RequestOutcome {
    type V = OutcomeView;

    open spec fn view(&self) -> OutcomeView {
        match self {
            RequestOutcome::Success(_) => OutcomeView::Success,
            RequestOutcome::Failure { kind, url } => OutcomeView::Failure { kind: *kind, url: url@ },
        }
    }
}

/// The outcome of a request to `url` whose body either decoded or did not.
pub open spec fn decoded_outcome(url: Seq<char>, decoded: bool) -> OutcomeView {
    if decoded {
        OutcomeView::Success
    } else {
        OutcomeView::Failure { kind: FailureKind::BodyDecode, url }
    }
}

/// The outcome of a request to `url`, given the response body it got back,
/// or `None` when the transport failed.
pub open spec fn outcome_for(url: Seq<char>, response: Option<Seq<u8>>) -> OutcomeView {
    match response {
        None => OutcomeView::Failure { kind: FailureKind::Transport, url },
        Some(b) => decoded_outcome(url, json_accepts(b)),
    }
}

impl RequestOutcome {
    /// The outcome for a request to `url` from the result of decoding its body:
    /// the value itself on success, a decode failure naming `url` otherwise.
    pub fn from_decoded(url: &str, decoded: Option<serde_json::Value>) -> (r: RequestOutcome)
        ensures
            r@ == decoded_outcome(url@, decoded is Some),
            decoded matches Some(v) ==> r == RequestOutcome::Success(v),
    {
        match decoded {
            Some(v) => RequestOutcome::Success(v),
            None => RequestOutcome::Failure { kind: FailureKind::BodyDecode, url: url.to_owned() },
        }
    }

    /// The outcome for a request to `url`: `response` is the body that came
    /// back, or `None` when the transport failed.
    pub fn from_response(url: &str, response: Option<&[u8]>) -> (r: RequestOutcome)
        ensures
            r@ == outcome_for(
                url@,
                match response {
                    Some(b) => Some(b@),
                    None => None,
                },
            ),
    {
        match response {
            None => RequestOutcome::Failure { kind: FailureKind::Transport, url: url.to_owned() },
            Some(b) => RequestOutcome::from_decoded(url, parse_json(b)),
        }
    }

    /// Whether this outcome carries a JSON value.
    pub fn is_success(&self) -> (r: bool)
        ensures
            r == (self@ is Success),
    {
        match self {
            RequestOutcome::Success(_) => true,
            RequestOutcome::Failure { .. } => false,
        }
    }
}

} // verus!
