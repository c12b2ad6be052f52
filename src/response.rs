//! Classification of API responses: the shared envelope, the payload of each
//! endpoint and the library's error kinds.
use vstd::prelude::*;

verus! {

/// What can go wrong in a call.
#[derive(Clone, Debug, PartialEq, Eq)]
pub enum Error {
    /// The base URL does not parse or has no host.
    Configuration,
    /// The HTTP exchange itself failed.
    Transport { detail: String },
    /// The service answered with a status other than 200, or with a failure
    /// envelope; `code` and `message` come from the envelope when it decoded.
    Upstream { status: u16, code: Option<u64>, message: Option<String> },
    /// The body is not the expected envelope or payload.
    Decode,
    /// A status poll returned a result outside `waiting`, `allow`, `deny`.
    UnexpectedResult { value: String },
}

/// The wrapper around every response body.
pub struct Envelope<T> {
    pub stat: String,
    pub response: Option<T>,
    pub code: Option<u64>,
    pub message: Option<String>,
}

/// Payload of the health check.
pub struct CheckResponse {
    pub time: u64,
}

/// Payload of the call that starts an authentication.
pub struct AuthResponse {
    pub txid: String,
}

/// Payload of a status poll.
pub struct AuthStatusResponse {
    pub result: String,
}

/// State of an authentication challenge as a poll reports it.
#[derive(Clone, Copy, Debug, PartialEq, Eq, Structural)]
pub enum AuthOutcome {
    Pending,
    Allowed,
    Denied,
}

/// The HTTP status of success.
pub const HTTP_OK: u16 = 200;

/// The error for a failed exchange, with what the envelope says when it decoded.
pub open spec fn upstream_error<T>(status: u16, decoded: Option<Envelope<T>>) -> Error {
    match decoded {
        Some(e) => Error::Upstream { status, code: e.code, message: e.message },
        None => Error::Upstream { status, code: None, message: None },
    }
}

/// What a response yields: the payload on status 200 with `stat` `OK`; an
/// upstream error on any other status or on a failure envelope; a decode
/// error where the body did not decode or carries no payload.
pub open spec fn envelope_result<T>(status: u16, decoded: Option<Envelope<T>>) -> Result<T, Error> {
    if status != HTTP_OK {
        Err(upstream_error(status, decoded))
    } else {
        match decoded {
            None => Err(Error::Decode),
            Some(e) => if e.stat@ != "OK"@ {
                Err(upstream_error(status, decoded))
            } else {
                match e.response {
                    Some(v) => Ok(v),
                    None => Err(Error::Decode),
                }
            },
        }
    }
}

/// The outcome named by a poll result, or the error for an unknown one.
pub open spec fn outcome_of(result: String) -> Result<AuthOutcome, Error> {
    if result@ == "waiting"@ {
        Ok(AuthOutcome::Pending)
    } else if result@ == "allow"@ {
        Ok(AuthOutcome::Allowed)
    } else if result@ == "deny"@ {
        Ok(AuthOutcome::Denied)
    } else {
        Err(Error::UnexpectedResult { value: result })
    }
}

fn same_text(s: &String, lit: &str) -> (r: bool)
    ensures
        r == (s@ == lit@),
{
    let l = lit.to_owned();
    s.eq(&l)
}

/// Opens the envelope of a response with HTTP status `status`; `decoded` is
/// the body decoded as an envelope, or `None` where it did not decode.
pub fn open_envelope<T>(status: u16, decoded: Option<Envelope<T>>) -> (r: Result<T, Error>)
    ensures
        r == envelope_result(status, decoded),
{
    if status != HTTP_OK {
        return match decoded {
            Some(e) => Err(Error::Upstream { status, code: e.code, message: e.message }),
            None => Err(Error::Upstream { status, code: None, message: None }),
        };
    }
    match decoded {
        None => Err(Error::Decode),
        Some(e) => {
            if !same_text(&e.stat, "OK") {
                Err(Error::Upstream { status, code: e.code, message: e.message })
            } else {
                match e.response {
                    Some(v) => Ok(v),
                    None => Err(Error::Decode),
                }
            }
        },
    }
}

/// Maps a poll result to an outcome: `waiting` is pending, `allow` allowed,
/// `deny` denied; any other value is an unexpected-result error carrying it.
pub fn parse_outcome(result: String) -> (r: Result<AuthOutcome, Error>)
    ensures
        r == outcome_of(result),
{
    if same_text(&result, "waiting") {
        Ok(AuthOutcome::Pending)
    } else if same_text(&result, "allow") {
        Ok(AuthOutcome::Allowed)
    } else if same_text(&result, "deny") {
        Ok(AuthOutcome::Denied)
    } else {
        Err(Error::UnexpectedResult { value: result })
    }
}

/// The server time reported by a health check response.
pub fn check_result(status: u16, decoded: Option<Envelope<CheckResponse>>) -> (r: Result<u64, Error>)
    ensures
        r == match envelope_result(status, decoded) {
            Ok(c) => Ok(c.time),
            Err(e) => Err(e),
        },
{
    match open_envelope(status, decoded) {
        Ok(c) => Ok(c.time),
        Err(e) => Err(e),
    }
}

/// The transaction id reported by a start-authentication response.
pub fn auth_result(status: u16, decoded: Option<Envelope<AuthResponse>>) -> (r: Result<String, Error>)
    ensures
        r == match envelope_result(status, decoded) {
            Ok(a) => Ok(a.txid),
            Err(e) => Err(e),
        },
{
    match open_envelope(status, decoded) {
        Ok(a) => Ok(a.txid),
        Err(e) => Err(e),
    }
}

/// The outcome reported by a status-poll response.
pub fn auth_status_result(status: u16, decoded: Option<Envelope<AuthStatusResponse>>) -> (r: Result<
    AuthOutcome,
    Error,
>)
    ensures
        r == match envelope_result(status, decoded) {
            Ok(a) => outcome_of(a.result),
            Err(e) => Err(e),
        },
{
    match open_envelope(status, decoded) {
        Ok(a) => parse_outcome(a.result),
        Err(e) => Err(e),
    }
}

/// A response with any status but 200 is an upstream error that carries
/// that status, whatever its body holds.
pub proof fn lemma_non_ok_status_is_upstream<T>(status: u16, decoded: Option<Envelope<T>>)
    requires
        status != HTTP_OK,
    ensures
        envelope_result(status, decoded) matches Err(Error::Upstream { status: s, .. }) && s == status,
{
}

/// A well-formed success envelope yields exactly its payload.
pub proof fn lemma_ok_envelope_yields_payload<T>(stat: String, payload: T, code: Option<u64>, message: Option<String>)
    requires
        stat@ == "OK"@,
    ensures
        envelope_result(HTTP_OK, Some(Envelope { stat, response: Some(payload), code, message }))
            == Ok::<T, Error>(payload),
{
}

/// Poll results map totally: the three documented values to their outcomes,
/// anything else to an unexpected-result error with the value.
pub proof fn lemma_outcome_mapping(result: String)
    ensures
        result@ == "waiting"@ ==> outcome_of(result) == Ok::<AuthOutcome, Error>(AuthOutcome::Pending),
        result@ == "allow"@ ==> outcome_of(result) == Ok::<AuthOutcome, Error>(AuthOutcome::Allowed),
        result@ == "deny"@ ==> outcome_of(result) == Ok::<AuthOutcome, Error>(AuthOutcome::Denied),
        result@ != "waiting"@ && result@ != "allow"@ && result@ != "deny"@ ==> outcome_of(result)
            == Err::<AuthOutcome, Error>(Error::UnexpectedResult { value: result }),
{
    reveal_strlit("waiting");
    reveal_strlit("allow");
    reveal_strlit("deny");
    assert("waiting"@.len() == 7);
    assert("allow"@.len() == 5);
    assert("deny"@.len() == 4);
}

} // verus!
