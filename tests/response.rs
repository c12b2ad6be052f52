use duo_client::response::{
    auth_result, auth_status_result, check_result, open_envelope, parse_outcome, AuthOutcome, AuthResponse,
    AuthStatusResponse, CheckResponse, Envelope, Error,
};

fn env<T>(stat: &str, response: Option<T>) -> Option<Envelope<T>> {
    Some(Envelope { stat: stat.to_string(), response, code: None, message: None })
}

fn failure<T>(code: u64, message: &str) -> Option<Envelope<T>> {
    Some(Envelope {
        stat: "FAIL".to_string(),
        response: None,
        code: Some(code),
        message: Some(message.to_string()),
    })
}

#[test]
fn ok_envelopes_yield_their_payload() {
    assert_eq!(check_result(200, env("OK", Some(CheckResponse { time: 1357020061 }))), Ok(1357020061));
    assert_eq!(auth_result(200, env("OK", Some(AuthResponse { txid: "45f7c92b".to_string() }))), Ok("45f7c92b".to_string()));
    assert_eq!(
        auth_status_result(200, env("OK", Some(AuthStatusResponse { result: "allow".to_string() }))),
        Ok(AuthOutcome::Allowed)
    );
    assert_eq!(open_envelope(200, env("OK", Some(vec![1u8, 2]))), Ok(vec![1u8, 2]));
}

#[test]
fn non_ok_status_is_upstream_error() {
    assert_eq!(
        check_result(400, failure(40002, "Invalid request parameters")),
        Err(Error::Upstream { status: 400, code: Some(40002), message: Some("Invalid request parameters".to_string()) })
    );
    assert_eq!(check_result(401, None), Err(Error::Upstream { status: 401, code: None, message: None }));
    assert_eq!(
        auth_result(500, env("OK", Some(AuthResponse { txid: "t".to_string() }))),
        Err(Error::Upstream { status: 500, code: None, message: None })
    );
}

#[test]
fn failure_envelope_with_ok_status_is_upstream_error() {
    assert_eq!(
        auth_result(200, failure(40301, "denied")),
        Err(Error::Upstream { status: 200, code: Some(40301), message: Some("denied".to_string()) })
    );
}

#[test]
fn undecodable_body_is_decode_error() {
    assert_eq!(check_result(200, None), Err(Error::Decode));
    assert_eq!(check_result(200, env::<CheckResponse>("OK", None)), Err(Error::Decode));
}

#[test]
fn status_results_map_to_outcomes() {
    assert_eq!(parse_outcome("waiting".to_string()), Ok(AuthOutcome::Pending));
    assert_eq!(parse_outcome("allow".to_string()), Ok(AuthOutcome::Allowed));
    assert_eq!(parse_outcome("deny".to_string()), Ok(AuthOutcome::Denied));
    assert_eq!(parse_outcome("bogus".to_string()), Err(Error::UnexpectedResult { value: "bogus".to_string() }));
    assert_eq!(
        auth_status_result(200, env("OK", Some(AuthStatusResponse { result: "Allow".to_string() }))),
        Err(Error::UnexpectedResult { value: "Allow".to_string() })
    );
}
