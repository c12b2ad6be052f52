use duo_client::polling::{after_poll, after_start, AuthStep, POLL_INTERVAL_SECS};
use duo_client::response::{AuthOutcome, Error};

/// Drives the steps with a scripted start result and poll results; returns
/// the answer, the number of start calls, of polls and of pauses.
fn drive(started: Result<String, Error>, script: &[Result<AuthOutcome, Error>]) -> (Result<bool, Error>, usize, usize, usize) {
    let starts = 1;
    let mut polls = 0;
    let mut pauses = 0;
    let mut step = after_start(started);
    loop {
        match step {
            AuthStep::Done(r) => return (r, starts, polls, pauses),
            AuthStep::Poll { txid, wait } => {
                assert_eq!(txid, "tx");
                if wait {
                    pauses += 1;
                }
                let polled = script[polls].clone();
                polls += 1;
                step = after_poll(txid, polled);
            }
        }
    }
}

#[test]
fn waiting_twice_then_allow() {
    let script = [Ok(AuthOutcome::Pending), Ok(AuthOutcome::Pending), Ok(AuthOutcome::Allowed)];
    assert_eq!(drive(Ok("tx".to_string()), &script), (Ok(true), 1, 3, 2));
}

#[test]
fn deny_at_once() {
    assert_eq!(drive(Ok("tx".to_string()), &[Ok(AuthOutcome::Denied)]), (Ok(false), 1, 1, 0));
}

#[test]
fn failed_start_never_polls() {
    let e = Error::Upstream { status: 400, code: Some(40002), message: None };
    assert_eq!(drive(Err(e.clone()), &[]), (Err(e), 1, 0, 0));
}

#[test]
fn failed_poll_stops() {
    let e = Error::UnexpectedResult { value: "bogus".to_string() };
    let script = [Ok(AuthOutcome::Pending), Err(e.clone()), Ok(AuthOutcome::Allowed)];
    assert_eq!(drive(Ok("tx".to_string()), &script), (Err(e), 1, 2, 1));
}

#[test]
fn first_poll_is_immediate_and_pending_waits() {
    assert_eq!(after_start(Ok("tx".to_string())), AuthStep::Poll { txid: "tx".to_string(), wait: false });
    assert_eq!(
        after_poll("tx".to_string(), Ok(AuthOutcome::Pending)),
        AuthStep::Poll { txid: "tx".to_string(), wait: true }
    );
    assert_eq!(POLL_INTERVAL_SECS, 2);
}
