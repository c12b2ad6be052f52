//! The decisions of the authentication loop: one start call, then status
//! polls until the challenge is allowed or denied. The caller performs each
//! call (and the pause between polls) and hands back what it returned.
use vstd::prelude::*;
use crate::response::{AuthOutcome, Error};

verus! {

/// What to do next in an authentication.
#[derive(Debug, PartialEq, Eq)]
pub enum AuthStep {
    /// Poll the status of `txid`, after the fixed pause when `wait` holds.
    Poll { txid: String, wait: bool },
    /// Stop with this answer: `true` allowed, `false` denied.
    Done(Result<bool, Error>),
}

/// The seconds to pause between two polls of a pending challenge.
pub const POLL_INTERVAL_SECS: u64 = 2;

/// The step after the start call returned `started`.
pub open spec fn start_step(started: Result<String, Error>) -> AuthStep {
    match started {
        Ok(txid) => AuthStep::Poll { txid, wait: false },
        Err(e) => AuthStep::Done(Err(e)),
    }
}

/// The step after a poll of `txid` returned `polled`.
pub open spec fn poll_step(txid: String, polled: Result<AuthOutcome, Error>) -> AuthStep {
    match polled {
        Ok(AuthOutcome::Pending) => AuthStep::Poll { txid, wait: true },
        Ok(AuthOutcome::Allowed) => AuthStep::Done(Ok(true)),
        Ok(AuthOutcome::Denied) => AuthStep::Done(Ok(false)),
        Err(e) => AuthStep::Done(Err(e)),
    }
}

/// The first step: poll the returned transaction at once, or stop with the
/// start call's error (a failed start is never followed by a poll).
pub fn after_start(started: Result<String, Error>) -> (r: AuthStep)
    ensures
        r == start_step(started),
{
    match started {
        Ok(txid) => AuthStep::Poll { txid, wait: false },
        Err(e) => AuthStep::Done(Err(e)),
    }
}

/// The step after a poll: pause and poll the same transaction again while
/// pending; stop with the answer once allowed or denied; stop with the error
/// of a failed poll (never restarting the challenge).
pub fn after_poll(txid: String, polled: Result<AuthOutcome, Error>) -> (r: AuthStep)
    ensures
        r == poll_step(txid, polled),
{
    match polled {
        Ok(AuthOutcome::Pending) => AuthStep::Poll { txid, wait: true },
        Ok(AuthOutcome::Allowed) => AuthStep::Done(Ok(true)),
        Ok(AuthOutcome::Denied) => AuthStep::Done(Ok(false)),
        Err(e) => AuthStep::Done(Err(e)),
    }
}

/// Runs the steps from `step` against the poll results `script`, one per
/// poll asked for; gives the last step and the number of polls made.
pub open spec fn run_polls(step: AuthStep, script: Seq<Result<AuthOutcome, Error>>) -> (AuthStep, nat)
    decreases script.len(),
{
    match step {
        AuthStep::Poll { txid, wait } => if script.len() == 0 {
            (step, 0)
        } else {
            let (last, n) = run_polls(poll_step(txid, script[0]), script.drop_first());
            (last, n + 1)
        },
        AuthStep::Done(_) => (step, 0),
    }
}

/// `n` pending results followed by `last`.
pub open spec fn pending_then(n: nat, last: AuthOutcome) -> Seq<Result<AuthOutcome, Error>> {
    Seq::new(n, |i: int| Ok::<AuthOutcome, Error>(AuthOutcome::Pending)).push(Ok(last))
}

proof fn lemma_run_pending(txid: String, wait: bool, n: nat, last: AuthOutcome)
    requires
        last != AuthOutcome::Pending,
    ensures
        run_polls(AuthStep::Poll { txid, wait }, pending_then(n, last)) == (
            poll_step(txid, Ok(last)),
            n + 1,
        ),
    decreases n,
{
    let script = pending_then(n, last);
    assert(script.len() == n + 1);
    if n > 0 {
        assert(script[0] == Ok::<AuthOutcome, Error>(AuthOutcome::Pending));
        assert(script.drop_first() =~= pending_then((n - 1) as nat, last));
        lemma_run_pending(txid, true, (n - 1) as nat, last);
        assert(poll_step(txid, script[0]) == AuthStep::Poll { txid, wait: true });
        let rest = run_polls(poll_step(txid, script[0]), script.drop_first());
        assert(run_polls(AuthStep::Poll { txid, wait }, script) == (rest.0, rest.1 + 1));
    } else {
        assert(script[0] == Ok::<AuthOutcome, Error>(last));
        assert(script.drop_first() =~= Seq::<Result<AuthOutcome, Error>>::empty());
        assert(poll_step(txid, Ok(last)) is Done);
        let rest = run_polls(poll_step(txid, script[0]), script.drop_first());
        assert(rest == (poll_step(txid, Ok(last)), 0nat));
        assert(run_polls(AuthStep::Poll { txid, wait }, script) == (rest.0, rest.1 + 1));
    }
}

/// After a successful start, `n` pending polls followed by an allow end the
/// authentication with `true` after exactly `n + 1` polls, and `n` pending
/// polls followed by a deny end it with `false` after `n + 1` polls.
pub proof fn lemma_poll_until_resolved(txid: String, n: nat)
    ensures
        run_polls(start_step(Ok(txid)), pending_then(n, AuthOutcome::Allowed)) == (
            AuthStep::Done(Ok(true)),
            n + 1,
        ),
        run_polls(start_step(Ok(txid)), pending_then(n, AuthOutcome::Denied)) == (
            AuthStep::Done(Ok(false)),
            n + 1,
        ),
{
    lemma_run_pending(txid, false, n, AuthOutcome::Allowed);
    lemma_run_pending(txid, false, n, AuthOutcome::Denied);
}

/// A failed start or a failed poll ends the authentication with that error
/// and asks for no further poll.
pub proof fn lemma_errors_stop(txid: String, e: Error, script: Seq<Result<AuthOutcome, Error>>)
    ensures
        start_step(Err(e)) == AuthStep::Done(Err(e)),
        run_polls(start_step(Err(e)), script) == (AuthStep::Done(Err(e)), 0nat),
        run_polls(poll_step(txid, Err(e)), script) == (AuthStep::Done(Err(e)), 0nat),
{
}

} // verus!
