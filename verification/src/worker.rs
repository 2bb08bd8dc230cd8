//! The delivery worker's policy: how one claimed task is driven to a
//! resolution, given what happened when the mail-send capability was invoked
//! with the subscriber's address and the issue's rendered content.
//!
//! The worker itself is a long-lived loop outside this library: it checks a
//! cooperative stop signal between claims (never mid-task), claims the next
//! task, performs the send, and hands the classified outcome back to
//! [`resolve_attempt`], which is a total function over that outcome. The
//! policy decisions — what counts as permanent, what as transient, and that
//! an unexpected internal error errs on the side of retrying — live here and
//! are stated exactly.

use vstd::prelude::*;
use crate::queue::Claim;
use crate::queue::DeliveryFailureReport;
use crate::queue::DeliveryQueue;
use crate::queue::terminal_resolution_step;
use crate::queue::transient_resolution_step;

verus! {

/// The classified failure the mail-send capability reports:
/// `send(to_address, subject, html_body, text_body)` either succeeds or
/// fails with one of these.
pub enum SendFailure {
    /// The address is structurally invalid or the provider rejected it
    /// permanently; a retry can never succeed.
    Permanent(String),
    /// A network, timeout or provider-overload condition; a retry may
    /// succeed.
    Transient(String),
}

/// Everything that can happen while a worker processes one claimed task.
pub enum DeliveryAttemptOutcome {
    /// The mail-send capability confirmed delivery.
    Sent,
    /// The send failed and will never succeed for this address.
    PermanentFailure(String),
    /// The send failed for a reason that may not recur.
    TransientFailure(String),
    /// Some unexpected internal error occurred while processing the task.
    WorkerError(String),
}

/// Outcomes after which the task must stay in the queue for a future retry:
/// transient send failures, and — erring on the side of retrying rather than
/// silently dropping a subscriber — unexpected internal errors.
pub open spec fn outcome_retries(o: DeliveryAttemptOutcome) -> bool {
    o is TransientFailure || o is WorkerError
}

/// Turn the mail-send capability's result into the worker's outcome.
pub fn classify_send_result(r: Result<(), SendFailure>) -> (o: DeliveryAttemptOutcome)
    ensures
        r is Ok <==> o is Sent,
        (r matches Err(SendFailure::Permanent(m)) ==> o == DeliveryAttemptOutcome::PermanentFailure(
            m,
        )),
        (r matches Err(SendFailure::Transient(m)) ==> o == DeliveryAttemptOutcome::TransientFailure(
            m,
        )),
{
    match r {
        Ok(()) => DeliveryAttemptOutcome::Sent,
        Err(SendFailure::Permanent(m)) => DeliveryAttemptOutcome::PermanentFailure(m),
        Err(SendFailure::Transient(m)) => DeliveryAttemptOutcome::TransientFailure(m),
    }
}

/// Resolve one claimed task according to what processing it produced.
///
/// Exactly one of three things happens to the queue:
/// - the send succeeded: the task is deleted, never to be retried;
/// - the failure is permanent: the task is deleted and a structured failure
///   report is handed back for operator visibility;
/// - the failure is transient (or the worker hit an unexpected internal
///   error): the claim is released, the attempt counter grows by one, and
///   the task awaits a future claim.
pub fn resolve_attempt(
    queue: &mut DeliveryQueue,
    c: Claim,
    outcome: DeliveryAttemptOutcome,
    now: u64,
) -> (rep: Option<DeliveryFailureReport>)
    requires
        old(queue).valid_claim(c),
        c.task.n_attempts < u64::MAX,
    ensures
        outcome is Sent ==> (terminal_resolution_step(old(queue)@, final(queue)@, c)
            && rep is None),
        (outcome matches DeliveryAttemptOutcome::PermanentFailure(reason) ==> (
        terminal_resolution_step(old(queue)@, final(queue)@, c) && (rep matches Some(r)
            && r.issue_id == c.task.issue_id && r.subscriber_email == c.task.subscriber_email
            && r.reason == reason))),
        outcome_retries(outcome) ==> (transient_resolution_step(old(queue)@, final(queue)@, c, now)
            && rep is None),
{
    match outcome {
        DeliveryAttemptOutcome::Sent => {
            queue.resolve_success(c);
            None
        },
        DeliveryAttemptOutcome::PermanentFailure(reason) => {
            let rep = queue.resolve_permanent_failure(c, reason);
            Some(rep)
        },
        DeliveryAttemptOutcome::TransientFailure(_) => {
            queue.resolve_transient_failure(c, now);
            None
        },
        DeliveryAttemptOutcome::WorkerError(_) => {
            queue.resolve_transient_failure(c, now);
            None
        },
    }
}

} // verus!
