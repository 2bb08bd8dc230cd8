//! The issuance handler: accepts a newsletter submission and, as one atomic
//! transaction, records the issue, fans it out into one delivery task per
//! currently confirmed subscriber, and saves the idempotent response.
//!
//! The handler follows a fixed state machine per request: validate; consult
//! the idempotency store (a completed key replays its saved response and
//! performs no work; an in-flight key is a conflict); on a fresh key, either
//! the whole transaction commits — issue row, fan-out and idempotency record
//! become visible together — or it rolls back and nothing is visible at all,
//! so retrying with the same key is safe and re-enters fresh.
//!
//! Whether the durable commit succeeds is decided by the store underneath,
//! not by this logic, so the commit outcome is an input here and the
//! contract states exactly what the state becomes for either outcome.

use vstd::prelude::*;
use vstd::string::StringExecFns;
use crate::idempotency::BeginOutcome;
use crate::idempotency::IdempotencyStore;
use crate::idempotency::RecordModel;
use crate::idempotency::ResponseModel;
use crate::idempotency::StoredResponse;
use crate::idempotency::keyed;
use crate::queue::DeliveryQueue;
use crate::queue::fan_out;

verus! {

/// One publisher-submitted newsletter. Immutable once created; retained
/// indefinitely as an audit trail.
pub struct NewsletterIssue {
    pub issue_id: u64,
    pub title: String,
    pub html_content: String,
    pub text_content: String,
    pub created_at: u64,
}

/// What a publisher submits: the issue content and the client-supplied
/// idempotency key that scopes "same logical request" across retries.
pub struct IssueSubmission {
    pub title: String,
    pub html_content: String,
    pub text_content: String,
    pub idempotency_key: String,
}

/// A submission is valid when none of its content parts is empty.
pub open spec fn spec_valid_submission(s: IssueSubmission) -> bool {
    s.title@.len() > 0 && s.html_content@.len() > 0 && s.text_content@.len() > 0
}

/// Executable check matching [`spec_valid_submission`].
pub fn valid_submission(s: &IssueSubmission) -> (b: bool)
    ensures
        b == spec_valid_submission(*s),
{
    !s.title.as_str().is_empty() && !s.html_content.as_str().is_empty()
        && !s.text_content.as_str().is_empty()
}

/// Why a submission was not accepted.
#[derive(Debug)]
pub enum SubmitError {
    /// The submission failed validation: no side effects, and no idempotency
    /// record was written, since no key-bearing work occurred.
    InvalidSubmission,
    /// Another execution currently holds the same (principal, key); the
    /// caller should retry once it has committed or rolled back.
    KeyInFlight,
    /// The issuance transaction failed to commit and was rolled back whole:
    /// no partial queue state and no idempotency record exist, and retrying
    /// with the same key is safe and expected.
    TransactionFailed,
}

/// The response served (and persisted for replay) for an accepted issue:
/// a redirect back to the newsletter form.
pub open spec fn success_response_model() -> ResponseModel {
    ResponseModel {
        status_code: 303,
        headers: seq![("Location"@, "/admin/newsletters"@)],
        body: "The newsletter issue has been accepted - emails will go out shortly."@,
    }
}

/// Build the accepted-submission response.
pub fn success_response() -> (r: StoredResponse)
    ensures
        r@ == success_response_model(),
{
    let mut headers: Vec<(String, String)> = Vec::new();
    headers.push((String::from_str("Location"), String::from_str("/admin/newsletters")));
    let r = StoredResponse {
        status_code: 303,
        headers,
        body: String::from_str(
            "The newsletter issue has been accepted - emails will go out shortly.",
        ),
    };
    proof {
        assert(r@.headers =~= success_response_model().headers);
        assert(r@ =~= success_response_model());
    }
    r
}

/// The durable state the pipeline coordinates: the issue audit trail, the
/// delivery queue and the idempotency store, plus the id the next issue will
/// receive.
pub struct ServiceState {
    pub issues: Vec<NewsletterIssue>,
    pub queue: DeliveryQueue,
    pub store: IdempotencyStore,
    pub next_issue_id: u64,
}

/// The issue row created for submission `sub` under id `id` at time `now`.
pub open spec fn issue_of(id: u64, sub: IssueSubmission, now: u64) -> NewsletterIssue {
    NewsletterIssue {
        issue_id: id,
        title: sub.title,
        html_content: sub.html_content,
        text_content: sub.text_content,
        created_at: now,
    }
}

/// No component of the state changed: what a rolled-back or side-effect-free
/// request must leave behind.
pub open spec fn state_unchanged(s0: ServiceState, s1: ServiceState) -> bool {
    &&& s1.issues@ == s0.issues@
    &&& s1.queue@ == s0.queue@
    &&& s1.store@ == s0.store@
    &&& s1.next_issue_id == s0.next_issue_id
}

/// The one-transaction effect of accepting a fresh submission: one issue row,
/// one pending delivery task per confirmed subscriber (in snapshot order),
/// and one completed idempotency record holding the response served — all
/// visible together, nothing else touched.
pub open spec fn submission_applied(
    s0: ServiceState,
    s1: ServiceState,
    principal_id: u64,
    sub: IssueSubmission,
    subscribers: Seq<String>,
    resp: ResponseModel,
    now: u64,
) -> bool {
    &&& s1.next_issue_id == s0.next_issue_id + 1
    &&& s1.issues@ == s0.issues@.push(issue_of(s0.next_issue_id, sub, now))
    &&& s1.queue@ == s0.queue@ + fan_out(s0.next_issue_id, subscribers)
    &&& s1.store@ == s0.store@.push(
        RecordModel {
            principal_id,
            idempotency_key: sub.idempotency_key@,
            response: Some(resp),
            created_at: now,
        },
    )
}

impl ServiceState {
    /// Some stored issue carries id `id`.
    pub open spec fn has_issue(self, id: u64) -> bool {
        exists|j: int| 0 <= j < self.issues@.len() && (#[trigger] self.issues@[j]).issue_id == id
    }

    /// Consistency of the durable state:
    /// - the idempotency store's composite keys are unique;
    /// - issue ids are unique and below the next id to be handed out;
    /// - every delivery task references an existing issue;
    /// - no two delivery tasks exist for the same (issue, subscriber) pair.
    pub open spec fn wf(self) -> bool {
        &&& self.store.wf()
        &&& forall|i: int|
            0 <= i < self.issues@.len() ==> (#[trigger] self.issues@[i]).issue_id
                < self.next_issue_id
        &&& forall|i: int, j: int|
            0 <= i < self.issues@.len() && 0 <= j < self.issues@.len() && i != j ==> (
            #[trigger] self.issues@[i]).issue_id != (#[trigger] self.issues@[j]).issue_id
        &&& forall|i: int|
            0 <= i < self.queue@.len() ==> (#[trigger] self.queue@[i]).task.issue_id
                < self.next_issue_id
        &&& forall|i: int|
            0 <= i < self.queue@.len() ==> self.has_issue(
                (#[trigger] self.queue@[i]).task.issue_id,
            )
        &&& forall|i: int, j: int|
            0 <= i < self.queue@.len() && 0 <= j < self.queue@.len() && i != j ==> !((
            #[trigger] self.queue@[i]).task.issue_id == (#[trigger] self.queue@[j]).task.issue_id
                && self.queue@[i].task.subscriber_email@ == self.queue@[j].task.subscriber_email@)
    }

    /// A service with no issues, no tasks and no idempotency records.
    pub fn new() -> (s: ServiceState)
        ensures
            s.wf(),
            s.issues@.len() == 0,
            s.queue@.len() == 0,
            s.store@.len() == 0,
            s.next_issue_id == 0,
    {
        ServiceState {
            issues: Vec::new(),
            queue: DeliveryQueue::new(),
            store: IdempotencyStore::new(),
            next_issue_id: 0,
        }
    }

    /// The stored issue with id `issue_id`, if one exists; workers use it to
    /// render the content a claimed task must deliver.
    pub fn find_issue(&self, issue_id: u64) -> (r: Option<&NewsletterIssue>)
        ensures
            match r {
                Some(issue) => issue.issue_id == issue_id && exists|i: int|
                    0 <= i < self.issues@.len() && self.issues@[i] == *issue,
                None => forall|i: int|
                    0 <= i < self.issues@.len() ==> (#[trigger] self.issues@[i]).issue_id
                        != issue_id,
            },
    {
        let mut i: usize = 0;
        while i < self.issues.len()
            invariant
                i <= self.issues@.len(),
                forall|j: int|
                    0 <= j < i ==> (#[trigger] self.issues@[j]).issue_id != issue_id,
            decreases self.issues@.len() - i,
        {
            if self.issues[i].issue_id == issue_id {
                return Some(&self.issues[i]);
            }
            i = i + 1;
        }
        None
    }
}

/// Handle one newsletter submission.
///
/// `confirmed_subscribers` is the set of currently confirmed subscriber
/// addresses, read at enqueue time: the fan-out is a point-in-time snapshot,
/// so a subscriber confirmed after this call does not receive the issue.
/// `commit_succeeds` is the outcome of the durable commit the store reports
/// for the enclosing transaction; on `false`, everything — issue row,
/// fan-out, idempotency record — rolls back together.
///
/// Exactly one of the five ensured cases applies:
/// - an invalid submission is rejected with no side effects;
/// - a key already completed replays its saved response verbatim;
/// - a key currently in flight is a conflict, with no side effects;
/// - a fresh key whose transaction fails to commit leaves no trace;
/// - a fresh key whose transaction commits applies the full fan-out once.
pub fn submit_issue(
    state: &mut ServiceState,
    principal_id: u64,
    submission: &IssueSubmission,
    confirmed_subscribers: &Vec<String>,
    now: u64,
    commit_succeeds: bool,
) -> (r: Result<StoredResponse, SubmitError>)
    requires
        old(state).wf(),
        old(state).next_issue_id < u64::MAX,
        forall|i: int, j: int|
            0 <= i < j < confirmed_subscribers@.len() ==> confirmed_subscribers@[i]@
                != confirmed_subscribers@[j]@,
    ensures
        final(state).wf(),
        !spec_valid_submission(*submission) ==> (r matches Err(SubmitError::InvalidSubmission)
            && state_unchanged(*old(state), *final(state))),
        spec_valid_submission(*submission) && old(state).store.has_completed(
            principal_id,
            submission.idempotency_key@,
        ) ==> (r matches Ok(resp) && resp@ == old(state).store.completed_response(
            principal_id,
            submission.idempotency_key@,
        )) && state_unchanged(*old(state), *final(state)),
        spec_valid_submission(*submission) && old(state).store.has_inflight(
            principal_id,
            submission.idempotency_key@,
        ) ==> (r matches Err(SubmitError::KeyInFlight) && state_unchanged(
            *old(state),
            *final(state),
        )),
        spec_valid_submission(*submission) && !old(state).store.has_record(
            principal_id,
            submission.idempotency_key@,
        ) && !commit_succeeds ==> (r matches Err(SubmitError::TransactionFailed)
            && state_unchanged(*old(state), *final(state))),
        spec_valid_submission(*submission) && !old(state).store.has_record(
            principal_id,
            submission.idempotency_key@,
        ) && commit_succeeds ==> (r matches Ok(resp) && resp@ == success_response_model()
            && submission_applied(
            *old(state),
            *final(state),
            principal_id,
            *submission,
            confirmed_subscribers@,
            resp@,
            now,
        )),
{
    if !valid_submission(submission) {
        proof {
            lemma_unchanged_preserves_wf(*old(state), *state);
        }
        return Err(SubmitError::InvalidSubmission);
    }
    let key = &submission.idempotency_key;
    match state.store.begin(principal_id, key, now) {
        BeginOutcome::Completed(resp) => {
            proof {
                lemma_unchanged_preserves_wf(*old(state), *state);
            }
            Ok(resp)
        },
        BeginOutcome::InFlight => {
            proof {
                lemma_unchanged_preserves_wf(*old(state), *state);
            }
            Err(SubmitError::KeyInFlight)
        },
        BeginOutcome::Fresh => {
            if commit_succeeds {
                // The transaction: issue row, fan-out, idempotency record,
                // all of which become visible together on return.
                let issue_id = state.next_issue_id;
                let ghost store_after_begin = state.store;
                state.issues.push(
                    NewsletterIssue {
                        issue_id,
                        title: submission.title.clone(),
                        html_content: submission.html_content.clone(),
                        text_content: submission.text_content.clone(),
                        created_at: now,
                    },
                );
                state.queue.enqueue_batch(issue_id, confirmed_subscribers);
                let resp = success_response();
                proof {
                    assert(keyed(
                        store_after_begin@[old(state).store@.len() as int],
                        principal_id,
                        key@,
                    ));
                    store_after_begin.lemma_record_index_is(
                        principal_id,
                        key@,
                        old(state).store@.len() as int,
                    );
                }
                state.store.complete(principal_id, key, resp.duplicate());
                state.next_issue_id = issue_id + 1;
                proof {
                    lemma_commit_shapes_state(
                        *old(state),
                        *state,
                        principal_id,
                        *submission,
                        confirmed_subscribers@,
                        resp@,
                        now,
                    );
                }
                Ok(resp)
            } else {
                let ghost store_after_begin = state.store;
                proof {
                    assert(keyed(
                        store_after_begin@[old(state).store@.len() as int],
                        principal_id,
                        key@,
                    ));
                    store_after_begin.lemma_record_index_is(
                        principal_id,
                        key@,
                        old(state).store@.len() as int,
                    );
                }
                state.store.roll_back_reservation(principal_id, key);
                proof {
                    assert(state.store@ =~= old(state).store@);
                    lemma_unchanged_preserves_wf(*old(state), *state);
                }
                Err(SubmitError::TransactionFailed)
            }
        },
    }
}

/// Well-formedness depends only on the durable contents, so a request that
/// leaves every component unchanged leaves the state well formed.
proof fn lemma_unchanged_preserves_wf(s0: ServiceState, s1: ServiceState)
    requires
        s0.wf(),
        state_unchanged(s0, s1),
    ensures
        s1.wf(),
{
    assert forall|i: int| 0 <= i < s1.queue@.len() implies s1.has_issue(
        (#[trigger] s1.queue@[i]).task.issue_id,
    ) by {
        assert(s1.queue@[i] == s0.queue@[i]);
        assert(s0.has_issue(s0.queue@[i].task.issue_id));
        let j = choose|j: int|
            0 <= j < s0.issues@.len() && (#[trigger] s0.issues@[j]).issue_id == s0.queue@[
                i
            ].task.issue_id;
        assert(s1.issues@[j].issue_id == s1.queue@[i].task.issue_id);
        assert(s1.has_issue(s1.queue@[i].task.issue_id));
    }
}

/// After the committed transaction, the final state is exactly the old state
/// with the new issue, the fan-out and the completed record appended, and it
/// is well formed again.
proof fn lemma_commit_shapes_state(
    s0: ServiceState,
    s1: ServiceState,
    principal_id: u64,
    sub: IssueSubmission,
    subscribers: Seq<String>,
    resp: ResponseModel,
    now: u64,
)
    requires
        s0.wf(),
        s0.next_issue_id < u64::MAX,
        forall|i: int, j: int|
            0 <= i < j < subscribers.len() ==> subscribers[i]@ != subscribers[j]@,
        s1.next_issue_id == s0.next_issue_id + 1,
        s1.issues@ == s0.issues@.push(issue_of(s0.next_issue_id, sub, now)),
        s1.queue@ == s0.queue@ + fan_out(s0.next_issue_id, subscribers),
        s1.store@ == s0.store@.push(
            RecordModel {
                principal_id,
                idempotency_key: sub.idempotency_key@,
                response: None,
                created_at: now,
            },
        ).update(
            s0.store@.len() as int,
            RecordModel {
                principal_id,
                idempotency_key: sub.idempotency_key@,
                response: Some(resp),
                created_at: now,
            },
        ),
        s1.store.wf(),
    ensures
        s1.wf(),
        submission_applied(s0, s1, principal_id, sub, subscribers, resp, now),
{
    let new_id = s0.next_issue_id;
    assert(s1.store@ =~= s0.store@.push(
        RecordModel {
            principal_id,
            idempotency_key: sub.idempotency_key@,
            response: Some(resp),
            created_at: now,
        },
    ));
    // Issue ids stay unique and below the bumped counter.
    assert forall|i: int| 0 <= i < s1.issues@.len() implies (#[trigger] s1.issues@[i]).issue_id
        < s1.next_issue_id by {
        if i < s0.issues@.len() {
            assert(s1.issues@[i] == s0.issues@[i]);
        }
    }
    assert forall|i: int, j: int|
        0 <= i < s1.issues@.len() && 0 <= j < s1.issues@.len() && i != j implies (
    #[trigger] s1.issues@[i]).issue_id != (#[trigger] s1.issues@[j]).issue_id by {
        if i < s0.issues@.len() && j < s0.issues@.len() {
            assert(s0.issues@[i].issue_id != s0.issues@[j].issue_id);
        } else if i < s0.issues@.len() {
            assert(s0.issues@[i].issue_id < new_id);
        } else {
            assert(s0.issues@[j].issue_id < new_id);
        }
    }
    // Every task still references an existing issue, and task issue ids stay
    // below the bumped counter.
    assert forall|i: int| 0 <= i < s1.queue@.len() implies (#[trigger] s1.queue@[i]).task.issue_id
        < s1.next_issue_id by {
        if i < s0.queue@.len() {
            assert(s1.queue@[i] == s0.queue@[i]);
        } else {
            assert(s1.queue@[i] == fan_out(new_id, subscribers)[i - s0.queue@.len()]);
        }
    }
    assert forall|i: int| 0 <= i < s1.queue@.len() implies s1.has_issue(
        (#[trigger] s1.queue@[i]).task.issue_id,
    ) by {
        if i < s0.queue@.len() {
            assert(s1.queue@[i] == s0.queue@[i]);
            assert(s0.has_issue(s0.queue@[i].task.issue_id));
            let j = choose|j: int|
                0 <= j < s0.issues@.len() && (#[trigger] s0.issues@[j]).issue_id
                    == s0.queue@[i].task.issue_id;
            assert(s1.issues@[j] == s0.issues@[j]);
            assert(s1.issues@[j].issue_id == s1.queue@[i].task.issue_id);
            assert(s1.has_issue(s1.queue@[i].task.issue_id));
        } else {
            let j = s0.issues@.len() as int;
            assert(s1.issues@[j].issue_id == new_id);
            assert(s1.queue@[i] == fan_out(new_id, subscribers)[i - s0.queue@.len()]);
            assert(s1.issues@[j].issue_id == s1.queue@[i].task.issue_id);
            assert(s1.has_issue(s1.queue@[i].task.issue_id));
        }
    }
    // No (issue, subscriber) pair occurs twice: old tasks have older issue
    // ids, and the new tasks carry pairwise distinct addresses.
    assert forall|i: int, j: int|
        0 <= i < s1.queue@.len() && 0 <= j < s1.queue@.len() && i != j implies !((
    #[trigger] s1.queue@[i]).task.issue_id == (#[trigger] s1.queue@[j]).task.issue_id
        && s1.queue@[i].task.subscriber_email@ == s1.queue@[j].task.subscriber_email@) by {
        let n = s0.queue@.len() as int;
        if i < n && j < n {
            assert(s1.queue@[i] == s0.queue@[i]);
            assert(s1.queue@[j] == s0.queue@[j]);
        } else if i < n {
            assert(s0.queue@[i].task.issue_id < new_id);
            assert(s1.queue@[j] == fan_out(new_id, subscribers)[j - n]);
        } else if j < n {
            assert(s0.queue@[j].task.issue_id < new_id);
            assert(s1.queue@[i] == fan_out(new_id, subscribers)[i - n]);
        } else {
            assert(s1.queue@[i] == fan_out(new_id, subscribers)[i - n]);
            assert(s1.queue@[j] == fan_out(new_id, subscribers)[j - n]);
            if i - n < j - n {
                assert(subscribers[i - n]@ != subscribers[j - n]@);
            } else {
                assert(subscribers[j - n]@ != subscribers[i - n]@);
            }
        }
    }
}

/// For every valid issue submission with a fresh idempotency key whose
/// transaction commits, exactly one newsletter issue row, exactly one
/// delivery task per confirmed subscriber at submission time, and exactly
/// one idempotency record are created — and each new task is a pending,
/// never-attempted send of the new issue to its subscriber.
pub proof fn lemma_fresh_submission_fan_out(
    s0: ServiceState,
    s1: ServiceState,
    principal_id: u64,
    sub: IssueSubmission,
    subscribers: Seq<String>,
    resp: ResponseModel,
    now: u64,
)
    requires
        submission_applied(s0, s1, principal_id, sub, subscribers, resp, now),
    ensures
        s1.issues@.len() == s0.issues@.len() + 1,
        s1.issues@.last() == issue_of(s0.next_issue_id, sub, now),
        s1.queue@.len() == s0.queue@.len() + subscribers.len(),
        forall|k: int|
            0 <= k < subscribers.len() ==> ((#[trigger] s1.queue@[s0.queue@.len() + k]).task
                == crate::queue::fresh_slot(s0.next_issue_id, subscribers[k]).task && s1.queue@[
                s0.queue@.len() + k
            ].status is Pending),
        s1.store@.len() == s0.store@.len() + 1,
        s1.store@.last() == (RecordModel {
            principal_id,
            idempotency_key: sub.idempotency_key@,
            response: Some(resp),
            created_at: now,
        }),
{
    assert forall|k: int| 0 <= k < subscribers.len() implies (#[trigger] s1.queue@[s0.queue@.len()
        + k]).task == crate::queue::fresh_slot(s0.next_issue_id, subscribers[k]).task
        && s1.queue@[s0.queue@.len() + k].status is Pending by {
        assert(s1.queue@[s0.queue@.len() + k] == fan_out(s0.next_issue_id, subscribers)[k]);
    }
}

/// A committed fresh submission leaves the idempotency store mapping
/// (principal, key) to exactly the response it returned. By the contract of
/// [`submit_issue`], every later submission with the same principal and key
/// therefore replays a byte-identical response and creates no additional
/// issue, task or record rows.
pub proof fn lemma_repeated_submission_replays(
    s0: ServiceState,
    s1: ServiceState,
    principal_id: u64,
    sub: IssueSubmission,
    subscribers: Seq<String>,
    resp: ResponseModel,
    now: u64,
)
    requires
        s0.store.wf(),
        !s0.store.has_record(principal_id, sub.idempotency_key@),
        s1.store.wf(),
        submission_applied(s0, s1, principal_id, sub, subscribers, resp, now),
    ensures
        s1.store.has_completed(principal_id, sub.idempotency_key@),
        s1.store.completed_response(principal_id, sub.idempotency_key@) == resp,
{
    let n = s0.store@.len() as int;
    assert(keyed(s1.store@[n], principal_id, sub.idempotency_key@));
    s1.store.lemma_record_index_is(principal_id, sub.idempotency_key@, n);
    assert(s1.store.record_at(principal_id, sub.idempotency_key@).response == Some(resp));
}

} // verus!
