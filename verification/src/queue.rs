//! The delivery queue: a durable, ordered collection of pending delivery
//! tasks, one per newsletter-issue / subscriber pair, supporting exclusive
//! claims so that concurrent workers never process the same task twice.
//!
//! A task is the unit of the idempotent-delivery guarantee: while it exists
//! unresolved, the send has not been confirmed. A terminal resolution
//! (success or permanent failure) tombstones the slot, which models the
//! deletion of the durable row; a transient resolution releases the claim
//! and increments the attempt counter, so a later claim retries the task.

use vstd::prelude::*;

verus! {

/// One "send this issue to this subscriber" obligation.
pub struct DeliveryTask {
    /// Id of the newsletter issue being delivered; the task does not own
    /// the issue row.
    pub issue_id: u64,
    /// Address of the confirmed subscriber this issue is owed to.
    pub subscriber_email: String,
    /// How many delivery attempts have been made so far.
    pub n_attempts: u64,
    /// When the last attempt was executed, if any (seconds since the epoch).
    pub last_attempted_at: Option<u64>,
}

/// Lifecycle of one queue slot.
pub enum TaskStatus {
    /// Eligible to be claimed by a worker.
    Pending,
    /// Exclusively held by one claimant; invisible to other claimants.
    Claimed,
    /// Terminally resolved (delivered, or permanently failed). The durable
    /// row has been deleted; the slot remains as a tombstone and is never
    /// claimable again.
    Resolved,
}

/// One slot of the queue: a task together with its claim state.
pub struct TaskSlot {
    pub task: DeliveryTask,
    pub status: TaskStatus,
}

/// Exclusive, releasable right to process one delivery task.
///
/// A claim is only handed out by [`DeliveryQueue::claim_next`] and is spent
/// by exactly one of the three resolution operations.
pub struct Claim {
    /// Position of the claimed slot in the queue.
    pub slot_index: usize,
    /// The claimed task, as it was when the claim was taken.
    pub task: DeliveryTask,
}

/// Structured record of a permanent delivery failure, emitted for operator
/// visibility when a task is resolved as permanently failed.
pub struct DeliveryFailureReport {
    pub issue_id: u64,
    pub subscriber_email: String,
    pub reason: String,
}

/// A brand-new pending slot, as created by the fan-out of an issue.
pub open spec fn fresh_slot(issue_id: u64, email: String) -> TaskSlot {
    TaskSlot {
        task: DeliveryTask {
            issue_id,
            subscriber_email: email,
            n_attempts: 0,
            last_attempted_at: None,
        },
        status: TaskStatus::Pending,
    }
}

/// The slots appended when `issue_id` is fanned out to `emails`: one fresh
/// pending task per email, in order.
pub open spec fn fan_out(issue_id: u64, emails: Seq<String>) -> Seq<TaskSlot> {
    Seq::new(emails.len(), |i: int| fresh_slot(issue_id, emails[i]))
}

/// The effect of a successful claim on the queue's slots: `c` points at a
/// slot that was pending, carries its task, and that slot alone is now
/// claimed.
pub open spec fn claim_step(q0: Seq<TaskSlot>, q1: Seq<TaskSlot>, c: Claim) -> bool {
    &&& c.slot_index < q0.len()
    &&& q0[c.slot_index as int].status is Pending
    &&& c.task == q0[c.slot_index as int].task
    &&& q1 == q0.update(
        c.slot_index as int,
        TaskSlot { task: c.task, status: TaskStatus::Claimed },
    )
}

/// The effect of a terminal resolution (success or permanent failure): the
/// claimed slot alone becomes a tombstone; the durable task row is gone.
pub open spec fn terminal_resolution_step(q0: Seq<TaskSlot>, q1: Seq<TaskSlot>, c: Claim) -> bool {
    &&& c.slot_index < q0.len()
    &&& q0[c.slot_index as int].status is Claimed
    &&& c.task == q0[c.slot_index as int].task
    &&& q1 == q0.update(
        c.slot_index as int,
        TaskSlot { task: c.task, status: TaskStatus::Resolved },
    )
}

/// The effect of a transient resolution at time `now`: the claim on the slot
/// is released, the task stays, its attempt counter grows by one and the
/// attempt time is recorded.
pub open spec fn transient_resolution_step(
    q0: Seq<TaskSlot>,
    q1: Seq<TaskSlot>,
    c: Claim,
    now: u64,
) -> bool {
    &&& c.slot_index < q0.len()
    &&& q0[c.slot_index as int].status is Claimed
    &&& c.task == q0[c.slot_index as int].task
    &&& c.task.n_attempts < u64::MAX
    &&& q1 == q0.update(
        c.slot_index as int,
        TaskSlot {
            task: DeliveryTask {
                issue_id: c.task.issue_id,
                subscriber_email: c.task.subscriber_email,
                n_attempts: (c.task.n_attempts + 1) as u64,
                last_attempted_at: Some(now),
            },
            status: TaskStatus::Pending,
        },
    )
}

/// How many slots of `s` are still live, i.e. not terminally resolved.
/// This is the number of durable task rows the queue still holds.
pub open spec fn count_live(s: Seq<TaskSlot>) -> nat
    decreases s.len(),
{
    if s.len() == 0 {
        0
    } else {
        count_live(s.drop_last()) + if s.last().status is Resolved {
            0nat
        } else {
            1nat
        }
    }
}

/// The durable delivery queue.
pub struct DeliveryQueue {
    slots: Vec<TaskSlot>,
}

impl View for DeliveryQueue {
    type V = Seq<TaskSlot>;

    closed spec fn view(&self) -> Seq<TaskSlot> {
        self.slots@
    }
}

impl DeliveryQueue {
    /// `c` is a claim this queue handed out and has not yet seen resolved:
    /// it points at a claimed slot and carries that slot's task.
    pub open spec fn valid_claim(self, c: Claim) -> bool {
        &&& c.slot_index < self@.len()
        &&& self@[c.slot_index as int].status is Claimed
        &&& c.task == self@[c.slot_index as int].task
    }

    /// Some slot is still eligible to be claimed.
    pub open spec fn has_pending(self) -> bool {
        exists|i: int| 0 <= i < self@.len() && self@[i].status is Pending
    }

    /// The queue holds no task of `issue_id` in any state.
    pub open spec fn issue_is_new(self, issue_id: u64) -> bool {
        forall|i: int| 0 <= i < self@.len() ==> self@[i].task.issue_id != issue_id
    }

    /// A live (not terminally resolved) task for `(issue_id, email)` exists:
    /// the send to that subscriber is still owed.
    pub open spec fn has_live_task(self, issue_id: u64, email: Seq<char>) -> bool {
        exists|i: int|
            0 <= i < self@.len() && !((#[trigger] self@[i]).status is Resolved)
                && self@[i].task.issue_id == issue_id && self@[i].task.subscriber_email@ == email
    }

    /// Whether the send of `issue_id` to `email` is still owed.
    pub fn has_task_for(&self, issue_id: u64, email: &String) -> (b: bool)
        ensures
            b == self.has_live_task(issue_id, email@),
    {
        let mut i: usize = 0;
        while i < self.slots.len()
            invariant
                i <= self.slots@.len(),
                forall|j: int|
                    0 <= j < i ==> !(!((#[trigger] self@[j]).status is Resolved) && self@[j].task.issue_id
                        == issue_id && self@[j].task.subscriber_email@ == email@),
            decreases self.slots@.len() - i,
        {
            let live = match self.slots[i].status {
                TaskStatus::Resolved => false,
                _ => true,
            };
            if live && self.slots[i].task.issue_id == issue_id
                && self.slots[i].task.subscriber_email == *email {
                return true;
            }
            i = i + 1;
        }
        false
    }

    /// An empty queue.
    pub fn new() -> (q: DeliveryQueue)
        ensures
            q@ =~= Seq::<TaskSlot>::empty(),
    {
        DeliveryQueue { slots: Vec::new() }
    }

    /// How many live (not terminally resolved) task rows the queue holds.
    pub fn live_task_count(&self) -> (n: usize)
        ensures
            n == count_live(self@),
    {
        let mut n: usize = 0;
        let mut i: usize = 0;
        while i < self.slots.len()
            invariant
                i <= self.slots@.len(),
                n == count_live(self.slots@.take(i as int)),
                n <= i,
            decreases self.slots@.len() - i,
        {
            proof {
                assert(self.slots@.take(i as int + 1).drop_last() =~= self.slots@.take(i as int));
                assert(self.slots@.take(i as int + 1).last() == self.slots@[i as int]);
            }
            match self.slots[i].status {
                TaskStatus::Resolved => {},
                _ => {
                    n = n + 1;
                },
            }
            i = i + 1;
        }
        proof {
            assert(self.slots@.take(i as int) =~= self.slots@);
        }
        n
    }

    /// Insert one fresh pending task per subscriber email, all for the same
    /// newly created issue, in the order the snapshot lists them.
    ///
    /// The caller has already determined the confirmed-subscriber set (so no
    /// address appears twice) and the issue is new to the queue; together
    /// these keep the (issue, subscriber) pairs of the queue unique.
    pub fn enqueue_batch(&mut self, issue_id: u64, subscriber_emails: &Vec<String>)
        requires
            forall|i: int, j: int|
                0 <= i < j < subscriber_emails@.len()
                    ==> subscriber_emails@[i]@ != subscriber_emails@[j]@,
            old(self).issue_is_new(issue_id),
        ensures
            final(self)@ == old(self)@ + fan_out(issue_id, subscriber_emails@),
    {
        let ghost base = self.slots@;
        let mut k: usize = 0;
        while k < subscriber_emails.len()
            invariant
                k <= subscriber_emails@.len(),
                self.slots@ =~= base + fan_out(issue_id, subscriber_emails@).take(k as int),
            decreases subscriber_emails@.len() - k,
        {
            let email = subscriber_emails[k].clone();
            self.slots.push(TaskSlot {
                task: DeliveryTask {
                    issue_id,
                    subscriber_email: email,
                    n_attempts: 0,
                    last_attempted_at: None,
                },
                status: TaskStatus::Pending,
            });
            k = k + 1;
        }
        proof {
            assert(fan_out(issue_id, subscriber_emails@).take(k as int) =~= fan_out(
                issue_id,
                subscriber_emails@,
            ));
            assert(self.slots@ =~= old(self)@ + fan_out(issue_id, subscriber_emails@));
        }
    }

    /// Atomically select the first pending task, mark it claimed, and hand
    /// out the claim; return nothing exactly when no task is pending.
    ///
    /// A claimed slot is skipped, never blocked on, so concurrent claimants
    /// each make progress on distinct tasks.
    pub fn claim_next(&mut self) -> (r: Option<Claim>)
        ensures
            r is Some <==> old(self).has_pending(),
            match r {
                None => final(self)@ == old(self)@,
                Some(c) => {
                    &&& claim_step(old(self)@, final(self)@, c)
                    &&& forall|j: int|
                        0 <= j < c.slot_index ==> !(old(self)@[j].status is Pending)
                    &&& final(self).valid_claim(c)
                },
            },
    {
        let mut i: usize = 0;
        while i < self.slots.len()
            invariant
                i <= self.slots@.len(),
                self.slots@ == old(self)@,
                forall|j: int| 0 <= j < i ==> !(old(self)@[j].status is Pending),
            decreases self.slots@.len() - i,
        {
            let is_pending = match self.slots[i].status {
                TaskStatus::Pending => true,
                _ => false,
            };
            if is_pending {
                let task = DeliveryTask {
                    issue_id: self.slots[i].task.issue_id,
                    subscriber_email: self.slots[i].task.subscriber_email.clone(),
                    n_attempts: self.slots[i].task.n_attempts,
                    last_attempted_at: self.slots[i].task.last_attempted_at,
                };
                let claimed_task = DeliveryTask {
                    issue_id: task.issue_id,
                    subscriber_email: task.subscriber_email.clone(),
                    n_attempts: task.n_attempts,
                    last_attempted_at: task.last_attempted_at,
                };
                self.slots[i] = TaskSlot { task: claimed_task, status: TaskStatus::Claimed };
                return Some(Claim { slot_index: i, task });
            }
            i = i + 1;
        }
        None
    }

    /// The task was delivered: delete it, permanently. It can never be
    /// claimed again.
    pub fn resolve_success(&mut self, c: Claim)
        requires
            old(self).valid_claim(c),
        ensures
            terminal_resolution_step(old(self)@, final(self)@, c),
    {
        self.slots[c.slot_index] = TaskSlot { task: c.task, status: TaskStatus::Resolved };
    }

    /// The delivery can never succeed (malformed address, provider
    /// rejection): delete the task and emit a structured failure record for
    /// operator visibility. Not retried.
    pub fn resolve_permanent_failure(&mut self, c: Claim, reason: String) -> (rep:
        DeliveryFailureReport)
        requires
            old(self).valid_claim(c),
        ensures
            terminal_resolution_step(old(self)@, final(self)@, c),
            rep.issue_id == c.task.issue_id,
            rep.subscriber_email == c.task.subscriber_email,
            rep.reason == reason,
    {
        let rep = DeliveryFailureReport {
            issue_id: c.task.issue_id,
            subscriber_email: c.task.subscriber_email.clone(),
            reason,
        };
        self.slots[c.slot_index] = TaskSlot { task: c.task, status: TaskStatus::Resolved };
        rep
    }

    /// The attempt failed for a reason that may not recur (network, timeout,
    /// provider overload): release the claim so a future claim retries the
    /// task, record when this attempt ran, and increment the attempt counter.
    pub fn resolve_transient_failure(&mut self, c: Claim, now: u64)
        requires
            old(self).valid_claim(c),
            c.task.n_attempts < u64::MAX,
        ensures
            transient_resolution_step(old(self)@, final(self)@, c, now),
    {
        let n = c.task.n_attempts;
        self.slots[c.slot_index] = TaskSlot {
            task: DeliveryTask {
                issue_id: c.task.issue_id,
                subscriber_email: c.task.subscriber_email,
                n_attempts: n + 1,
                last_attempted_at: Some(now),
            },
            status: TaskStatus::Pending,
        };
    }
}

/// Concurrent claims are mutually exclusive: when one claim is taken and a
/// second is taken before the first is released, the two never hold the same
/// task's slot — the first claim left its slot claimed, and a claim only
/// ever lands on a pending slot.
pub proof fn lemma_claims_are_exclusive(
    q0: Seq<TaskSlot>,
    q1: Seq<TaskSlot>,
    q2: Seq<TaskSlot>,
    c1: Claim,
    c2: Claim,
)
    requires
        claim_step(q0, q1, c1),
        claim_step(q1, q2, c2),
    ensures
        c1.slot_index != c2.slot_index,
{
    assert(q1[c1.slot_index as int].status is Claimed);
    assert(q1[c2.slot_index as int].status is Pending);
}

/// A terminally resolved task is never returned by a claim, and taking a
/// claim leaves it resolved.
pub proof fn lemma_resolved_never_claimed(
    q0: Seq<TaskSlot>,
    q1: Seq<TaskSlot>,
    c: Claim,
    i: int,
)
    requires
        0 <= i < q0.len(),
        q0[i].status is Resolved,
        claim_step(q0, q1, c),
    ensures
        c.slot_index != i,
        q1[i].status is Resolved,
{
}

/// No resolution revives a terminally resolved task: a resolution spends a
/// claim, a claim only ever holds a claimed slot, and only the claimed slot
/// changes.
pub proof fn lemma_resolution_preserves_resolved(
    q0: Seq<TaskSlot>,
    q1: Seq<TaskSlot>,
    c: Claim,
    now: u64,
    i: int,
)
    requires
        0 <= i < q0.len(),
        q0[i].status is Resolved,
        terminal_resolution_step(q0, q1, c) || transient_resolution_step(q0, q1, c, now),
    ensures
        q1[i].status is Resolved,
{
}

/// Fanning out a new issue adds slots and leaves every terminally resolved
/// task resolved.
pub proof fn lemma_enqueue_preserves_resolved(
    q0: Seq<TaskSlot>,
    q1: Seq<TaskSlot>,
    issue_id: u64,
    emails: Seq<String>,
    i: int,
)
    requires
        0 <= i < q0.len(),
        q0[i].status is Resolved,
        q1 == q0 + fan_out(issue_id, emails),
    ensures
        q1[i].status is Resolved,
{
}

/// A task resolved as a transient failure is claimable again — its slot is
/// pending once the claim is released — and its attempt counter strictly
/// increased.
pub proof fn lemma_transient_failure_requeues(
    q0: Seq<TaskSlot>,
    q1: Seq<TaskSlot>,
    c: Claim,
    now: u64,
)
    requires
        transient_resolution_step(q0, q1, c, now),
    ensures
        q1[c.slot_index as int].status is Pending,
        q1[c.slot_index as int].task.n_attempts > c.task.n_attempts,
        q1[c.slot_index as int].task.n_attempts == c.task.n_attempts + 1,
{
}

} // verus!
