//! The idempotency store: persists the outcome of a previously completed
//! mutating request, keyed by (principal, client-supplied idempotency key),
//! so that a retried request replays the original response instead of
//! re-executing its side effects.
//!
//! A record is reserved in-flight by [`IdempotencyStore::begin`] and filled
//! exactly once by [`IdempotencyStore::complete`], inside the same
//! transaction as the side-effecting work; if that transaction rolls back,
//! [`IdempotencyStore::roll_back_reservation`] removes the reservation, so a
//! later request with the same key starts fresh again.

use vstd::prelude::*;

verus! {

/// The HTTP-shaped response persisted verbatim for idempotent replay.
pub struct StoredResponse {
    pub status_code: u16,
    pub headers: Vec<(String, String)>,
    pub body: String,
}

/// Mathematical image of a [`StoredResponse`]: what "byte-identical" means
/// for replayed responses.
#[verifier::ext_equal]
pub ghost struct ResponseModel {
    pub status_code: u16,
    pub headers: Seq<(Seq<char>, Seq<char>)>,
    pub body: Seq<char>,
}

impl View for StoredResponse {
    type V = ResponseModel;

    open spec fn view(&self) -> ResponseModel {
        ResponseModel {
            status_code: self.status_code,
            headers: Seq::new(self.headers@.len(), |i: int| (self.headers@[i].0@, self.headers@[i].1@)),
            body: self.body@,
        }
    }
}

impl StoredResponse {
    /// A second copy of the response, byte-identical to this one.
    pub fn duplicate(&self) -> (r: StoredResponse)
        ensures
            r@ == self@,
    {
        let mut headers: Vec<(String, String)> = Vec::new();
        let mut i: usize = 0;
        while i < self.headers.len()
            invariant
                i <= self.headers@.len(),
                headers@.len() == i,
                forall|j: int|
                    0 <= j < i ==> headers@[j].0@ == self.headers@[j].0@ && headers@[j].1@
                        == self.headers@[j].1@,
            decreases self.headers@.len() - i,
        {
            let name = self.headers[i].0.clone();
            let value = self.headers[i].1.clone();
            headers.push((name, value));
            i = i + 1;
        }
        let r = StoredResponse {
            status_code: self.status_code,
            headers,
            body: self.body.clone(),
        };
        proof {
            assert(r@.headers =~= self@.headers);
            assert(r@ =~= self@);
        }
        r
    }
}

/// One previously completed (or still in-flight) mutating request.
pub struct IdempotencyRecord {
    pub principal_id: u64,
    pub idempotency_key: String,
    /// The saved response; still empty while the reserving transaction is
    /// open.
    pub response: Option<StoredResponse>,
    pub created_at: u64,
}

/// Mathematical image of an [`IdempotencyRecord`].
#[verifier::ext_equal]
pub ghost struct RecordModel {
    pub principal_id: u64,
    pub idempotency_key: Seq<char>,
    pub response: Option<ResponseModel>,
    pub created_at: u64,
}

impl View for IdempotencyRecord {
    type V = RecordModel;

    open spec fn view(&self) -> RecordModel {
        RecordModel {
            principal_id: self.principal_id,
            idempotency_key: self.idempotency_key@,
            response: match self.response {
                Some(r) => Some(r@),
                None => None,
            },
            created_at: self.created_at,
        }
    }
}

/// `r` is the record of the request keyed by `(p, k)`.
pub open spec fn keyed(r: RecordModel, p: u64, k: Seq<char>) -> bool {
    r.principal_id == p && r.idempotency_key == k
}

/// What a [`IdempotencyStore::begin`] call observes for its key.
pub enum BeginOutcome {
    /// No record exists: the key is now reserved, and the caller must do the
    /// work and call [`IdempotencyStore::complete`] in the same transaction.
    Fresh,
    /// Another execution holds the same key right now; the caller must wait
    /// for it to commit or roll back.
    InFlight,
    /// The request was already completed: the caller must return this saved
    /// response verbatim and must not redo any side effects.
    Completed(StoredResponse),
}

/// The durable idempotency store.
pub struct IdempotencyStore {
    records: Vec<IdempotencyRecord>,
}

impl View for IdempotencyStore {
    type V = Seq<RecordModel>;

    closed spec fn view(&self) -> Seq<RecordModel> {
        Seq::new(self.records@.len(), |i: int| self.records@[i]@)
    }
}

impl IdempotencyStore {
    /// The composite key (principal, idempotency key) is unique.
    pub open spec fn wf(self) -> bool {
        forall|i: int, j: int|
            0 <= i < self@.len() && 0 <= j < self@.len() && i != j ==> !keyed(
                #[trigger] self@[i],
                (#[trigger] self@[j]).principal_id,
                self@[j].idempotency_key,
            )
    }

    /// Some record (completed or in-flight) is stored under `(p, k)`.
    pub open spec fn has_record(self, p: u64, k: Seq<char>) -> bool {
        exists|i: int| 0 <= i < self@.len() && keyed(#[trigger] self@[i], p, k)
    }

    /// The position of the record stored under `(p, k)`; meaningful only
    /// when `has_record` holds, and unique when the store is well formed.
    pub open spec fn record_index(self, p: u64, k: Seq<char>) -> int {
        choose|i: int| 0 <= i < self@.len() && keyed(#[trigger] self@[i], p, k)
    }

    /// The record stored under `(p, k)`.
    pub open spec fn record_at(self, p: u64, k: Seq<char>) -> RecordModel {
        self@[self.record_index(p, k)]
    }

    /// A completed request is stored under `(p, k)`.
    pub open spec fn has_completed(self, p: u64, k: Seq<char>) -> bool {
        self.has_record(p, k) && self.record_at(p, k).response is Some
    }

    /// A reservation (still in-flight request) is stored under `(p, k)`.
    pub open spec fn has_inflight(self, p: u64, k: Seq<char>) -> bool {
        self.has_record(p, k) && self.record_at(p, k).response is None
    }

    /// The response saved for the completed request keyed `(p, k)`.
    pub open spec fn completed_response(self, p: u64, k: Seq<char>) -> ResponseModel {
        self.record_at(p, k).response->Some_0
    }

    /// In a well-formed store, any index whose record is keyed `(p, k)` is
    /// the index `record_index` denotes.
    pub proof fn lemma_record_index_is(self, p: u64, k: Seq<char>, i: int)
        requires
            self.wf(),
            0 <= i < self@.len(),
            keyed(self@[i], p, k),
        ensures
            self.has_record(p, k),
            self.record_index(p, k) == i,
    {
        assert(self.has_record(p, k));
        let j = self.record_index(p, k);
        assert(keyed(self@[j], p, k));
    }

    /// An empty store.
    pub fn new() -> (s: IdempotencyStore)
        ensures
            s@ =~= Seq::<RecordModel>::empty(),
            s.wf(),
    {
        let s = IdempotencyStore { records: Vec::new() };
        proof {
            assert(s@ =~= Seq::<RecordModel>::empty());
        }
        s
    }

    /// How many records the store holds.
    pub fn record_count(&self) -> (n: usize)
        ensures
            n == self@.len(),
    {
        self.records.len()
    }

    /// Position of the record keyed `(principal_id, key)`, if any.
    fn find_record(&self, principal_id: u64, key: &String) -> (r: Option<usize>)
        ensures
            match r {
                Some(i) => i < self@.len() && keyed(self@[i as int], principal_id, key@),
                None => !self.has_record(principal_id, key@),
            },
    {
        let mut i: usize = 0;
        while i < self.records.len()
            invariant
                i <= self.records@.len(),
                forall|j: int| 0 <= j < i ==> !keyed(self@[j], principal_id, key@),
            decreases self.records@.len() - i,
        {
            if self.records[i].principal_id == principal_id && self.records[i].idempotency_key
                == *key {
                return Some(i);
            }
            i = i + 1;
        }
        None
    }

    /// Attempt to reserve `(principal_id, key)` for a new execution.
    ///
    /// Exactly one of three things happens: the key is fresh and is now
    /// reserved in-flight; some execution already holds it in-flight and
    /// the store is untouched; or the request already completed and its
    /// saved response is returned verbatim, with the store untouched.
    pub fn begin(&mut self, principal_id: u64, key: &String, now: u64) -> (r: BeginOutcome)
        requires
            old(self).wf(),
        ensures
            final(self).wf(),
            !old(self).has_record(principal_id, key@) ==> r is Fresh && final(self)@ == old(
                self,
            )@.push(
                RecordModel {
                    principal_id,
                    idempotency_key: key@,
                    response: None,
                    created_at: now,
                },
            ),
            old(self).has_inflight(principal_id, key@) ==> r is InFlight && final(self)@ == old(
                self,
            )@,
            old(self).has_completed(principal_id, key@) ==> (r matches BeginOutcome::Completed(
                resp,
            ) && resp@ == old(self).completed_response(principal_id, key@)) && final(self)@ == old(
                self,
            )@,
    {
        let found = self.find_record(principal_id, key);
        match found {
            Some(i) => {
                proof {
                    self.lemma_record_index_is(principal_id, key@, i as int);
                }
                match &self.records[i].response {
                    Some(resp) => BeginOutcome::Completed(resp.duplicate()),
                    None => BeginOutcome::InFlight,
                }
            },
            None => {
                self.records.push(
                    IdempotencyRecord {
                        principal_id,
                        idempotency_key: key.clone(),
                        response: None,
                        created_at: now,
                    },
                );
                proof {
                    assert(self@ =~= old(self)@.push(
                        RecordModel {
                            principal_id,
                            idempotency_key: key@,
                            response: None,
                            created_at: now,
                        },
                    ));
                    assert forall|i: int, j: int|
                        0 <= i < self@.len() && 0 <= j < self@.len() && i != j implies !keyed(
                        #[trigger] self@[i],
                        (#[trigger] self@[j]).principal_id,
                        self@[j].idempotency_key,
                    ) by {
                        if i < old(self)@.len() && j < old(self)@.len() {
                            assert(!keyed(
                                old(self)@[i],
                                old(self)@[j].principal_id,
                                old(self)@[j].idempotency_key,
                            ));
                        } else if j == old(self)@.len() {
                            assert(!keyed(old(self)@[i], principal_id, key@));
                        }
                    }
                }
                BeginOutcome::Fresh
            },
        }
    }

    /// Persist the final response for a key reserved `Fresh`, as part of the
    /// same transaction as the side-effecting work.
    ///
    /// Calling it for a key that is not currently reserved in-flight (in
    /// particular, calling it twice for one key) is a programming error, and
    /// is ruled out by the precondition.
    pub fn complete(&mut self, principal_id: u64, key: &String, response: StoredResponse)
        requires
            old(self).wf(),
            old(self).has_inflight(principal_id, key@),
        ensures
            final(self).wf(),
            final(self)@ == old(self)@.update(
                old(self).record_index(principal_id, key@),
                RecordModel {
                    principal_id,
                    idempotency_key: key@,
                    response: Some(response@),
                    created_at: old(self).record_at(principal_id, key@).created_at,
                },
            ),
    {
        let found = self.find_record(principal_id, key);
        match found {
            Some(i) => {
                proof {
                    self.lemma_record_index_is(principal_id, key@, i as int);
                }
                let created_at = self.records[i].created_at;
                self.records[i] = IdempotencyRecord {
                    principal_id,
                    idempotency_key: key.clone(),
                    response: Some(response),
                    created_at,
                };
                proof {
                    assert(self@ =~= old(self)@.update(
                        old(self).record_index(principal_id, key@),
                        RecordModel {
                            principal_id,
                            idempotency_key: key@,
                            response: Some(response@),
                            created_at: old(self).record_at(principal_id, key@).created_at,
                        },
                    ));
                    assert forall|a: int, b: int|
                        0 <= a < self@.len() && 0 <= b < self@.len() && a != b implies !keyed(
                        #[trigger] self@[a],
                        (#[trigger] self@[b]).principal_id,
                        self@[b].idempotency_key,
                    ) by {
                        assert(self@[a].principal_id == old(self)@[a].principal_id);
                        assert(self@[a].idempotency_key == old(self)@[a].idempotency_key);
                        assert(self@[b].principal_id == old(self)@[b].principal_id);
                        assert(self@[b].idempotency_key == old(self)@[b].idempotency_key);
                        assert(!keyed(
                            old(self)@[a],
                            old(self)@[b].principal_id,
                            old(self)@[b].idempotency_key,
                        ));
                    }
                }
            },
            None => {
                proof {
                    assert(false);
                }
            },
        }
    }

    /// Remove the in-flight reservation for `(principal_id, key)`: the
    /// enclosing transaction rolled back, so the reservation must not stay
    /// visible, and a retry of the request must observe `Fresh` again.
    pub fn roll_back_reservation(&mut self, principal_id: u64, key: &String)
        requires
            old(self).wf(),
            old(self).has_inflight(principal_id, key@),
        ensures
            final(self).wf(),
            final(self)@ == old(self)@.remove(old(self).record_index(principal_id, key@)),
    {
        let found = self.find_record(principal_id, key);
        match found {
            Some(i) => {
                proof {
                    self.lemma_record_index_is(principal_id, key@, i as int);
                }
                self.records.remove(i);
                proof {
                    assert(self@ =~= old(self)@.remove(
                        old(self).record_index(principal_id, key@),
                    ));
                    assert forall|a: int, b: int|
                        0 <= a < self@.len() && 0 <= b < self@.len() && a != b implies !keyed(
                        #[trigger] self@[a],
                        (#[trigger] self@[b]).principal_id,
                        self@[b].idempotency_key,
                    ) by {
                        let oa = if a < i as int {
                            a
                        } else {
                            a + 1
                        };
                        let ob = if b < i as int {
                            b
                        } else {
                            b + 1
                        };
                        assert(self@[a] == old(self)@[oa]);
                        assert(self@[b] == old(self)@[ob]);
                        assert(!keyed(
                            old(self)@[oa],
                            old(self)@[ob].principal_id,
                            old(self)@[ob].idempotency_key,
                        ));
                    }
                }
            },
            None => {
                proof {
                    assert(false);
                }
            },
        }
    }
}

} // verus!
