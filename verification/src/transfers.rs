//! The transfer registry: in-flight transfers keyed by an opaque transfer id,
//! each holding only a cancellation handle and a direction tag, so that any
//! part of the system can request cancellation without touching the
//! transfer's own I/O state.  Cancellation is cooperative: `cancel` only
//! flips the shared signal; the transfer loop observes it at its next chunk
//! boundary.

use vstd::prelude::*;

use tokio_util::sync::CancellationToken;

verus! {

#[verifier::external_type_specification]
#[verifier::external_body]
pub struct ExCancellationToken(CancellationToken);

/// The direction tag of a transfer.
#[derive(Clone, Copy, Debug, PartialEq, Eq, Structural)]
pub enum TransferDirection {
    Download,
    Upload,
}

/// One in-flight transfer: its cancellation handle and its direction.
pub struct TransferJob {
    pub cancel_token: CancellationToken,
    pub direction: TransferDirection,
}

/// Relies on tokio_util's `CancellationToken::new`: a fresh cooperative
/// cancellation handle.
#[verifier::external_body]
fn token_new() -> CancellationToken {
    CancellationToken::new()
}

/// Relies on `CancellationToken::clone`: the clone signals the same transfer
/// as the original.
#[verifier::external_body]
fn token_clone(t: &CancellationToken) -> CancellationToken {
    t.clone()
}

/// Relies on `CancellationToken::cancel`: flips the shared signal that every
/// holder of this token or of a clone of it observes from now on.
#[verifier::external_body]
fn token_cancel(t: &CancellationToken) {
    t.cancel()
}

/// The registry of in-flight transfers: ids and jobs aligned by index, each
/// id held at most once.
pub struct TransferRegistry {
    ids: Vec<String>,
    jobs: Vec<TransferJob>,
}

impl View for TransferRegistry {
    type V = Map<Seq<char>, TransferDirection>;

    closed spec fn view(&self) -> Map<Seq<char>, TransferDirection> {
        Map::new(
            |k: Seq<char>| exists|i: int| 0 <= i < self.ids@.len() && self.ids@[i]@ == k,
            |k: Seq<char>|
                self.jobs@[choose|i: int|
                    0 <= i < self.ids@.len() && self.ids@[i]@ == k].direction,
        )
    }
}

impl TransferRegistry {
    /// Ids and jobs are aligned, and each id is held at most once.
    pub closed spec fn wf(&self) -> bool {
        &&& self.ids@.len() == self.jobs@.len()
        &&& forall|i: int, j: int| 0 <= i < j < self.ids@.len() ==> self.ids@[i]@ != self.ids@[j]@
    }

    /// A fresh registry with no transfers.
    pub fn new() -> (r: Self)
        ensures
            r.wf(),
            r@ == Map::<Seq<char>, TransferDirection>::empty(),
    {
        let r = TransferRegistry { ids: Vec::new(), jobs: Vec::new() };
        proof {
            assert(r@ =~= Map::<Seq<char>, TransferDirection>::empty());
        }
        r
    }

    /// The index holding `transfer_id`, if any.
    fn find(&self, transfer_id: &String) -> (r: Option<usize>)
        ensures
            match r {
                Some(i) => i < self.ids@.len() && self.ids@[i as int]@ == transfer_id@,
                None => forall|i: int|
                    0 <= i < self.ids@.len() ==> self.ids@[i]@ != transfer_id@,
            },
    {
        let n = self.ids.len();
        let mut i: usize = 0;
        while i < n
            invariant
                i <= n,
                n == self.ids@.len(),
                forall|k: int| 0 <= k < i ==> self.ids@[k]@ != transfer_id@,
            decreases n - i,
        {
            if self.ids[i] == *transfer_id {
                return Some(i);
            }
            i = i + 1;
        }
        None
    }

    /// Whether `transfer_id` is registered.
    pub fn contains(&self, transfer_id: &String) -> (r: bool)
        ensures
            r == self@.dom().contains(transfer_id@),
    {
        let found = self.find(transfer_id);
        proof {
            self.lemma_found_dom(found, transfer_id@);
        }
        found.is_some()
    }

    proof fn lemma_found_dom(&self, found: Option<usize>, k: Seq<char>)
        requires
            match found {
                Some(i) => i < self.ids@.len() && self.ids@[i as int]@ == k,
                None => forall|i: int| 0 <= i < self.ids@.len() ==> self.ids@[i]@ != k,
            },
        ensures
            self@.dom().contains(k) == found is Some,
    {
        match found {
            Some(i) => {
                assert(0 <= (i as int) && (i as int) < self.ids@.len() && self.ids@[i as int]@
                    == k);
            },
            None => {
                if self@.dom().contains(k) {
                    let j = choose|j: int| 0 <= j < self.ids@.len() && self.ids@[j]@ == k;
                    assert(self.ids@[j]@ != k);
                }
            },
        }
    }

    /// The direction under which `transfer_id` was registered, if it is
    /// in flight.
    pub fn direction_of(&self, transfer_id: &String) -> (r: Option<TransferDirection>)
        requires
            self.wf(),
        ensures
            match r {
                Some(d) => self@.dom().contains(transfer_id@) && self@[transfer_id@] == d,
                None => !self@.dom().contains(transfer_id@),
            },
    {
        let found = self.find(transfer_id);
        proof {
            self.lemma_found_dom(found, transfer_id@);
        }
        match found {
            Some(i) => {
                proof {
                    let c = choose|j: int|
                        0 <= j < self.ids@.len() && self.ids@[j]@ == transfer_id@;
                    assert(c == i as int);
                }
                Some(self.jobs[i].direction)
            },
            None => None,
        }
    }

    /// Registers a transfer under `transfer_id` before any I/O begins,
    /// replacing any stale entry, and hands the transfer loop its
    /// cancellation handle; the registry keeps a clone of it.
    pub fn register(&mut self, transfer_id: String, direction: TransferDirection) -> (t:
        CancellationToken)
        requires
            old(self).wf(),
        ensures
            final(self).wf(),
            final(self)@ == old(self)@.insert(transfer_id@, direction),
    {
        self.unregister(&transfer_id);
        let ghost mid = *self;
        let token = token_new();
        let job = TransferJob { cancel_token: token_clone(&token), direction };
        self.ids.push(transfer_id);
        self.jobs.push(job);
        proof {
            let n = mid.ids@.len();
            assert(!mid@.dom().contains(self.ids@[n as int]@));
            assert forall|j: int| 0 <= j < n implies mid.ids@[j]@ != self.ids@[n as int]@ by {
                if mid.ids@[j]@ == self.ids@[n as int]@ {
                    assert(mid@.dom().contains(mid.ids@[j]@));
                }
            }
            assert(self@ =~= mid@.insert(self.ids@[n as int]@, direction)) by {
                let id_v = self.ids@[n as int]@;
                assert forall|k: Seq<char>| #[trigger] self@.dom().contains(k) implies (k == id_v
                    || mid@.dom().contains(k)) by {
                    let j = choose|j: int| 0 <= j < self.ids@.len() && self.ids@[j]@ == k;
                    if j < n {
                        assert(mid.ids@[j]@ == k);
                    }
                }
                assert forall|k: Seq<char>| mid@.dom().contains(k) implies self@.dom().contains(
                    k,
                ) by {
                    let j = choose|j: int| 0 <= j < mid.ids@.len() && mid.ids@[j]@ == k;
                    assert(self.ids@[j]@ == k);
                }
                assert(self.ids@[n as int]@ == id_v);
                assert(self@.dom().contains(id_v));
                assert forall|k: Seq<char>| #[trigger] self@.dom().contains(k) implies self@[k]
                    == mid@.insert(id_v, direction)[k] by {
                    let j = choose|j: int| 0 <= j < self.ids@.len() && self.ids@[j]@ == k;
                    if k == id_v {
                        assert(j == n) by {
                            if j < n {
                                assert(mid.ids@[j]@ != id_v);
                            }
                        }
                        assert(self@[k] == direction);
                    } else {
                        assert(j < n);
                        assert(mid.ids@[j]@ == k);
                        let c = choose|c: int| 0 <= c < mid.ids@.len() && mid.ids@[c]@ == k;
                        assert(c == j);
                        let c2 = choose|c: int| 0 <= c < self.ids@.len() && self.ids@[c]@ == k;
                        assert(c2 == j) by {
                            if c2 != j {
                                if c2 == n {
                                    assert(self.ids@[c2]@ == id_v);
                                } else {
                                    assert(mid.ids@[c2]@ == k);
                                }
                            }
                        }
                        assert(self@[k] == mid@[k]);
                    }
                }
            }
        }
        token
    }

    /// Removes `transfer_id`'s job unconditionally; an unknown id changes
    /// nothing.
    pub fn unregister(&mut self, transfer_id: &String)
        requires
            old(self).wf(),
        ensures
            final(self).wf(),
            final(self)@ == old(self)@.remove(transfer_id@),
    {
        let found = self.find(transfer_id);
        match found {
            None => {
                proof {
                    if old(self)@.dom().contains(transfer_id@) {
                        let j = choose|j: int|
                            0 <= j < self.ids@.len() && self.ids@[j]@ == transfer_id@;
                        assert(self.ids@[j]@ != transfer_id@);
                    }
                    assert(self@ =~= old(self)@.remove(transfer_id@));
                }
            },
            Some(i) => {
                let ghost before = *self;
                let ghost ii = i as int;
                self.ids.remove(i);
                self.jobs.remove(i);
                proof {
                    assert(self@ =~= before@.remove(transfer_id@)) by {
                        assert forall|k: Seq<char>| #[trigger] self@.dom().contains(k) implies
                            before@.dom().contains(k) && k != transfer_id@ by {
                            let j = choose|j: int|
                                0 <= j < self.ids@.len() && self.ids@[j]@ == k;
                            if j < ii {
                                assert(before.ids@[j]@ == k);
                                assert(before.ids@[j]@ != before.ids@[ii]@);
                            } else {
                                assert(before.ids@[j + 1]@ == k);
                                assert(before.ids@[j + 1]@ != before.ids@[ii]@);
                            }
                        }
                        assert forall|k: Seq<char>|
                            before@.dom().contains(k) && k != transfer_id@ implies
                            self@.dom().contains(k) by {
                            let j = choose|j: int|
                                0 <= j < before.ids@.len() && before.ids@[j]@ == k;
                            assert(j != ii);
                            if j < ii {
                                assert(self.ids@[j]@ == k);
                            } else {
                                assert(self.ids@[j - 1]@ == k);
                            }
                        }
                        assert forall|k: Seq<char>| #[trigger] self@.dom().contains(k) implies
                            self@[k] == before@[k] by {
                            let j = choose|j: int|
                                0 <= j < self.ids@.len() && self.ids@[j]@ == k;
                            let c = choose|c: int|
                                0 <= c < before.ids@.len() && before.ids@[c]@ == k;
                            let jo = if j < ii {
                                j
                            } else {
                                j + 1
                            };
                            assert(before.ids@[jo]@ == k);
                            assert(c == jo) by {
                                if c != jo {
                                    assert(before.ids@[c]@ != before.ids@[jo]@);
                                }
                            }
                            assert(self.jobs@[j] == before.jobs@[jo]);
                        }
                    }
                }
            },
        }
    }

    /// Requests cancellation of an in-flight transfer: flips the shared
    /// signal of the registered handle, which the transfer loop observes at
    /// its next chunk boundary.  An unknown id is a no-op success; the result
    /// says whether a registered transfer was signalled.
    pub fn cancel(&self, transfer_id: &String) -> (r: bool)
        requires
            self.wf(),
        ensures
            r == self@.dom().contains(transfer_id@),
    {
        let found = self.find(transfer_id);
        proof {
            self.lemma_found_dom(found, transfer_id@);
        }
        match found {
            Some(i) => {
                token_cancel(&self.jobs[i].cancel_token);
                true
            },
            None => false,
        }
    }
}

/// A transfer's job is removed, unconditionally, once its terminal event has
/// been determined: immediately afterwards the id is absent from the
/// registry, whatever was registered under it.
pub proof fn lemma_unregistered_absent(
    jobs: Map<Seq<char>, TransferDirection>,
    transfer_id: Seq<char>,
)
    ensures
        !jobs.remove(transfer_id).dom().contains(transfer_id),
{
}

} // verus!
