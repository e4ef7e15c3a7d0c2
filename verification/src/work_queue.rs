//! A reference model of the work-queue collaborator's contract.
//!
//! The external work queue offers three calls: enqueue one job per target,
//! pull one leased job, and acknowledge a leased job by its token. An item
//! that is pulled but never acknowledged becomes available again when its
//! lease's visibility timeout lapses. This model states that contract
//! exactly over an in-memory queue, so the lease/acknowledge discipline can
//! be exercised and its redelivery behaviour proved against it.

use vstd::prelude::*;

use crate::envelope::WorkItem;

verus! {

/// One queued work item and the lease state of its slot.
pub struct QueueSlot {
    pub token: u64,
    pub item: WorkItem,
    pub leased: bool,
}

/// The in-memory work queue: slots in arrival order, and the next lease
/// token to hand out. Tokens are never reused.
pub struct WorkQueue {
    pub slots: Vec<QueueSlot>,
    pub next_token: u64,
}

/// The index of the first slot available for a pull, or -1 when every slot
/// is leased (or none exists).
pub open spec fn first_available(s: Seq<QueueSlot>) -> int
    decreases s.len(),
{
    if s.len() == 0 {
        -1
    } else if !s[0].leased {
        0
    } else {
        let r = first_available(s.subrange(1, s.len() as int));
        if r == -1 {
            -1
        } else {
            r + 1
        }
    }
}

/// `first_available` names the first unleased slot: nothing before it is
/// unleased, and it is unleased itself (when it exists).
proof fn lemma_first_available(s: Seq<QueueSlot>)
    ensures
        first_available(s) == -1 ==> forall|i: int| 0 <= i < s.len() ==> s[i].leased,
        first_available(s) != -1 ==> {
            let f = first_available(s);
            &&& 0 <= f < s.len()
            &&& !s[f].leased
            &&& forall|i: int| 0 <= i < f ==> s[i].leased
        },
    decreases s.len(),
{
    if s.len() > 0 {
        let t = s.subrange(1, s.len() as int);
        lemma_first_available(t);
        assert(forall|i: int| 0 <= i < t.len() ==> t[i] == s[i + 1]);
        if !s[0].leased {
            assert(first_available(s) == 0);
        } else {
            let r = first_available(t);
            if r == -1 {
                assert(first_available(s) == -1);
                assert forall|i: int| 0 <= i < s.len() implies s[i].leased by {
                    if i > 0 {
                        assert(t[i - 1].leased);
                    }
                }
            } else {
                assert(first_available(s) == r + 1);
                assert(!t[r].leased);
                assert(!s[r + 1].leased);
                assert forall|i: int| 0 <= i < r + 1 implies s[i].leased by {
                    if i > 0 {
                        assert(t[i - 1].leased);
                    }
                }
            }
        }
    }
}

impl WorkQueue {
    /// Tokens are pairwise distinct and below the next token to hand out.
    pub open spec fn wf(self) -> bool {
        &&& (forall|p: int, q: int|
            0 <= p < q < self.slots@.len() ==> self.slots@[p].token != self.slots@[q].token)
        &&& (forall|i: int| 0 <= i < self.slots@.len() ==> self.slots@[i].token < self.next_token)
    }

    pub open spec fn has_token(self, token: u64) -> bool {
        exists|i: int| 0 <= i < self.slots@.len() && self.slots@[i].token == token
    }

    pub open spec fn token_index(self, token: u64) -> int {
        choose|i: int| 0 <= i < self.slots@.len() && self.slots@[i].token == token
    }

    pub fn new() -> (q: WorkQueue)
        ensures
            q.wf(),
            q.slots@ == Seq::<QueueSlot>::empty(),
            q.next_token == 0,
    {
        WorkQueue { slots: Vec::new(), next_token: 0 }
    }

    /// Enqueue one job: it joins the back of the queue, unleased, under a
    /// fresh token.
    pub fn enqueue(&mut self, item: WorkItem)
        requires
            old(self).wf(),
            old(self).next_token < u64::MAX,
        ensures
            final(self).wf(),
            final(self).slots@.len() == old(self).slots@.len() + 1,
            final(self).slots@ == old(self).slots@.push(final(self).slots@.last()),
            final(self).slots@.last().item@ == item@,
            final(self).slots@.last().token == old(self).next_token,
            !final(self).slots@.last().leased,
            final(self).next_token == old(self).next_token + 1,
    {
        let token = self.next_token;
        self.next_token = self.next_token + 1;
        let ghost olds = self.slots@;
        self.slots.push(QueueSlot { token, item, leased: false });
        proof {
            assert(self.slots@ =~= olds.push(self.slots@.last()));
            assert forall|p: int, q: int|
                0 <= p < q < self.slots@.len() implies self.slots@[p].token != self
                .slots@[q].token by {
                if q < self.slots@.len() - 1 {
                    assert(olds[p].token != olds[q].token);
                } else {
                    assert(self.slots@[p] == olds[p]);
                }
            }
        }
    }

    /// Pull one job: the first available (unleased) slot in arrival order is
    /// leased and handed out with its token; with every slot leased — or the
    /// queue empty — there is no work.
    pub fn pull(&mut self) -> (r: Option<(u64, WorkItem)>)
        requires
            old(self).wf(),
        ensures
            final(self).wf(),
            final(self).next_token == old(self).next_token,
            first_available(old(self).slots@) == -1 ==> r is None && final(self).slots@ == old(
                self,
            ).slots@,
            first_available(old(self).slots@) != -1 ==> ({
                let f = first_available(old(self).slots@);
                &&& r matches Some((token, item)) && token == old(self).slots@[f].token && item@
                    == old(self).slots@[f].item@
                &&& final(self).slots@.len() == old(self).slots@.len()
                &&& final(self).slots@[f].token == old(self).slots@[f].token
                &&& final(self).slots@[f].item@ == old(self).slots@[f].item@
                &&& final(self).slots@[f].leased
                &&& forall|i: int|
                    0 <= i < final(self).slots@.len() && i != f ==> final(self).slots@[i] == old(
                        self,
                    ).slots@[i]
            }),
    {
        proof {
            lemma_first_available(self.slots@);
        }
        let mut i: usize = 0;
        while i < self.slots.len()
            invariant
                old(self).wf(),
                *self == *old(self),
                i <= self.slots@.len(),
                forall|j: int| 0 <= j < i ==> self.slots@[j].leased,
            decreases self.slots@.len() - i,
        {
            if !self.slots[i].leased {
                proof {
                    lemma_first_available(self.slots@);
                    let f = first_available(self.slots@);
                    assert(f != -1) by {
                        if f == -1 {
                            assert(self.slots@[i as int].leased);
                        }
                    }
                    if f < i as int {
                        assert(self.slots@[f].leased);
                    }
                    if (i as int) < f {
                        assert(self.slots@[i as int].leased);
                    }
                }
                let token = self.slots[i].token;
                let item_copy = WorkItem {
                    payload: self.slots[i].item.payload.clone(),
                    tenant_id: self.slots[i].item.tenant_id,
                    trace_id: self.slots[i].item.trace_id,
                    event_source_id: self.slots[i].item.event_source_id,
                    target_id: self.slots[i].item.target_id,
                };
                let ghost olds = self.slots@;
                let taken = self.slots.remove(i);
                let leased_slot = QueueSlot { token: taken.token, item: taken.item, leased: true };
                self.slots.insert(i, leased_slot);
                proof {
                    assert forall|j: int|
                        0 <= j < self.slots@.len() && j != i as int implies self.slots@[j]
                        == olds[j] by {
                        if j < i as int {
                            assert(self.slots@[j] == olds.remove(i as int).insert(
                                i as int,
                                leased_slot,
                            )[j]);
                        }
                    }
                    assert forall|p: int, q: int|
                        0 <= p < q < self.slots@.len() implies self.slots@[p].token != self
                        .slots@[q].token by {
                        assert(self.slots@[p].token == olds[p].token);
                        assert(self.slots@[q].token == olds[q].token);
                    }
                }
                return Some((token, item_copy));
            }
            i = i + 1;
        }
        proof {
            lemma_first_available(self.slots@);
            let f = first_available(self.slots@);
            if f != -1 {
                assert(self.slots@[f].leased);
            }
        }
        None
    }

    /// Acknowledge the leased item under `token`: its slot is removed
    /// permanently. Acknowledging an unknown token changes nothing.
    pub fn acknowledge(&mut self, token: u64)
        requires
            old(self).wf(),
        ensures
            final(self).wf(),
            final(self).next_token == old(self).next_token,
            old(self).has_token(token) ==> final(self).slots@ == old(self).slots@.remove(
                old(self).token_index(token),
            ),
            !old(self).has_token(token) ==> final(self).slots@ == old(self).slots@,
    {
        let mut i: usize = 0;
        while i < self.slots.len()
            invariant
                old(self).wf(),
                *self == *old(self),
                i <= self.slots@.len(),
                forall|j: int| 0 <= j < i ==> self.slots@[j].token != token,
            decreases self.slots@.len() - i,
        {
            if self.slots[i].token == token {
                proof {
                    assert(old(self).has_token(token));
                    let j = old(self).token_index(token);
                    if i as int != j {
                        if (i as int) < j {
                            assert(self.slots@[i as int].token != self.slots@[j].token);
                        } else {
                            assert(self.slots@[j].token != self.slots@[i as int].token);
                        }
                    }
                }
                let ghost olds = self.slots@;
                self.slots.remove(i);
                proof {
                    assert forall|p: int, q: int|
                        0 <= p < q < self.slots@.len() implies self.slots@[p].token != self
                        .slots@[q].token by {
                        assert(self.slots@[p] == if p < i as int {
                            olds[p]
                        } else {
                            olds[p + 1]
                        });
                        assert(self.slots@[q] == if q < i as int {
                            olds[q]
                        } else {
                            olds[q + 1]
                        });
                    }
                }
                return ;
            }
            i = i + 1;
        }
        proof {
            if old(self).has_token(token) {
                let j = old(self).token_index(token);
                assert(self.slots@[j].token == token);
            }
        }
    }

    /// Lapse every outstanding lease (the visibility timeout): every slot
    /// becomes available again, in place, item and token unchanged. An item
    /// that was pulled but not acknowledged is thereby redelivered by a
    /// later pull.
    pub fn lapse_leases(&mut self)
        requires
            old(self).wf(),
        ensures
            final(self).wf(),
            final(self).next_token == old(self).next_token,
            final(self).slots@.len() == old(self).slots@.len(),
            forall|i: int|
                0 <= i < final(self).slots@.len() ==> {
                    &&& final(self).slots@[i].token == old(self).slots@[i].token
                    &&& final(self).slots@[i].item@ == old(self).slots@[i].item@
                    &&& !final(self).slots@[i].leased
                },
    {
        let mut i: usize = 0;
        while i < self.slots.len()
            invariant
                i <= self.slots@.len(),
                self.slots@.len() == old(self).slots@.len(),
                self.next_token == old(self).next_token,
                forall|p: int, q: int|
                    0 <= p < q < self.slots@.len() ==> self.slots@[p].token != self.slots@[q].token,
                forall|j: int|
                    0 <= j < self.slots@.len() ==> self.slots@[j].token < self.next_token,
                forall|j: int|
                    0 <= j < self.slots@.len() ==> self.slots@[j].token == old(
                        self,
                    ).slots@[j].token && self.slots@[j].item@ == old(self).slots@[j].item@,
                forall|j: int| 0 <= j < i ==> !self.slots@[j].leased,
            decreases self.slots@.len() - i,
        {
            let ghost olds = self.slots@;
            let taken = self.slots.remove(i);
            let freed = QueueSlot { token: taken.token, item: taken.item, leased: false };
            self.slots.insert(i, freed);
            proof {
                assert forall|j: int|
                    0 <= j < self.slots@.len() && j != i as int implies self.slots@[j]
                    == olds[j] by {}
                assert(self.slots@[i as int] == freed);
            }
            i = i + 1;
        }
    }
}

/// Redelivery of unacknowledged work: after the leases of a queue whose
/// first slot was pulled but not acknowledged lapse, the very next pull
/// returns that same item under the same token.
pub proof fn lemma_unacked_item_redelivered(q: WorkQueue)
    requires
        q.wf(),
        q.slots@.len() > 0,
        forall|i: int| 0 <= i < q.slots@.len() ==> !q.slots@[i].leased,
    ensures
        first_available(q.slots@) == 0,
{
}

} // verus!
