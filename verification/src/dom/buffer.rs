//! The early buffer: proposals wait here until their deadline has passed and
//! are released in the order of their keys.

use vstd::prelude::*;
use crate::messages::sequence_paxos::{DomPropose, EntryId};
use crate::storage::Entry;

verus! {

/// Key by which the early buffer orders its proposals: the deadline first,
/// then the entry id as a tie-breaker.
#[derive(Copy, Clone, Debug, PartialEq, Eq, Structural, Hash)]
pub struct BufferKey {
    /// The deadline of the proposal.
    pub deadline: i64,
    /// The id of the proposal's entry.
    pub entry_id: EntryId,
}

/// The order of entry ids: by client id, then by command id.
pub open spec fn entry_id_le(a: EntryId, b: EntryId) -> bool {
    a.client_id < b.client_id || (a.client_id == b.client_id && a.command_id <= b.command_id)
}

/// The order of buffer keys: by deadline, then by entry id.
pub open spec fn key_le(a: BufferKey, b: BufferKey) -> bool {
    a.deadline < b.deadline || (a.deadline == b.deadline && entry_id_le(a.entry_id, b.entry_id))
}

/// Strict order of buffer keys.
pub open spec fn key_lt(a: BufferKey, b: BufferKey) -> bool {
    key_le(a, b) && a != b
}

/// The key of a proposal.
pub open spec fn key_of<T: Entry>(p: DomPropose<T>) -> BufferKey {
    BufferKey { deadline: p.deadline, entry_id: p.entry_id }
}

/// The keys of `s` are in non-decreasing order.
pub open spec fn keys_sorted<T: Entry>(s: Seq<DomPropose<T>>) -> bool {
    forall|i: int, j: int| 0 <= i <= j < s.len() ==> key_le(key_of(#[trigger] s[i]), key_of(#[trigger] s[j]))
}

/// Every key of `s` is at or after `last`, where there is one.
pub open spec fn all_at_or_after<T: Entry>(s: Seq<DomPropose<T>>, last: Option<BufferKey>) -> bool {
    last matches Some(l) ==> forall|i: int| 0 <= i < s.len() ==> key_le(l, key_of(#[trigger] s[i]))
}

/// A proposal with key `k` is late once a key at or after `k` was released.
pub open spec fn is_late_key(last: Option<BufferKey>, k: BufferKey) -> bool {
    last matches Some(l) && key_le(k, l)
}

/// The last proposal of `s` (by position) whose entry id is `id`.
pub open spec fn last_with_id<T: Entry>(s: Seq<DomPropose<T>>, id: EntryId) -> Option<DomPropose<T>>
    decreases s.len(),
{
    if s.len() == 0 {
        None
    } else if s.last().entry_id == id {
        Some(s.last())
    } else {
        last_with_id(s.drop_last(), id)
    }
}

/// The proposals of `s` whose entry id is not `id`, in their order.
pub open spec fn without_id<T: Entry>(s: Seq<DomPropose<T>>, id: EntryId) -> Seq<DomPropose<T>> {
    s.filter(|p: DomPropose<T>| p.entry_id != id)
}

/// The buffer order is a total order: reflexive, antisymmetric, transitive
/// and total, so releases in this order form a sorted sequence.
pub proof fn lemma_key_order_total(a: BufferKey, b: BufferKey, c: BufferKey)
    ensures
        key_le(a, a),
        key_le(a, b) && key_le(b, a) ==> a == b,
        key_le(a, b) && key_le(b, c) ==> key_le(a, c),
        key_le(a, b) || key_le(b, a),
{
}

impl BufferKey {
    /// The key of the given proposal.
    pub fn from_proposal<T: Entry>(proposal: &DomPropose<T>) -> (k: BufferKey)
        ensures
            k == key_of(*proposal),
    {
        BufferKey { deadline: proposal.deadline, entry_id: proposal.entry_id }
    }

    /// Whether `self` comes at or before `other` in the buffer's order.
    pub fn le(&self, other: &BufferKey) -> (r: bool)
        ensures
            r == key_le(*self, *other),
    {
        self.deadline < other.deadline || (self.deadline == other.deadline && (
        self.entry_id.client_id < other.entry_id.client_id || (self.entry_id.client_id
            == other.entry_id.client_id && self.entry_id.command_id <= other.entry_id.command_id)))
    }
}

/// Error signalling that a proposal could not be inserted into the early buffer.
#[derive(Clone, Debug)]
pub enum EarlyBufferInsertError<T: Entry> {
    /// The proposal was late and could not be inserted; it is handed back.
    Late(DomPropose<T>),
}

/// A buffer that stores proposals whose deadline has not yet passed. It keeps
/// them sorted by key and remembers the key of the last released proposal.
pub struct EarlyBuffer<T: Entry> {
    entries: Vec<DomPropose<T>>,
    last_released: Option<BufferKey>,
}

impl<T: Entry> EarlyBuffer<T> {
    /// The proposals waiting in the buffer, in the order of their keys.
    pub closed spec fn pending(&self) -> Seq<DomPropose<T>> {
        self.entries@
    }

    /// The key of the last released proposal, if any was released.
    pub closed spec fn last_released(&self) -> Option<BufferKey> {
        self.last_released
    }

    /// The deadline of the last released proposal, if any was released.
    pub open spec fn last_released_deadline_spec(&self) -> Option<i64> {
        match self.last_released() {
            Some(k) => Some(k.deadline),
            None => None,
        }
    }

    /// The buffer's invariant: the pending proposals are sorted by key, and
    /// none comes before the last released one.
    pub open spec fn wf(&self) -> bool {
        &&& keys_sorted(self.pending())
        &&& all_at_or_after(self.pending(), self.last_released())
    }

    /// The next proposal that a well-formed buffer releases (the first one)
    /// has a key at or after the last released key and at or before every
    /// other waiting key: releases come out in key order.
    pub proof fn lemma_next_release_in_order(&self)
        requires
            self.wf(),
            self.pending().len() > 0,
        ensures
            self.last_released() matches Some(l) ==> key_le(l, key_of(self.pending()[0])),
            forall|i: int| 0 <= i < self.pending().len() ==> key_le(key_of(self.pending()[0]), key_of(#[trigger] self.pending()[i])),
    {
    }

    /// Creates a new, empty early buffer.
    pub fn new() -> (b: Self)
        ensures
            b.wf(),
            b.pending() == Seq::<DomPropose<T>>::empty(),
            b.last_released() is None,
    {
        EarlyBuffer { entries: Vec::new(), last_released: None }
    }

    /// The number of waiting proposals.
    pub fn len(&self) -> (n: usize)
        ensures
            n == self.pending().len(),
    {
        self.entries.len()
    }

    /// Inserts the proposal into the early buffer, after every waiting
    /// proposal whose key is at or before its own. Returns it back in an
    /// error if it is late, that is if its key is at or before the key of the
    /// last released proposal.
    pub fn insert(&mut self, proposal: DomPropose<T>) -> (r: Result<(), EarlyBufferInsertError<T>>)
        requires
            old(self).wf(),
        ensures
            final(self).wf(),
            final(self).last_released() == old(self).last_released(),
            is_late_key(old(self).last_released(), key_of(proposal)) ==> {
                &&& r == Err::<(), EarlyBufferInsertError<T>>(EarlyBufferInsertError::Late(proposal))
                &&& final(self).pending() == old(self).pending()
            },
            !is_late_key(old(self).last_released(), key_of(proposal)) ==> {
                &&& r is Ok
                &&& exists|p: int|
                    {
                        &&& 0 <= p <= old(self).pending().len()
                        &&& final(self).pending() == old(self).pending().insert(p, proposal)
                        &&& forall|i: int|
                            0 <= i < p ==> key_le(
                                key_of(#[trigger] old(self).pending()[i]),
                                key_of(proposal),
                            )
                        &&& forall|i: int|
                            p <= i < old(self).pending().len() ==> key_lt(
                                key_of(proposal),
                                key_of(#[trigger] old(self).pending()[i]),
                            )
                    }
            },
    {
        if self.is_late(&proposal) {
            return Err(EarlyBufferInsertError::Late(proposal));
        }
        let k = BufferKey::from_proposal(&proposal);
        let n = self.entries.len();
        let mut i: usize = 0;
        while i < n && BufferKey::from_proposal(&self.entries[i]).le(&k)
            invariant
                i <= n,
                n == self.entries.len(),
                self.entries == old(self).entries,
                self.last_released == old(self).last_released,
                k == key_of(proposal),
                forall|j: int| 0 <= j < i ==> key_le(key_of(#[trigger] self.entries@[j]), k),
            decreases n - i,
        {
            i = i + 1;
        }
        let ghost old_s = self.entries@;
        assert forall|j: int| i <= j < old_s.len() implies key_lt(k, key_of(#[trigger] old_s[j])) by {
            assert(key_le(key_of(old_s[i as int]), key_of(old_s[j])));
        }
        self.entries.insert(i, proposal);
        assert(self.entries@ == old_s.insert(i as int, proposal));
        assert forall|a: int, b: int| 0 <= a <= b < self.entries@.len() implies key_le(
            key_of(#[trigger] self.entries@[a]),
            key_of(#[trigger] self.entries@[b]),
        ) by {
            if a < i && b > i {
                assert(key_le(key_of(old_s[a]), k));
                assert(key_lt(k, key_of(old_s[b - 1])));
            }
        }
        Ok(())
    }

    /// The deadline of the last released proposal, if any.
    pub fn last_released_deadline(&self) -> (r: Option<i64>)
        ensures
            r == self.last_released_deadline_spec(),
    {
        match self.last_released {
            Some(k) => Some(k.deadline),
            None => None,
        }
    }

    /// Whether the proposal is late: a key at or after its own was released.
    pub fn is_late(&self, proposal: &DomPropose<T>) -> (r: bool)
        ensures
            r == is_late_key(self.last_released(), key_of(*proposal)),
    {
        match self.last_released {
            Some(last) => BufferKey::from_proposal(proposal).le(&last),
            None => false,
        }
    }

    /// Returns the earliest proposal in the early buffer, if any.
    pub fn peek(&self) -> (r: Option<&DomPropose<T>>)
        ensures
            self.pending().len() == 0 ==> r is None,
            self.pending().len() > 0 ==> r == Some(&self.pending()[0]),
    {
        if self.entries.len() == 0 {
            None
        } else {
            Some(&self.entries[0])
        }
    }

    /// Removes and returns the earliest proposal in the early buffer, if any,
    /// and records its key as the last released one. The released key is at
    /// or after the previously released key and at or before every key that
    /// stays in the buffer.
    pub fn pop(&mut self) -> (r: Option<DomPropose<T>>)
        requires
            old(self).wf(),
        ensures
            final(self).wf(),
            old(self).pending().len() == 0 ==> {
                &&& r is None
                &&& final(self).pending() == old(self).pending()
                &&& final(self).last_released() == old(self).last_released()
            },
            old(self).pending().len() > 0 ==> {
                &&& r == Some(old(self).pending()[0])
                &&& final(self).pending() == old(self).pending().drop_first()
                &&& final(self).last_released() == Some(key_of(old(self).pending()[0]))
                &&& (old(self).last_released() matches Some(prev) ==> key_le(
                    prev,
                    key_of(old(self).pending()[0]),
                ))
                &&& forall|i: int|
                    0 <= i < final(self).pending().len() ==> key_le(
                        key_of(old(self).pending()[0]),
                        key_of(#[trigger] final(self).pending()[i]),
                    )
            },
    {
        if self.entries.len() == 0 {
            return None;
        }
        let ghost old_s = self.entries@;
        let p = self.entries.remove(0);
        self.last_released = Some(BufferKey::from_proposal(&p));
        assert(self.entries@ =~= old_s.drop_first());
        assert forall|i: int| 0 <= i < self.entries@.len() implies key_le(
            key_of(old_s[0]),
            key_of(#[trigger] self.entries@[i]),
        ) by {
            assert(self.entries@[i] == old_s[i + 1]);
        }
        Some(p)
    }

    /// Removes and returns the earliest proposal if its deadline is at or
    /// before `now`; otherwise changes nothing and returns `None`.
    pub fn pop_ready(&mut self, now: i64) -> (r: Option<DomPropose<T>>)
        requires
            old(self).wf(),
        ensures
            final(self).wf(),
            (old(self).pending().len() > 0 && old(self).pending()[0].deadline <= now) ==> {
                &&& r == Some(old(self).pending()[0])
                &&& final(self).pending() == old(self).pending().drop_first()
                &&& final(self).last_released() == Some(key_of(old(self).pending()[0]))
            },
            !(old(self).pending().len() > 0 && old(self).pending()[0].deadline <= now) ==> {
                &&& r is None
                &&& final(self).pending() == old(self).pending()
                &&& final(self).last_released() == old(self).last_released()
            },
    {
        let ready = match self.peek() {
            Some(next) => next.deadline <= now,
            None => false,
        };
        if ready {
            self.pop()
        } else {
            None
        }
    }

    /// Removes every proposal with the given entry id. Returns the last of
    /// them in the buffer's order, if there was any.
    pub fn remove(&mut self, entry_id: EntryId) -> (r: Option<DomPropose<T>>)
        requires
            old(self).wf(),
        ensures
            final(self).wf(),
            final(self).pending() == without_id(old(self).pending(), entry_id),
            final(self).last_released() == old(self).last_released(),
            r == last_with_id(old(self).pending(), entry_id),
    {
        let ghost old_s = self.entries@;
        let ghost pred = |p: DomPropose<T>| p.entry_id != entry_id;
        let mut removed: Option<DomPropose<T>> = None;
        let mut i: usize = 0;
        let ghost mut k: int = 0;
        while i < self.entries.len()
            invariant
                0 <= k <= old_s.len(),
                self.last_released == old(self).last_released,
                i <= self.entries@.len(),
                self.entries@ == old_s.subrange(0, k).filter(pred) + old_s.subrange(k, old_s.len() as int),
                i == old_s.subrange(0, k).filter(pred).len(),
                removed == last_with_id(old_s.subrange(0, k), entry_id),
                keys_sorted(self.entries@),
                all_at_or_after(self.entries@, self.last_released),
                pred == (|p: DomPropose<T>| p.entry_id != entry_id),
            decreases self.entries@.len() - i,
        {
            let ghost before = self.entries@;
            proof {
                reveal_with_fuel(Seq::<_>::filter, 1);
                assert(old_s.subrange(0, k + 1).drop_last() =~= old_s.subrange(0, k));
                assert(old_s.subrange(k, old_s.len() as int)[0] == old_s[k]);
                assert(before[i as int] == old_s[k]);
            }
            if self.entries[i].entry_id == entry_id {
                let p = self.entries.remove(i);
                removed = Some(p);
                proof {
                    assert(self.entries@ =~= old_s.subrange(0, k + 1).filter(pred) + old_s.subrange(
                        k + 1,
                        old_s.len() as int,
                    ));
                    assert forall|a: int, b: int| 0 <= a <= b < self.entries@.len() implies key_le(
                        key_of(#[trigger] self.entries@[a]),
                        key_of(#[trigger] self.entries@[b]),
                    ) by {
                        let a2 = if a < i { a } else { a + 1 };
                        let b2 = if b < i { b } else { b + 1 };
                        assert(self.entries@[a] == before[a2]);
                        assert(self.entries@[b] == before[b2]);
                    }
                    assert forall|a: int| 0 <= a < self.entries@.len() implies (
                    self.last_released matches Some(l) ==> key_le(l, key_of(#[trigger] self.entries@[a]))) by {
                        let a2 = if a < i { a } else { a + 1 };
                        assert(self.entries@[a] == before[a2]);
                    }
                }
            } else {
                i = i + 1;
                proof {
                    assert(self.entries@ =~= old_s.subrange(0, k + 1).filter(pred) + old_s.subrange(
                        k + 1,
                        old_s.len() as int,
                    ));
                }
            }
            proof {
                k = k + 1;
            }
        }
        proof {
            assert(old_s.subrange(k, old_s.len() as int).len() == 0);
            assert(old_s.subrange(0, k) =~= old_s);
            assert(self.entries@ =~= old_s.filter(pred));
        }
        removed
    }
}

} // verus!
