//! What a follower promised a leader, and the order of promises by how
//! up to date the follower's log is.

use vstd::prelude::*;
use core::cmp::Ordering;
use crate::ballot::{ballot_lt, Ballot};
use crate::util::NodeId;

verus! {

/// Promise without the log update
#[derive(Copy, Clone, Debug)]
pub struct PromiseMetaData {
    /// The latest round in which the follower accepted an entry.
    pub n_accepted: Ballot,
    /// The follower's log length.
    pub accepted_idx: usize,
    /// The follower's decided index.
    pub decided_idx: usize,
    /// The follower.
    pub pid: NodeId,
}

/// Two promises are equal when their accepted round, accepted index and
/// sender are; the decided index plays no part.
pub open spec fn promise_meta_eq(a: PromiseMetaData, b: PromiseMetaData) -> bool {
    a.n_accepted == b.n_accepted && a.accepted_idx == b.accepted_idx && a.pid == b.pid
}

/// `a` is a more up-to-date promise than `b`: it is not equal to `b`, and
/// its accepted round is later, or the same with a longer log.
pub open spec fn promise_meta_gt(a: PromiseMetaData, b: PromiseMetaData) -> bool {
    !promise_meta_eq(a, b) && (ballot_lt(b.n_accepted, a.n_accepted) || (a.n_accepted == b.n_accepted
        && a.accepted_idx > b.accepted_idx))
}

impl PromiseMetaData {
    /// The promise of process 0 with the zero ballot and zero indexes.
    pub fn default() -> (m: Self)
        ensures
            m == (PromiseMetaData {
                n_accepted: Ballot { config_id: 0, n: 0, priority: 0, pid: 0 },
                accepted_idx: 0,
                decided_idx: 0,
                pid: 0,
            }),
    {
        PromiseMetaData { n_accepted: Ballot::default(), accepted_idx: 0, decided_idx: 0, pid: 0 }
    }

    /// Whether `self` is a more up-to-date promise than `other`.
    pub fn is_greater(&self, other: &PromiseMetaData) -> (r: bool)
        ensures
            r == promise_meta_gt(*self, *other),
    {
        let same = self.n_accepted == other.n_accepted && self.accepted_idx == other.accepted_idx
            && self.pid == other.pid;
        !same && (self.n_accepted.is_greater(&other.n_accepted) || (self.n_accepted
            == other.n_accepted && self.accepted_idx > other.accepted_idx))
    }
}

impl PartialEq for PromiseMetaData {
    fn eq(&self, other: &PromiseMetaData) -> (r: bool) {
        self.n_accepted == other.n_accepted && self.accepted_idx == other.accepted_idx && self.pid
            == other.pid
    }
}

impl vstd::std_specs::cmp::PartialEqSpecImpl for PromiseMetaData {
    open spec fn obeys_eq_spec() -> bool {
        true
    }

    open spec fn eq_spec(&self, other: &PromiseMetaData) -> bool {
        promise_meta_eq(*self, *other)
    }
}

impl PartialOrd for PromiseMetaData {
    fn partial_cmp(&self, other: &PromiseMetaData) -> (r: Option<Ordering>) {
        if self.n_accepted == other.n_accepted && self.accepted_idx == other.accepted_idx && self.pid
            == other.pid {
            Some(Ordering::Equal)
        } else if self.is_greater(other) {
            Some(Ordering::Greater)
        } else {
            Some(Ordering::Less)
        }
    }
}

impl vstd::std_specs::cmp::PartialOrdSpecImpl for PromiseMetaData {
    open spec fn obeys_partial_cmp_spec() -> bool {
        true
    }

    open spec fn partial_cmp_spec(&self, other: &PromiseMetaData) -> Option<Ordering> {
        if promise_meta_eq(*self, *other) {
            Some(Ordering::Equal)
        } else if promise_meta_gt(*self, *other) {
            Some(Ordering::Greater)
        } else {
            Some(Ordering::Less)
        }
    }
}

/// The most up-to-date promise after the promises `metas` arrive in order,
/// starting from `start`: each one marked for checking that is more up to
/// date than the current one replaces it, as `LeaderState::set_promise` does.
pub open spec fn max_promise_after(start: PromiseMetaData, metas: Seq<(PromiseMetaData, bool)>) -> PromiseMetaData
    decreases metas.len(),
{
    if metas.len() == 0 {
        start
    } else {
        let prev = max_promise_after(start, metas.drop_last());
        let (m, checked) = metas.last();
        if checked && promise_meta_gt(m, prev) {
            m
        } else {
            prev
        }
    }
}

/// One more promise moves the fold exactly as `LeaderState::set_promise`
/// moves the most up-to-date promise.
pub proof fn lemma_max_promise_step(start: PromiseMetaData, metas: Seq<(PromiseMetaData, bool)>, m: PromiseMetaData, checked: bool)
    ensures
        max_promise_after(start, metas.push((m, checked))) == (if checked && promise_meta_gt(m, max_promise_after(start, metas)) {
            m
        } else {
            max_promise_after(start, metas)
        }),
{
    assert(metas.push((m, checked)).drop_last() =~= metas);
}

/// Being more up to date is transitive.
pub proof fn lemma_promise_meta_gt_transitive(a: PromiseMetaData, b: PromiseMetaData, c: PromiseMetaData)
    requires
        promise_meta_gt(a, b),
        promise_meta_gt(b, c),
    ensures
        promise_meta_gt(a, c),
{
}

/// Two promises have the same key: the same accepted round and log length.
pub open spec fn same_key(a: PromiseMetaData, b: PromiseMetaData) -> bool {
    a.n_accepted == b.n_accepted && a.accepted_idx == b.accepted_idx
}

/// Whatever order the promises come in, the most up-to-date promise kept is
/// the start exactly when no checked promise is more up to date than the
/// start; otherwise it is the first checked promise with its key, it is more
/// up to date than the start, and no checked promise is more up to date than
/// it.
pub proof fn lemma_max_promise_is_greatest(start: PromiseMetaData, metas: Seq<(PromiseMetaData, bool)>)
    ensures
        ({
            let r = max_promise_after(start, metas);
            &&& (r != start) == exists|i: int| 0 <= i < metas.len() && metas[i].1 && promise_meta_gt(#[trigger] metas[i].0, start)
            &&& r == start || exists|i: int| {
                &&& 0 <= i < metas.len()
                &&& metas[i].1
                &&& #[trigger] metas[i].0 == r
                &&& forall|j: int| 0 <= j < i && metas[j].1 ==> !same_key(#[trigger] metas[j].0, r)
            }
            &&& r == start || promise_meta_gt(r, start)
            &&& forall|i: int| 0 <= i < metas.len() && metas[i].1 ==> !promise_meta_gt(#[trigger] metas[i].0, r)
        }),
    decreases metas.len(),
{
    if metas.len() > 0 {
        let prefix = metas.drop_last();
        lemma_max_promise_is_greatest(start, prefix);
        let prev = max_promise_after(start, prefix);
        let (m, checked) = metas.last();
        let r = max_promise_after(start, metas);
        if checked && promise_meta_gt(m, prev) {
            assert(r == m);
            assert(metas[metas.len() - 1].0 == r);
            assert forall|j: int| 0 <= j < metas.len() - 1 && metas[j].1 implies !same_key(#[trigger] metas[j].0, r) by {
                assert(prefix[j] == metas[j]);
                assert(!promise_meta_gt(prefix[j].0, prev));
            }
            if prev != start {
                lemma_promise_meta_gt_transitive(m, prev, start);
            }
            assert forall|i: int| 0 <= i < metas.len() && metas[i].1 implies !promise_meta_gt(#[trigger] metas[i].0, r) by {
                if i < metas.len() - 1 {
                    assert(prefix[i] == metas[i]);
                    if promise_meta_gt(metas[i].0, r) {
                        lemma_promise_meta_gt_transitive(metas[i].0, m, prev);
                    }
                }
            }
        } else {
            assert(r == prev);
            if prev != start {
                let j = choose|j: int| {
                    &&& 0 <= j < prefix.len()
                    &&& prefix[j].1
                    &&& #[trigger] prefix[j].0 == prev
                    &&& forall|l: int| 0 <= l < j && prefix[l].1 ==> !same_key(#[trigger] prefix[l].0, prev)
                };
                assert(metas[j] == prefix[j]);
                assert forall|l: int| 0 <= l < j && metas[l].1 implies !same_key(#[trigger] metas[l].0, r) by {
                    assert(prefix[l] == metas[l]);
                }
            }
            assert forall|i: int| 0 <= i < metas.len() && metas[i].1 implies !promise_meta_gt(#[trigger] metas[i].0, r) by {
                if i < metas.len() - 1 {
                    assert(prefix[i] == metas[i]);
                }
            }
        }
    }
}

/// The promise state of a node.
#[derive(Copy, Clone, Debug)]
pub enum PromiseState {
    /// Not promised to any leader
    NotPromised,
    /// Promised to my ballot
    Promised(PromiseMetaData),
    /// Promised to a leader who's ballot is greater than mine
    PromisedHigher,
}

} // verus!
