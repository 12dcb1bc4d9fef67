//! The state that a leader keeps about its followers: their promises,
//! sequence numbers and accepted indexes, the entries they accepted on the
//! fast path, and the unsynced log entries they reported.

use vstd::prelude::*;
use vstd::std_specs::iter::IteratorSpec;
use std::collections::{HashMap, HashSet, VecDeque};
use crate::ballot::Ballot;
use crate::promise::{max_promise_after, promise_meta_gt, PromiseMetaData, PromiseState};
use crate::messages::sequence_paxos::{AcceptedEntryMeta, EntryId, Promise};
use crate::storage::Entry;
use crate::util::{AcceptedMapEntry, DOMHash, LogSync, NodeId, Quorum, SequenceNumber, UnsyncedLogEntry};

verus! {

broadcast use vstd::std_specs::hash::group_hash_axioms;

/// What changes the most up-to-date promise that a leader keeps.
pub enum MaxPromiseEvent<T: Entry> {
    /// `set_promise(prom, from, check_max_prom)`.
    Promised(Promise<T>, NodeId, bool),
    /// `take_max_promise_sync()`.
    SyncTaken,
}

/// The metadata that `set_promise` records for the promise `prom` of `from`.
pub open spec fn promise_meta_of<T: Entry>(prom: Promise<T>, from: NodeId) -> PromiseMetaData {
    PromiseMetaData { n_accepted: prom.n_accepted, accepted_idx: prom.accepted_idx, decided_idx: prom.decided_idx, pid: from }
}

/// The most up-to-date promise, its log update and its prefix hash after
/// `e`: a checked promise that is more up to date replaces all three;
/// taking the log update leaves none.
pub open spec fn max_promise_step<T: Entry>(
    m: (PromiseMetaData, Option<LogSync<T>>, DOMHash),
    e: MaxPromiseEvent<T>,
) -> (PromiseMetaData, Option<LogSync<T>>, DOMHash) {
    match e {
        MaxPromiseEvent::Promised(prom, from, check) => {
            let meta = promise_meta_of(prom, from);
            if check && promise_meta_gt(meta, m.0) {
                (meta, prom.log_sync, prom.log_prefix_hash)
            } else {
                m
            }
        },
        MaxPromiseEvent::SyncTaken => (m.0, None, m.2),
    }
}

/// The most up-to-date promise, its log update and its prefix hash after
/// the events `events`, from `start`.
pub open spec fn max_promise_history<T: Entry>(
    start: (PromiseMetaData, Option<LogSync<T>>, DOMHash),
    events: Seq<MaxPromiseEvent<T>>,
) -> (PromiseMetaData, Option<LogSync<T>>, DOMHash)
    decreases events.len(),
{
    if events.len() == 0 {
        start
    } else {
        max_promise_step(max_promise_history(start, events.drop_last()), events.last())
    }
}

/// The promise of an event and whether it is checked; taking the log update
/// carries no checked promise.
pub open spec fn event_meta<T: Entry>(e: MaxPromiseEvent<T>) -> (PromiseMetaData, bool) {
    match e {
        MaxPromiseEvent::Promised(prom, from, check) => (promise_meta_of(prom, from), check),
        MaxPromiseEvent::SyncTaken => (
            PromiseMetaData { n_accepted: Ballot { config_id: 0, n: 0, priority: 0, pid: 0 }, accepted_idx: 0, decided_idx: 0, pid: 0 },
            false,
        ),
    }
}

/// Event `i` raised the most up-to-date promise.
pub open spec fn raises<T: Entry>(start: (PromiseMetaData, Option<LogSync<T>>, DOMHash), events: Seq<MaxPromiseEvent<T>>, i: int) -> bool {
    &&& 0 <= i < events.len()
    &&& events[i] matches MaxPromiseEvent::Promised(prom, from, check)
    &&& check
    &&& promise_meta_gt(promise_meta_of(prom, from), max_promise_history(start, events.take(i)).0)
}

/// The last event that raised the most up-to-date promise, or -1.
pub open spec fn last_raise<T: Entry>(start: (PromiseMetaData, Option<LogSync<T>>, DOMHash), events: Seq<MaxPromiseEvent<T>>) -> int
    decreases events.len(),
{
    if events.len() == 0 {
        -1
    } else if raises(start, events, events.len() - 1) {
        events.len() - 1
    } else {
        last_raise(start, events.drop_last())
    }
}

/// The log update was taken after event `i`.
pub open spec fn taken_after<T: Entry>(events: Seq<MaxPromiseEvent<T>>, i: int) -> bool {
    exists|j: int| i < j < events.len() && #[trigger] events[j] is SyncTaken
}

/// Over any sequence of promises and takes: the most up-to-date promise is
/// the fold of `max_promise_after` over the checked promises (so the law of
/// `lemma_max_promise_is_greatest` holds of it); its prefix hash is that of
/// the promise that last raised it; and its log update is that promise's,
/// or none once it has been taken since (the start's, where nothing raised
/// it and nothing was taken).
pub proof fn lemma_max_promise_history<T: Entry>(
    start: (PromiseMetaData, Option<LogSync<T>>, DOMHash),
    events: Seq<MaxPromiseEvent<T>>,
)
    ensures
        ({
            let r = max_promise_history(start, events);
            let i = last_raise(start, events);
            &&& r.0 == max_promise_after(start.0, events.map_values(|e: MaxPromiseEvent<T>| event_meta(e)))
            &&& -1 <= i < events.len()
            &&& i == -1 ==> {
                &&& r.0 == start.0
                &&& r.2 == start.2
                &&& r.1 == (if taken_after(events, -1) { None } else { start.1 })
            }
            &&& i >= 0 ==> (events[i] matches MaxPromiseEvent::Promised(prom, from, check) && {
                &&& r.0 == promise_meta_of(prom, from)
                &&& r.2 == prom.log_prefix_hash
                &&& r.1 == (if taken_after(events, i) { None } else { prom.log_sync })
            })
        }),
    decreases events.len(),
{
    if events.len() > 0 {
        let n = events.len() - 1;
        let pre = events.drop_last();
        lemma_max_promise_history(start, pre);
        let f = |e: MaxPromiseEvent<T>| event_meta(e);
        assert(events.map_values(f).drop_last() =~= pre.map_values(f));
        assert(events.take(n) =~= pre);
        let ip = last_raise(start, pre);
        if !raises(start, events, n) {
            assert forall|j: int| ip < j < pre.len() implies pre[j] == events[j] by {}
            if taken_after(pre, ip) {
                let j = choose|j: int| ip < j < pre.len() && #[trigger] pre[j] is SyncTaken;
                assert(events[j] is SyncTaken);
            }
            if events[n] is SyncTaken {
                assert(events[n] is SyncTaken);
            }
            if taken_after(events, ip) && !(events[n] is SyncTaken) {
                let j = choose|j: int| ip < j < events.len() && #[trigger] events[j] is SyncTaken;
                assert(pre[j] is SyncTaken);
            }
            if ip >= 0 {
                assert(events[ip] == pre[ip]);
            }
        }
    }
}

/// The test of a follower having promised this leader (not a higher one).
pub open spec fn has_promised() -> spec_fn(PromiseState) -> bool {
    |p: PromiseState| p is Promised
}

/// Counting promises counts exactly the followers in the `Promised` state:
/// a follower that promised a higher ballot, or none, never counts.
pub proof fn lemma_count_promised_counts_promised_states(s: Seq<PromiseState>, n: int)
    requires
        0 <= n <= s.len(),
    ensures
        count_promised(s, n) == s.take(n).filter(has_promised()).len(),
    decreases n,
{
    reveal_with_fuel(Seq::<_>::filter, 1);
    if n > 0 {
        lemma_count_promised_counts_promised_states(s, n - 1);
        assert(s.take(n).drop_last() =~= s.take(n - 1));
        assert(s.take(n).last() == s[n - 1]);
    }
}

/// Whatever the other followers' states, a follower that promised a higher
/// ballot counts as one that has not promised at all.
pub proof fn lemma_promised_higher_does_not_count(s: Seq<PromiseState>, i: int)
    requires
        0 <= i < s.len(),
    ensures
        count_promised(s.update(i, PromiseState::PromisedHigher), s.len() as int)
            == count_promised(s.update(i, PromiseState::NotPromised), s.len() as int),
        count_promised(s.update(i, PromiseState::PromisedHigher), s.len() as int) <= count_promised(s, s.len() as int),
{
    let a = s.update(i, PromiseState::PromisedHigher);
    let b = s.update(i, PromiseState::NotPromised);
    lemma_count_promised_counts_promised_states(a, a.len() as int);
    lemma_count_promised_counts_promised_states(b, b.len() as int);
    lemma_count_promised_counts_promised_states(s, s.len() as int);
    assert(a.take(a.len() as int) =~= a);
    assert(b.take(b.len() as int) =~= b);
    assert(s.take(s.len() as int) =~= s);
    assert(a.filter(has_promised()) =~= b.filter(has_promised())) by {
        lemma_filter_same_on_promised(a, b);
    }
    lemma_filter_len_monotone(a, s);
}

/// Two sequences that agree on which positions are promised, and on the
/// promised states themselves, filter to the same promises.
proof fn lemma_filter_same_on_promised(a: Seq<PromiseState>, b: Seq<PromiseState>)
    requires
        a.len() == b.len(),
        forall|j: int| 0 <= j < a.len() ==> ((#[trigger] a[j]) is Promised || b[j] is Promised) ==> a[j] == b[j],
    ensures
        a.filter(has_promised()) == b.filter(has_promised()),
    decreases a.len(),
{
    reveal_with_fuel(Seq::<_>::filter, 1);
    if a.len() > 0 {
        lemma_filter_same_on_promised(a.drop_last(), b.drop_last());
    }
}

/// Turning promised positions of `s` into unpromised ones, and leaving the
/// rest, gives no more promises.
proof fn lemma_filter_len_monotone(a: Seq<PromiseState>, s: Seq<PromiseState>)
    requires
        a.len() == s.len(),
        forall|j: int| 0 <= j < a.len() ==> (#[trigger] a[j]) is Promised ==> s[j] is Promised,
    ensures
        a.filter(has_promised()).len() <= s.filter(has_promised()).len(),
    decreases a.len(),
{
    reveal_with_fuel(Seq::<_>::filter, 1);
    if a.len() > 0 {
        lemma_filter_len_monotone(a.drop_last(), s.drop_last());
    }
}

/// The number of `Promised` states among the first `n` of `s`.
pub open spec fn count_promised(s: Seq<PromiseState>, n: int) -> nat
    decreases n,
{
    if n <= 0 {
        0
    } else {
        count_promised(s, n - 1) + if s[n - 1] is Promised { 1nat } else { 0nat }
    }
}

/// The number of accepted indexes among the first `n` of `s` that are at least `idx`.
pub open spec fn count_at_least(s: Seq<usize>, n: int, idx: usize) -> nat
    decreases n,
{
    if n <= 0 {
        0
    } else {
        count_at_least(s, n - 1, idx) + if s[n - 1] >= idx { 1nat } else { 0nat }
    }
}

/// The largest decided index among the first `n` promises, or 0.
pub open spec fn max_decided(s: Seq<PromiseState>, n: int) -> usize
    decreases n,
{
    if n <= 0 {
        0
    } else {
        let prev = max_decided(s, n - 1);
        match s[n - 1] {
            PromiseState::Promised(m) => if m.decided_idx > prev {
                m.decided_idx
            } else {
                prev
            },
            _ => prev,
        }
    }
}

/// The process ids, in order, of the followers among the first `n` that
/// promised, leaving out the one at `leader_idx`.
pub open spec fn promised_followers(s: Seq<PromiseState>, n: int, leader_idx: int) -> Seq<NodeId>
    decreases n,
{
    if n <= 0 {
        Seq::empty()
    } else {
        let prev = promised_followers(s, n - 1, leader_idx);
        if s[n - 1] is Promised && n - 1 != leader_idx {
            prev.push(n as NodeId)
        } else {
            prev
        }
    }
}

/// The peers, in order, that have not promised anything.
pub open spec fn preparable(peers: Seq<NodeId>, s: Seq<PromiseState>) -> Seq<NodeId>
    decreases peers.len(),
{
    if peers.len() == 0 {
        Seq::empty()
    } else {
        let prev = preparable(peers.drop_last(), s);
        if s[idx_of(peers.last())] is NotPromised {
            prev.push(peers.last())
        } else {
            prev
        }
    }
}

/// The fast-path acceptor groups of an accepted-map entry.
pub type FastGroups = Vec<((DOMHash, DOMHash), HashSet<NodeId>)>;

/// `i` is the first position of `fast` whose pair is `key`.
pub open spec fn first_with_key(fast: Seq<((DOMHash, DOMHash), HashSet<NodeId>)>, key: (DOMHash, DOMHash), i: int) -> bool {
    &&& 0 <= i < fast.len()
    &&& fast[i].0 == key
    &&& forall|j: int| 0 <= j < i ==> (#[trigger] fast[j]).0 != key
}

/// `after` is `before` with `pid` added to the group of `key`: to the first
/// group with that pair, or to a new group at the end.
pub open spec fn adds_fast_acceptor(
    before: Seq<((DOMHash, DOMHash), HashSet<NodeId>)>,
    after: Seq<((DOMHash, DOMHash), HashSet<NodeId>)>,
    key: (DOMHash, DOMHash),
    pid: NodeId,
) -> bool {
    if exists|i: int| first_with_key(before, key, i) {
        let i = choose|i: int| first_with_key(before, key, i);
        &&& after.len() == before.len()
        &&& forall|j: int| 0 <= j < before.len() && j != i ==> #[trigger] after[j] == before[j]
        &&& after[i].0 == key
        &&& after[i].1@ == before[i].1@.insert(pid)
    } else {
        &&& after.len() == before.len() + 1
        &&& forall|j: int| 0 <= j < before.len() ==> #[trigger] after[j] == before[j]
        &&& after.last().0 == key
        &&& after.last().1@ == Set::<NodeId>::empty().insert(pid)
    }
}

/// `after` is the accepted-map entry `before` (or, where there is none, a
/// new one for the given hashes) with `pid` recorded as an acceptor: on the
/// fast path in the group of the pair (prefix hash, entry hash), or on the
/// slow path.
pub open spec fn records_acceptor(
    before: Option<AcceptedMapEntry>,
    after: AcceptedMapEntry,
    entry_hash: DOMHash,
    prefix_hash: DOMHash,
    pid: NodeId,
    is_fast_path: bool,
) -> bool {
    let (eh, ph, fast0, slow0) = match before {
        Some(e) => (e.entry_hash, e.prefix_hash, e.fast@, e.slow@),
        None => (entry_hash, prefix_hash, Seq::empty(), Set::<NodeId>::empty()),
    };
    &&& after.entry_hash == eh
    &&& after.prefix_hash == ph
    &&& is_fast_path ==> adds_fast_acceptor(fast0, after.fast@, (prefix_hash, entry_hash), pid) && after.slow@ == slow0
    &&& !is_fast_path ==> after.fast@ == fast0 && after.slow@ == slow0.insert(pid)
}

/// Adds `pid` to the group of `key`, or to a new group at the end.
pub fn add_fast_acceptor(fast: &mut FastGroups, key: (DOMHash, DOMHash), pid: NodeId)
    ensures
        adds_fast_acceptor(old(fast)@, final(fast)@, key, pid),
{
    let n = fast.len();
    let mut i: usize = 0;
    while i < n
        invariant
            i <= n,
            n == fast@.len(),
            *fast == *old(fast),
            forall|j: int| 0 <= j < i ==> (#[trigger] fast@[j]).0 != key,
        decreases n - i,
    {
        if fast[i].0.0 == key.0 && fast[i].0.1 == key.1 {
            let ghost before = fast@;
            proof {
                assert(first_with_key(before, key, i as int));
                let c = choose|c: int| first_with_key(before, key, c);
                assert(c == i) by {
                    if c < i {
                        assert(before[c].0 != key);
                    } else if c > i {
                        assert(before[i as int].0 != key);
                    }
                }
            }
            let (k, mut acceptors) = fast.remove(i);
            acceptors.insert(pid);
            fast.insert(i, (k, acceptors));
            return;
        }
        i = i + 1;
    }
    let mut acceptors: HashSet<NodeId> = HashSet::new();
    acceptors.insert(pid);
    fast.push((key, acceptors));
    proof {
        assert(acceptors@ =~= Set::<NodeId>::empty().insert(pid));
        assert(!exists|c: int| first_with_key(old(fast)@, key, c));
    }
}

/// The position of the group of hash `h` in `g`, searching from the end, or -1.
pub open spec fn find_group<T>(g: Seq<(DOMHash, EntryId, T, nat)>, h: DOMHash) -> int
    decreases g.len(),
{
    if g.len() == 0 {
        -1
    } else if g.last().0 == h {
        g.len() - 1
    } else {
        find_group(g.drop_last(), h)
    }
}

/// The unsynced entries at log index `entry_idx` whose prefix hash is
/// `prefix_hash`, grouped by entry hash in the order in which the hashes
/// first occur among the logs: each group holds the hash, the entry id and
/// entry of the last log that has it, and the number of logs that have it.
pub open spec fn matched_groups<T: Entry>(
    logs: Seq<Map<usize, UnsyncedLogEntry<T>>>,
    entry_idx: usize,
    prefix_hash: DOMHash,
) -> Seq<(DOMHash, EntryId, T, nat)>
    decreases logs.len(),
{
    if logs.len() == 0 {
        Seq::empty()
    } else {
        let g = matched_groups(logs.drop_last(), entry_idx, prefix_hash);
        let log = logs.last();
        if log.contains_key(entry_idx) && log[entry_idx].prefix_hash == prefix_hash {
            let e = log[entry_idx];
            let k = find_group(g, e.entry_hash);
            if k >= 0 {
                g.update(k, (e.entry_hash, e.entry_id, e.entry, g[k].3 + 1))
            } else {
                g.push((e.entry_hash, e.entry_id, e.entry, 1))
            }
        } else {
            g
        }
    }
}

/// `find_group` finds the group of `h` exactly where there is one.
proof fn lemma_find_group<T>(g: Seq<(DOMHash, EntryId, T, nat)>, h: DOMHash)
    ensures
        -1 <= find_group(g, h) < g.len(),
        find_group(g, h) == -1 <==> forall|i: int| 0 <= i < g.len() ==> (#[trigger] g[i]).0 != h,
        find_group(g, h) >= 0 ==> g[find_group(g, h)].0 == h,
    decreases g.len(),
{
    if g.len() > 0 {
        lemma_find_group(g.drop_last(), h);
        if g.last().0 != h {
            assert forall|i: int| 0 <= i < g.len() - 1 implies g[i] == g.drop_last()[i] by {}
        }
    }
}

/// The state of a leader about its followers. Followers are numbered from
/// 1 to `max_pid`; the state of follower `pid` stands at index `pid - 1` of
/// each per-follower vector.
pub struct LeaderState<T: Entry> {
    /// The leader's ballot.
    pub n_leader: Ballot,
    promises_meta: Vec<PromiseState>,
    follower_seq_nums: Vec<SequenceNumber>,
    /// The accepted index of each follower.
    pub accepted_indexes: Vec<usize>,
    max_promise_meta: PromiseMetaData,
    max_promise_sync: Option<LogSync<T>>,
    max_promise_accepted_hash: DOMHash,
    latest_accept_meta: Vec<Option<(Ballot, usize)>>,
    /// The largest process id, and the number of followers tracked.
    pub max_pid: usize,
    /// The number of promises needed in the prepare phase to become synced and
    /// the number of accepteds needed in the accept phase to decide an entry.
    pub quorum: Quorum,
    accepted_map: HashMap<usize, AcceptedMapEntry>,
    unsynced_log_store: Vec<HashMap<usize, UnsyncedLogEntry<T>>>,
    recovered_remote_entry_ids: Vec<EntryId>,
    pending_accept_meta: VecDeque<AcceptedEntryMeta>,
}

/// The index of follower `pid` in the per-follower vectors.
pub open spec fn idx_of(pid: NodeId) -> int {
    pid - 1
}

impl<T: Entry> LeaderState<T> {
    /// The leader's ballot.
    pub closed spec fn leader(&self) -> Ballot {
        self.n_leader
    }

    /// The number of followers tracked: process ids run from 1 to it.
    pub closed spec fn num_followers(&self) -> usize {
        self.max_pid
    }

    /// The quorum sizes.
    pub closed spec fn quorum_spec(&self) -> Quorum {
        self.quorum
    }

    /// The accepted index of each follower.
    pub closed spec fn accepted(&self) -> Seq<usize> {
        self.accepted_indexes@
    }

    /// The promise state of each follower.
    pub closed spec fn promises(&self) -> Seq<PromiseState> {
        self.promises_meta@
    }

    /// The accept-phase sequence number of each follower.
    pub closed spec fn seq_nums(&self) -> Seq<SequenceNumber> {
        self.follower_seq_nums@
    }

    /// The most up-to-date promise received, among those checked.
    pub closed spec fn max_promise(&self) -> PromiseMetaData {
        self.max_promise_meta
    }

    /// The log update of the most up-to-date promise, until taken.
    pub closed spec fn max_sync(&self) -> Option<LogSync<T>> {
        self.max_promise_sync
    }

    /// The log prefix hash of the most up-to-date promise.
    pub closed spec fn max_hash(&self) -> DOMHash {
        self.max_promise_accepted_hash
    }

    /// The most up-to-date promise, its log update and its prefix hash.
    pub open spec fn max_state(&self) -> (PromiseMetaData, Option<LogSync<T>>, DOMHash) {
        (self.max_promise(), self.max_sync(), self.max_hash())
    }

    /// The round and index of the latest accept sent to each follower.
    pub closed spec fn latest_accepts(&self) -> Seq<Option<(Ballot, usize)>> {
        self.latest_accept_meta@
    }

    /// The fast- and slow-path acceptors of each log index.
    pub closed spec fn accepted_map(&self) -> Map<usize, AcceptedMapEntry> {
        self.accepted_map@
    }

    /// The unsynced log of each follower, by log index.
    pub closed spec fn unsynced_logs(&self) -> Seq<Map<usize, UnsyncedLogEntry<T>>> {
        self.unsynced_log_store@.map_values(|m: HashMap<usize, UnsyncedLogEntry<T>>| m@)
    }

    /// The entry ids that were recovered from the followers' unsynced logs.
    pub closed spec fn recovered_ids(&self) -> Set<EntryId> {
        self.recovered_remote_entry_ids@.to_set()
    }

    /// The DOM metadata waiting to be sent with accepted entries, oldest first.
    pub closed spec fn pending_meta(&self) -> Seq<AcceptedEntryMeta> {
        self.pending_accept_meta@
    }

    /// The state's invariant: every per-follower vector has `max_pid`
    /// entries, and no recovered entry id is recorded twice.
    pub closed spec fn wf(&self) -> bool {
        &&& self.promises_meta@.len() == self.max_pid
        &&& self.follower_seq_nums@.len() == self.max_pid
        &&& self.accepted_indexes@.len() == self.max_pid
        &&& self.latest_accept_meta@.len() == self.max_pid
        &&& self.unsynced_log_store@.len() == self.max_pid
        &&& self.recovered_remote_entry_ids@.no_duplicates()
    }

    /// In a well-formed state every per-follower sequence has one entry per
    /// follower.
    pub proof fn lemma_sizes(&self)
        requires
            self.wf(),
        ensures
            self.promises().len() == self.num_followers(),
            self.seq_nums().len() == self.num_followers(),
            self.accepted().len() == self.num_followers(),
            self.latest_accepts().len() == self.num_followers(),
            self.unsynced_logs().len() == self.num_followers(),
    {
    }

    /// Whether `pid` is a follower that the state tracks.
    pub open spec fn tracks(&self, pid: NodeId) -> bool {
        1 <= pid <= self.num_followers()
    }

    /// A fresh state for the leader of ballot `n_leader` with followers 1 to
    /// `max_pid`: nobody promised, every sequence number and accepted index is
    /// zero, and nothing else is recorded.
    pub fn with(n_leader: Ballot, max_pid: usize, quorum: Quorum) -> (s: Self)
        ensures
            s.wf(),
            s.leader() == n_leader,
            s.num_followers() == max_pid,
            s.quorum_spec() == quorum,
            s.promises() == Seq::new(max_pid as nat, |i: int| PromiseState::NotPromised),
            s.seq_nums() == Seq::new(max_pid as nat, |i: int| (SequenceNumber { session: 0, counter: 0 })),
            s.accepted() == Seq::new(max_pid as nat, |i: int| 0usize),
            s.latest_accepts() == Seq::new(max_pid as nat, |i: int| None::<(Ballot, usize)>),
            s.unsynced_logs() == Seq::new(max_pid as nat, |i: int| Map::<usize, UnsyncedLogEntry<T>>::empty()),
            s.max_promise() == (PromiseMetaData {
                n_accepted: Ballot { config_id: 0, n: 0, priority: 0, pid: 0 },
                accepted_idx: 0,
                decided_idx: 0,
                pid: 0,
            }),
            s.max_sync() is None,
            s.max_hash().value() == 0,
            s.accepted_map() == Map::<usize, AcceptedMapEntry>::empty(),
            s.recovered_ids() == Set::<EntryId>::empty(),
            s.pending_meta() == Seq::<AcceptedEntryMeta>::empty(),
    {
        let mut promises_meta: Vec<PromiseState> = Vec::new();
        let mut follower_seq_nums: Vec<SequenceNumber> = Vec::new();
        let mut accepted_indexes: Vec<usize> = Vec::new();
        let mut latest_accept_meta: Vec<Option<(Ballot, usize)>> = Vec::new();
        let mut unsynced_log_store: Vec<HashMap<usize, UnsyncedLogEntry<T>>> = Vec::new();
        let mut i: usize = 0;
        while i < max_pid
            invariant
                i <= max_pid,
                promises_meta@ == Seq::new(i as nat, |j: int| PromiseState::NotPromised),
                follower_seq_nums@ == Seq::new(i as nat, |j: int| (SequenceNumber { session: 0, counter: 0 })),
                accepted_indexes@ == Seq::new(i as nat, |j: int| 0usize),
                latest_accept_meta@ == Seq::new(i as nat, |j: int| None::<(Ballot, usize)>),
                unsynced_log_store@.len() == i,
                forall|j: int| 0 <= j < i ==> (#[trigger] unsynced_log_store@[j])@ == Map::<usize, UnsyncedLogEntry<T>>::empty(),
            decreases max_pid - i,
        {
            promises_meta.push(PromiseState::NotPromised);
            follower_seq_nums.push(SequenceNumber::default());
            accepted_indexes.push(0);
            latest_accept_meta.push(None);
            let m: HashMap<usize, UnsyncedLogEntry<T>> = HashMap::new();
            assert(m@ =~= Map::<usize, UnsyncedLogEntry<T>>::empty());
            unsynced_log_store.push(m);
            i = i + 1;
            proof {
                assert(promises_meta@ =~= Seq::new(i as nat, |j: int| PromiseState::NotPromised));
                assert(follower_seq_nums@ =~= Seq::new(i as nat, |j: int| (SequenceNumber { session: 0, counter: 0 })));
                assert(accepted_indexes@ =~= Seq::new(i as nat, |j: int| 0usize));
                assert(latest_accept_meta@ =~= Seq::new(i as nat, |j: int| None::<(Ballot, usize)>));
            }
        }
        let s = Self {
            n_leader,
            promises_meta,
            follower_seq_nums,
            accepted_indexes,
            max_promise_meta: PromiseMetaData::default(),
            max_promise_sync: None,
            max_promise_accepted_hash: DOMHash::default(),
            latest_accept_meta,
            max_pid,
            quorum,
            accepted_map: HashMap::new(),
            unsynced_log_store,
            recovered_remote_entry_ids: Vec::new(),
            pending_accept_meta: VecDeque::new(),
        };
        proof {
            assert(s.unsynced_logs() =~= Seq::new(max_pid as nat, |i: int| Map::<usize, UnsyncedLogEntry<T>>::empty()));
            assert(s.accepted_map@ =~= Map::<usize, AcceptedMapEntry>::empty());
            assert(s.recovered_ids() =~= Set::<EntryId>::empty());
            assert(s.pending_meta() =~= Seq::<AcceptedEntryMeta>::empty());
        }
        s
    }

    /// The index of follower `pid` in the per-follower vectors.
    pub fn pid_to_idx(pid: NodeId) -> (i: usize)
        requires
            1 <= pid,
            pid - 1 <= usize::MAX,
        ensures
            i == idx_of(pid),
    {
        (pid - 1) as usize
    }

    /// Resets `pid`'s accept sequence to indicate they are in the next session of accepts
    pub fn increment_seq_num_session(&mut self, pid: NodeId)
        requires
            old(self).wf(),
            old(self).tracks(pid),
            old(self).seq_nums()[idx_of(pid)].session < u64::MAX,
        ensures
            final(self).wf(),
            final(self).seq_nums() == old(self).seq_nums().update(
                idx_of(pid),
                SequenceNumber { session: (old(self).seq_nums()[idx_of(pid)].session + 1) as u64, counter: 0 },
            ),
            final(self).promises() == old(self).promises(),
            final(self).accepted() == old(self).accepted(),
            final(self).leader() == old(self).leader(),
            final(self).num_followers() == old(self).num_followers(),
            final(self).quorum_spec() == old(self).quorum_spec(),
            final(self).max_promise() == old(self).max_promise(),
            final(self).max_sync() == old(self).max_sync(),
            final(self).max_hash() == old(self).max_hash(),
            final(self).latest_accepts() == old(self).latest_accepts(),
            final(self).accepted_map() == old(self).accepted_map(),
            final(self).unsynced_logs() == old(self).unsynced_logs(),
            final(self).recovered_ids() == old(self).recovered_ids(),
            final(self).pending_meta() == old(self).pending_meta(),
    {
        let idx = Self::pid_to_idx(pid);
        let cur = self.follower_seq_nums[idx];
        self.follower_seq_nums.set(idx, SequenceNumber { session: cur.session + 1, counter: 0 });
    }

    /// Advances `pid`'s sequence number within its session and returns it.
    pub fn next_seq_num(&mut self, pid: NodeId) -> (r: SequenceNumber)
        requires
            old(self).wf(),
            old(self).tracks(pid),
            old(self).seq_nums()[idx_of(pid)].counter < u64::MAX,
        ensures
            final(self).wf(),
            r == (SequenceNumber {
                session: old(self).seq_nums()[idx_of(pid)].session,
                counter: (old(self).seq_nums()[idx_of(pid)].counter + 1) as u64,
            }),
            final(self).seq_nums() == old(self).seq_nums().update(idx_of(pid), r),
            final(self).promises() == old(self).promises(),
            final(self).accepted() == old(self).accepted(),
            final(self).leader() == old(self).leader(),
            final(self).num_followers() == old(self).num_followers(),
            final(self).quorum_spec() == old(self).quorum_spec(),
            final(self).max_promise() == old(self).max_promise(),
            final(self).max_sync() == old(self).max_sync(),
            final(self).max_hash() == old(self).max_hash(),
            final(self).latest_accepts() == old(self).latest_accepts(),
            final(self).accepted_map() == old(self).accepted_map(),
            final(self).unsynced_logs() == old(self).unsynced_logs(),
            final(self).recovered_ids() == old(self).recovered_ids(),
            final(self).pending_meta() == old(self).pending_meta(),
    {
        let idx = Self::pid_to_idx(pid);
        let cur = self.follower_seq_nums[idx];
        let next = SequenceNumber { session: cur.session, counter: cur.counter + 1 };
        self.follower_seq_nums.set(idx, next);
        next
    }

    /// The current sequence number of `pid`.
    pub fn get_seq_num(&self, pid: NodeId) -> (r: SequenceNumber)
        requires
            self.wf(),
            self.tracks(pid),
        ensures
            r == self.seq_nums()[idx_of(pid)],
    {
        self.follower_seq_nums[Self::pid_to_idx(pid)]
    }

    /// Marks `pid` as not promised.
    pub fn reset_promise(&mut self, pid: NodeId)
        requires
            old(self).wf(),
            old(self).tracks(pid),
        ensures
            final(self).wf(),
            final(self).promises() == old(self).promises().update(idx_of(pid), PromiseState::NotPromised),
            final(self).seq_nums() == old(self).seq_nums(),
            final(self).accepted() == old(self).accepted(),
            final(self).leader() == old(self).leader(),
            final(self).num_followers() == old(self).num_followers(),
            final(self).quorum_spec() == old(self).quorum_spec(),
            final(self).max_promise() == old(self).max_promise(),
            final(self).max_sync() == old(self).max_sync(),
            final(self).max_hash() == old(self).max_hash(),
            final(self).latest_accepts() == old(self).latest_accepts(),
            final(self).accepted_map() == old(self).accepted_map(),
            final(self).unsynced_logs() == old(self).unsynced_logs(),
            final(self).recovered_ids() == old(self).recovered_ids(),
            final(self).pending_meta() == old(self).pending_meta(),
    {
        self.promises_meta.set(Self::pid_to_idx(pid), PromiseState::NotPromised);
    }

    /// Node `pid` seen with ballot greater than my ballot
    pub fn lost_promise(&mut self, pid: NodeId)
        requires
            old(self).wf(),
            old(self).tracks(pid),
        ensures
            final(self).wf(),
            final(self).promises() == old(self).promises().update(idx_of(pid), PromiseState::PromisedHigher),
            final(self).seq_nums() == old(self).seq_nums(),
            final(self).accepted() == old(self).accepted(),
            final(self).leader() == old(self).leader(),
            final(self).num_followers() == old(self).num_followers(),
            final(self).quorum_spec() == old(self).quorum_spec(),
            final(self).max_promise() == old(self).max_promise(),
            final(self).max_sync() == old(self).max_sync(),
            final(self).max_hash() == old(self).max_hash(),
            final(self).latest_accepts() == old(self).latest_accepts(),
            final(self).accepted_map() == old(self).accepted_map(),
            final(self).unsynced_logs() == old(self).unsynced_logs(),
            final(self).recovered_ids() == old(self).recovered_ids(),
            final(self).pending_meta() == old(self).pending_meta(),
    {
        self.promises_meta.set(Self::pid_to_idx(pid), PromiseState::PromisedHigher);
    }

    /// Takes the log update of the most up-to-date promise, leaving none.
    pub fn take_max_promise_sync(&mut self) -> (r: Option<LogSync<T>>)
        requires
            old(self).wf(),
        ensures
            final(self).wf(),
            r == old(self).max_sync(),
            final(self).max_sync() is None,
            final(self).max_state() == max_promise_step(old(self).max_state(), MaxPromiseEvent::<T>::SyncTaken),
            final(self).max_promise() == old(self).max_promise(),
            final(self).promises() == old(self).promises(),
            final(self).leader() == old(self).leader(),
            final(self).num_followers() == old(self).num_followers(),
            final(self).quorum_spec() == old(self).quorum_spec(),
            final(self).accepted() == old(self).accepted(),
            final(self).seq_nums() == old(self).seq_nums(),
            final(self).max_hash() == old(self).max_hash(),
            final(self).latest_accepts() == old(self).latest_accepts(),
            final(self).accepted_map() == old(self).accepted_map(),
            final(self).unsynced_logs() == old(self).unsynced_logs(),
            final(self).recovered_ids() == old(self).recovered_ids(),
            final(self).pending_meta() == old(self).pending_meta(),
    {
        self.max_promise_sync.take()
    }

    /// The most up-to-date promise received.
    pub fn get_max_promise_meta(&self) -> (r: &PromiseMetaData)
        ensures
            *r == self.max_promise(),
    {
        &self.max_promise_meta
    }

    /// The log prefix hash of the most up-to-date promise.
    pub fn get_max_promise_accepted_hash(&self) -> (r: &DOMHash)
        ensures
            *r == self.max_hash(),
    {
        &self.max_promise_accepted_hash
    }

    /// The promise of `pid`, which must have promised.
    pub fn get_promise_meta(&self, pid: NodeId) -> (r: &PromiseMetaData)
        requires
            self.wf(),
            self.tracks(pid),
            self.promises()[idx_of(pid)] is Promised,
        ensures
            self.promises()[idx_of(pid)] == PromiseState::Promised(*r),
    {
        match &self.promises_meta[Self::pid_to_idx(pid)] {
            PromiseState::Promised(metadata) => metadata,
            _ => {
                proof {
                    assert(false);
                }
                &self.max_promise_meta
            },
        }
    }

    /// Forgets the latest accept sent to every follower.
    pub fn reset_latest_accept_meta(&mut self)
        requires
            old(self).wf(),
        ensures
            final(self).wf(),
            final(self).latest_accepts() == Seq::new(old(self).num_followers() as nat, |i: int| None::<(Ballot, usize)>),
            final(self).promises() == old(self).promises(),
            final(self).seq_nums() == old(self).seq_nums(),
            final(self).accepted() == old(self).accepted(),
            final(self).leader() == old(self).leader(),
            final(self).num_followers() == old(self).num_followers(),
            final(self).quorum_spec() == old(self).quorum_spec(),
            final(self).max_promise() == old(self).max_promise(),
            final(self).max_sync() == old(self).max_sync(),
            final(self).max_hash() == old(self).max_hash(),
            final(self).accepted_map() == old(self).accepted_map(),
            final(self).unsynced_logs() == old(self).unsynced_logs(),
            final(self).recovered_ids() == old(self).recovered_ids(),
            final(self).pending_meta() == old(self).pending_meta(),
    {
        let mut v: Vec<Option<(Ballot, usize)>> = Vec::new();
        let mut i: usize = 0;
        while i < self.max_pid
            invariant
                i <= self.max_pid,
                v@ == Seq::new(i as nat, |j: int| None::<(Ballot, usize)>),
            decreases self.max_pid - i,
        {
            v.push(None);
            i = i + 1;
            assert(v@ =~= Seq::new(i as nat, |j: int| None::<(Ballot, usize)>));
        }
        self.latest_accept_meta = v;
    }

    /// Records the latest accept sent to `pid`: at index `idx` in the
    /// leader's round, or none.
    pub fn set_latest_accept_meta(&mut self, pid: NodeId, idx: Option<usize>)
        requires
            old(self).wf(),
            old(self).tracks(pid),
        ensures
            final(self).wf(),
            final(self).latest_accepts() == old(self).latest_accepts().update(
                idx_of(pid),
                match idx {
                    Some(x) => Some((old(self).leader(), x)),
                    None => None,
                },
            ),
            final(self).promises() == old(self).promises(),
            final(self).accepted() == old(self).accepted(),
            final(self).leader() == old(self).leader(),
            final(self).num_followers() == old(self).num_followers(),
            final(self).quorum_spec() == old(self).quorum_spec(),
            final(self).seq_nums() == old(self).seq_nums(),
            final(self).max_promise() == old(self).max_promise(),
            final(self).max_sync() == old(self).max_sync(),
            final(self).max_hash() == old(self).max_hash(),
            final(self).accepted_map() == old(self).accepted_map(),
            final(self).unsynced_logs() == old(self).unsynced_logs(),
            final(self).recovered_ids() == old(self).recovered_ids(),
            final(self).pending_meta() == old(self).pending_meta(),
    {
        let meta = match idx {
            Some(x) => Some((self.n_leader, x)),
            None => None,
        };
        self.latest_accept_meta.set(Self::pid_to_idx(pid), meta);
    }

    /// Records the accepted index of `pid`.
    pub fn set_accepted_idx(&mut self, pid: NodeId, idx: usize)
        requires
            old(self).wf(),
            old(self).tracks(pid),
        ensures
            final(self).wf(),
            final(self).accepted() == old(self).accepted().update(idx_of(pid), idx),
            final(self).promises() == old(self).promises(),
            final(self).seq_nums() == old(self).seq_nums(),
            final(self).leader() == old(self).leader(),
            final(self).num_followers() == old(self).num_followers(),
            final(self).quorum_spec() == old(self).quorum_spec(),
            final(self).max_promise() == old(self).max_promise(),
            final(self).max_sync() == old(self).max_sync(),
            final(self).max_hash() == old(self).max_hash(),
            final(self).latest_accepts() == old(self).latest_accepts(),
            final(self).accepted_map() == old(self).accepted_map(),
            final(self).unsynced_logs() == old(self).unsynced_logs(),
            final(self).recovered_ids() == old(self).recovered_ids(),
            final(self).pending_meta() == old(self).pending_meta(),
    {
        self.accepted_indexes.set(Self::pid_to_idx(pid), idx);
    }

    /// The latest accept sent to `pid`.
    pub fn get_latest_accept_meta(&self, pid: NodeId) -> (r: Option<(Ballot, usize)>)
        requires
            self.wf(),
            self.tracks(pid),
        ensures
            r == self.latest_accepts()[idx_of(pid)],
    {
        self.latest_accept_meta[Self::pid_to_idx(pid)]
    }

    /// The decided index that `pid` promised with, if it promised.
    pub fn get_decided_idx(&self, pid: NodeId) -> (r: Option<usize>)
        requires
            self.wf(),
            self.tracks(pid),
        ensures
            r == (match self.promises()[idx_of(pid)] {
                PromiseState::Promised(m) => Some(m.decided_idx),
                _ => None,
            }),
    {
        match &self.promises_meta[Self::pid_to_idx(pid)] {
            PromiseState::Promised(metadata) => Some(metadata.decided_idx),
            _ => None,
        }
    }

    /// The accepted index of `pid`.
    pub fn get_accepted_idx(&self, pid: NodeId) -> (r: usize)
        requires
            self.wf(),
            self.tracks(pid),
        ensures
            r == self.accepted()[idx_of(pid)],
    {
        self.accepted_indexes[Self::pid_to_idx(pid)]
    }

    /// Records the promise of `from`. Where `check_max_prom` is set and the
    /// promise is more up to date than the most up-to-date one so far, it
    /// becomes that one, with its log update and prefix hash. The follower's
    /// unsynced log is replaced by the one the promise carries, if any.
    /// Returns whether the followers that promised now form a prepare quorum.
    pub fn set_promise(&mut self, prom: Promise<T>, from: NodeId, check_max_prom: bool) -> (r: bool)
        requires
            old(self).wf(),
            old(self).tracks(from),
        ensures
            final(self).wf(),
            ({
                let meta = PromiseMetaData {
                    n_accepted: prom.n_accepted,
                    accepted_idx: prom.accepted_idx,
                    decided_idx: prom.decided_idx,
                    pid: from,
                };
                let better = check_max_prom && promise_meta_gt(meta, old(self).max_promise());
                &&& final(self).promises() == old(self).promises().update(idx_of(from), PromiseState::Promised(meta))
                &&& better ==> {
                    &&& final(self).max_promise() == meta
                    &&& final(self).max_sync() == prom.log_sync
                    &&& final(self).max_hash() == prom.log_prefix_hash
                }
                &&& !better ==> {
                    &&& final(self).max_promise() == old(self).max_promise()
                    &&& final(self).max_sync() == old(self).max_sync()
                    &&& final(self).max_hash() == old(self).max_hash()
                }
            }),
            final(self).max_state() == max_promise_step(old(self).max_state(), MaxPromiseEvent::Promised(prom, from, check_max_prom)),
            final(self).unsynced_logs() == (match prom.log_unsync {
                Some(u) => old(self).unsynced_logs().update(idx_of(from), u@),
                None => old(self).unsynced_logs(),
            }),
            r == (count_promised(final(self).promises(), final(self).promises().len() as int)
                >= final(self).quorum_spec().prepare_size()),
            r == (final(self).promises().filter(has_promised()).len() >= final(self).quorum_spec().prepare_size()),
            final(self).leader() == old(self).leader(),
            final(self).num_followers() == old(self).num_followers(),
            final(self).quorum_spec() == old(self).quorum_spec(),
            final(self).seq_nums() == old(self).seq_nums(),
            final(self).accepted() == old(self).accepted(),
            final(self).latest_accepts() == old(self).latest_accepts(),
            final(self).accepted_map() == old(self).accepted_map(),
            final(self).recovered_ids() == old(self).recovered_ids(),
            final(self).pending_meta() == old(self).pending_meta(),
    {
        let promise_meta = PromiseMetaData {
            n_accepted: prom.n_accepted,
            accepted_idx: prom.accepted_idx,
            decided_idx: prom.decided_idx,
            pid: from,
        };
        if check_max_prom && promise_meta > self.max_promise_meta {
            self.max_promise_meta = promise_meta;
            self.max_promise_sync = prom.log_sync;
            self.max_promise_accepted_hash = prom.log_prefix_hash;
        }
        self.promises_meta.set(Self::pid_to_idx(from), PromiseState::Promised(promise_meta));
        if let Some(unsynced_log) = prom.log_unsync {
            self.set_unsynced_log(from, unsynced_log);
        }
        let num_promised = self.num_promised();
        self.quorum.is_prepare_quorum(num_promised)
    }

    /// Replaces the unsynced log of `pid`; a `pid` beyond the tracked
    /// followers is ignored.
    pub fn set_unsynced_log(&mut self, pid: NodeId, unsynced_log: HashMap<usize, UnsyncedLogEntry<T>>)
        requires
            old(self).wf(),
            1 <= pid,
        ensures
            final(self).wf(),
            idx_of(pid) < old(self).unsynced_logs().len() ==> final(self).unsynced_logs()
                == old(self).unsynced_logs().update(idx_of(pid), unsynced_log@),
            idx_of(pid) >= old(self).unsynced_logs().len() ==> final(self).unsynced_logs() == old(self).unsynced_logs(),
            final(self).leader() == old(self).leader(),
            final(self).num_followers() == old(self).num_followers(),
            final(self).quorum_spec() == old(self).quorum_spec(),
            final(self).promises() == old(self).promises(),
            final(self).max_promise() == old(self).max_promise(),
            final(self).max_sync() == old(self).max_sync(),
            final(self).max_hash() == old(self).max_hash(),
            final(self).seq_nums() == old(self).seq_nums(),
            final(self).accepted() == old(self).accepted(),
            final(self).latest_accepts() == old(self).latest_accepts(),
            final(self).accepted_map() == old(self).accepted_map(),
            final(self).recovered_ids() == old(self).recovered_ids(),
            final(self).pending_meta() == old(self).pending_meta(),
    {
        if pid - 1 < self.unsynced_log_store.len() as u64 {
            let id = Self::pid_to_idx(pid);
            let ghost before = self.unsynced_log_store@;
            self.unsynced_log_store.set(id, unsynced_log);
            proof {
                assert(self.unsynced_logs() =~= old(self).unsynced_logs().update(idx_of(pid), unsynced_log@));
            }
        }
    }

    /// The unsynced logs of all followers.
    pub fn get_unsynced_log_store(&self) -> (r: &Vec<HashMap<usize, UnsyncedLogEntry<T>>>)
        ensures
            r@.map_values(|m: HashMap<usize, UnsyncedLogEntry<T>>| m@) == self.unsynced_logs(),
    {
        &self.unsynced_log_store
    }

    /// The largest decided index among the followers that promised, or 0.
    pub fn get_max_decided_idx(&self) -> (r: usize)
        requires
            self.wf(),
        ensures
            r == max_decided(self.promises(), self.promises().len() as int),
    {
        let mut best: usize = 0;
        let mut i: usize = 0;
        while i < self.promises_meta.len()
            invariant
                i <= self.promises_meta@.len(),
                best == max_decided(self.promises_meta@, i as int),
            decreases self.promises_meta@.len() - i,
        {
            if let PromiseState::Promised(m) = &self.promises_meta[i] {
                if m.decided_idx > best {
                    best = m.decided_idx;
                }
            }
            i = i + 1;
        }
        best
    }

    /// The smallest accepted index among the followers.
    pub fn get_min_all_accepted_idx(&self) -> (r: &usize)
        requires
            self.wf(),
            self.accepted().len() > 0,
        ensures
            self.accepted().contains(*r),
            forall|i: int| 0 <= i < self.accepted().len() ==> *r <= #[trigger] self.accepted()[i],
    {
        let mut best: usize = 0;
        let mut i: usize = 1;
        while i < self.accepted_indexes.len()
            invariant
                1 <= i <= self.accepted_indexes@.len(),
                best < self.accepted_indexes@.len(),
                forall|j: int| 0 <= j < i ==> self.accepted_indexes@[best as int] <= #[trigger] self.accepted_indexes@[j],
            decreases self.accepted_indexes@.len() - i,
        {
            if self.accepted_indexes[i] < self.accepted_indexes[best] {
                best = i;
            }
            i = i + 1;
        }
        &self.accepted_indexes[best]
    }

    /// The process ids of the followers that promised, other than the leader, in order.
    pub fn get_promised_followers(&self) -> (r: Vec<NodeId>)
        requires
            self.wf(),
            self.leader().pid >= 1 || forall|i: int| 0 <= i < self.promises().len() ==> !(#[trigger] self.promises()[i] is Promised),
        ensures
            r@ == promised_followers(
                self.promises(),
                self.promises().len() as int,
                if self.leader().pid >= 1 { idx_of(self.leader().pid) } else { -1 },
            ),
    {
        let ghost leader_idx: int = if self.n_leader.pid >= 1 { idx_of(self.n_leader.pid) } else { -1 };
        let mut out: Vec<NodeId> = Vec::new();
        let mut i: usize = 0;
        while i < self.promises_meta.len()
            invariant
                i <= self.promises_meta@.len(),
                self.wf(),
                leader_idx == (if self.n_leader.pid >= 1 { idx_of(self.n_leader.pid) } else { -1 }),
                self.n_leader.pid >= 1 || forall|j: int| 0 <= j < self.promises().len() ==> !(#[trigger] self.promises()[j] is Promised),
                out@ == promised_followers(self.promises_meta@, i as int, leader_idx),
            decreases self.promises_meta@.len() - i,
        {
            if let PromiseState::Promised(_) = &self.promises_meta[i] {
                assert(self.promises()[i as int] is Promised);
                let leader_pid = self.n_leader.pid;
                if leader_pid - 1 != i as u64 {
                    out.push((i + 1) as NodeId);
                }
            }
            i = i + 1;
        }
        out
    }

    /// The peers, in order, that have not promised anything, neither to this
    /// leader nor to a higher one.
    pub fn get_preparable_peers(&self, peers: &[NodeId]) -> (r: Vec<NodeId>)
        requires
            self.wf(),
            forall|i: int| 0 <= i < peers@.len() ==> self.tracks(#[trigger] peers@[i]),
        ensures
            r@ == preparable(peers@, self.promises()),
    {
        let mut out: Vec<NodeId> = Vec::new();
        let mut i: usize = 0;
        while i < peers.len()
            invariant
                i <= peers@.len(),
                self.wf(),
                forall|j: int| 0 <= j < peers@.len() ==> self.tracks(#[trigger] peers@[j]),
                out@ == preparable(peers@.take(i as int), self.promises_meta@),
            decreases peers@.len() - i,
        {
            let pid = peers[i];
            let idx = Self::pid_to_idx(pid);
            proof {
                assert(peers@.take(i + 1).drop_last() =~= peers@.take(i as int));
                assert(peers@.take(i + 1).last() == pid);
            }
            if let PromiseState::NotPromised = &self.promises_meta[idx] {
                out.push(pid);
            }
            i = i + 1;
        }
        proof {
            assert(peers@.take(peers@.len() as int) =~= peers@);
        }
        out
    }

    /// The fast- and slow-path acceptors of log index `idx`, if any were recorded.
    pub fn get_accepted_map(&self, idx: usize) -> (r: Option<&AcceptedMapEntry>)
        ensures
            match r {
                Some(e) => self.accepted_map().contains_key(idx) && *e == self.accepted_map()[idx],
                None => !self.accepted_map().contains_key(idx),
            },
    {
        self.accepted_map.get(&idx)
    }

    /// Records `pid` as an acceptor of log index `idx`, on the fast path in
    /// the group of (prefix hash, entry hash), or on the slow path. The entry
    /// of `idx` is created with the given hashes where there is none. Returns
    /// the entry, which stays in the map with whatever the caller changes.
    pub fn set_accepted_map(
        &mut self,
        idx: usize,
        entry_hash: DOMHash,
        prefix_hash: DOMHash,
        pid: NodeId,
        is_fast_path: bool,
    ) -> (r: &mut AcceptedMapEntry)
        requires
            old(self).wf(),
        ensures
            records_acceptor(
                if old(self).accepted_map().contains_key(idx) {
                    Some(old(self).accepted_map()[idx])
                } else {
                    None
                },
                *r,
                entry_hash,
                prefix_hash,
                pid,
                is_fast_path,
            ),
            old(self).accepted_map().contains_key(idx) ==> {
                &&& r.entry_hash == old(self).accepted_map()[idx].entry_hash
                &&& r.prefix_hash == old(self).accepted_map()[idx].prefix_hash
            },
            !old(self).accepted_map().contains_key(idx) ==> {
                &&& r.entry_hash == entry_hash
                &&& r.prefix_hash == prefix_hash
            },
            !is_fast_path ==> r.slow@.contains(pid),
            is_fast_path ==> exists|i: int|
                0 <= i < r.fast@.len() && r.fast@[i].0 == (prefix_hash, entry_hash) && (#[trigger] r.fast@[i]).1@.contains(pid),
            final(self).wf(),
            final(self).accepted_map() == old(self).accepted_map().insert(idx, *final(r)),
            final(self).leader() == old(self).leader(),
            final(self).num_followers() == old(self).num_followers(),
            final(self).quorum_spec() == old(self).quorum_spec(),
            final(self).promises() == old(self).promises(),
            final(self).seq_nums() == old(self).seq_nums(),
            final(self).accepted() == old(self).accepted(),
            final(self).unsynced_logs() == old(self).unsynced_logs(),
    {
        let fresh = AcceptedMapEntry { entry_hash, prefix_hash, fast: Vec::new(), slow: HashSet::new() };
        let accepted_entry = self.accepted_map.entry(idx).or_insert(fresh);
        if is_fast_path {
            add_fast_acceptor(&mut accepted_entry.fast, (prefix_hash, entry_hash), pid);
        } else {
            accepted_entry.slow.insert(pid);
        }
        accepted_entry
    }

    /// Returns `(entry hash, entry id, entry, count)` for the unsynced entries
    /// at index `entry_idx` whose prefix hash is `prefix_hash`, grouped by
    /// entry hash as `matched_groups` defines; the entries are clones.
    pub fn get_matched_unsynced_entries(&self, entry_idx: usize, prefix_hash: DOMHash) -> (r: Vec<(DOMHash, EntryId, T, usize)>)
        requires
            self.wf(),
        ensures
            ({
                let g = matched_groups(self.unsynced_logs(), entry_idx, prefix_hash);
                &&& r@.len() == g.len()
                &&& forall|i: int| 0 <= i < g.len() ==> {
                    &&& (#[trigger] r@[i]).0 == g[i].0
                    &&& r@[i].1 == g[i].1
                    &&& r@[i].3 == g[i].3
                    &&& cloned(g[i].2, r@[i].2)
                }
            }),
    {
        let ghost logs = self.unsynced_logs();
        let mut out: Vec<(DOMHash, EntryId, T, usize)> = Vec::new();
        let n = self.unsynced_log_store.len();
        let mut i: usize = 0;
        while i < n
            invariant
                i <= n,
                n == self.unsynced_log_store@.len(),
                logs == self.unsynced_logs(),
                logs.len() == n,
                ({
                    let g = matched_groups(logs.take(i as int), entry_idx, prefix_hash);
                    &&& out@.len() == g.len()
                    &&& forall|k: int| 0 <= k < g.len() ==> {
                        &&& (#[trigger] out@[k]).0 == g[k].0
                        &&& out@[k].1 == g[k].1
                        &&& out@[k].3 == g[k].3
                        &&& cloned(g[k].2, out@[k].2)
                        &&& g[k].3 <= i
                    }
                    &&& forall|a: int, b: int| 0 <= a < b < g.len() ==> (#[trigger] g[a]).0 != (#[trigger] g[b]).0
                }),
            decreases n - i,
        {
            let ghost g = matched_groups(logs.take(i as int), entry_idx, prefix_hash);
            let ghost g_next = matched_groups(logs.take(i + 1), entry_idx, prefix_hash);
            let ghost log = self.unsynced_log_store@[i as int]@;
            proof {
                assert(logs.take(i + 1).drop_last() =~= logs.take(i as int));
                assert(logs.take(i + 1).last() == log);
            }
            match self.unsynced_log_store[i].get(&entry_idx) {
                Some(unsynced_entry) => {
                    if unsynced_entry.prefix_hash == prefix_hash {
                        let h = unsynced_entry.entry_hash;
                        let ghost e = *unsynced_entry;
                        assert(log.contains_key(entry_idx) && log[entry_idx] == e);
                        let mut j: usize = 0;
                        while j < out.len() && !(out[j].0 == h)
                            invariant
                                j <= out@.len(),
                                forall|k: int| 0 <= k < j ==> (#[trigger] out@[k]).0 != h,
                            decreases out@.len() - j,
                        {
                            j = j + 1;
                        }
                        proof {
                            lemma_find_group(g, h);
                        }
                        if j < out.len() {
                            proof {
                                let k = find_group(g, h);
                                assert(k >= 0);
                                assert(k == j) by {
                                    if k != j {
                                        if (k as int) < (j as int) {
                                            assert(out@[k].0 != h);
                                        } else {
                                            assert(g[j as int].0 != g[k].0);
                                        }
                                    }
                                }
                                assert(g_next == g.update(j as int, (h, e.entry_id, e.entry, g[j as int].3 + 1)));
                            }
                            let count = out[j].3;
                            let entry = unsynced_entry.entry.clone();
                            let ghost out0 = out@;
                            out.set(j, (h, unsynced_entry.entry_id, entry, count + 1));
                            proof {
                                assert forall|a: int, b: int| 0 <= a < b < g_next.len() implies (#[trigger] g_next[a]).0 != (#[trigger] g_next[b]).0 by {
                                    assert(g_next[a].0 == g[a].0);
                                    assert(g_next[b].0 == g[b].0);
                                }
                                assert forall|k: int| 0 <= k < g_next.len() implies {
                                    &&& (#[trigger] out@[k]).0 == g_next[k].0
                                    &&& out@[k].1 == g_next[k].1
                                    &&& out@[k].3 == g_next[k].3
                                    &&& cloned(g_next[k].2, out@[k].2)
                                    &&& g_next[k].3 <= i + 1
                                } by {
                                    if k != j {
                                        assert(out@[k] == out0[k]);
                                        assert(g_next[k] == g[k]);
                                    } else {
                                        assert(out@[k] == (h, e.entry_id, entry, (count + 1) as usize));
                                        assert(out0[k].3 == g[k].3);
                                    }
                                }
                            }
                        } else {
                            proof {
                                assert forall|k: int| 0 <= k < g.len() implies (#[trigger] g[k]).0 != h by {
                                    assert(out@[k].0 != h);
                                }
                                assert(find_group(g, h) == -1);
                                assert(g_next == g.push((h, e.entry_id, e.entry, 1)));
                            }
                            let entry = unsynced_entry.entry.clone();
                            let ghost out0 = out@;
                            out.push((h, unsynced_entry.entry_id, entry, 1));
                            proof {
                                assert forall|a: int, b: int| 0 <= a < b < g_next.len() implies (#[trigger] g_next[a]).0 != (#[trigger] g_next[b]).0 by {
                                    if b == g.len() {
                                        assert(out@[a].0 != h);
                                    }
                                }
                                assert forall|k: int| 0 <= k < g_next.len() implies {
                                    &&& (#[trigger] out@[k]).0 == g_next[k].0
                                    &&& out@[k].1 == g_next[k].1
                                    &&& out@[k].3 == g_next[k].3
                                    &&& cloned(g_next[k].2, out@[k].2)
                                    &&& g_next[k].3 <= i + 1
                                } by {
                                    if k < g.len() {
                                        assert(out@[k] == out0[k]);
                                        assert(g_next[k] == g[k]);
                                    } else {
                                        assert(out@[k] == (h, e.entry_id, entry, 1usize));
                                        assert(g_next[k] == (h, e.entry_id, e.entry, 1nat));
                                    }
                                }
                            }
                        }
                    } else {
                        proof {
                            assert(g_next == g);
                        }
                    }
                },
                None => {
                    proof {
                        assert(!log.contains_key(entry_idx));
                        assert(g_next == g);
                    }
                },
            }
            i = i + 1;
        }
        proof {
            assert(logs.take(n as int) =~= logs);
        }
        out
    }

    /// Forgets the acceptors of every log index at or before `decided_idx`.
    pub fn prune_accepted_map(&mut self, decided_idx: usize)
        requires
            old(self).wf(),
        ensures
            final(self).wf(),
            final(self).accepted_map() == Map::new(
                |k: usize| old(self).accepted_map().contains_key(k) && k > decided_idx,
                |k: usize| old(self).accepted_map()[k],
            ),
            final(self).leader() == old(self).leader(),
            final(self).num_followers() == old(self).num_followers(),
            final(self).quorum_spec() == old(self).quorum_spec(),
            final(self).promises() == old(self).promises(),
            final(self).seq_nums() == old(self).seq_nums(),
            final(self).accepted() == old(self).accepted(),
            final(self).unsynced_logs() == old(self).unsynced_logs(),
            final(self).max_promise() == old(self).max_promise(),
            final(self).max_sync() == old(self).max_sync(),
            final(self).max_hash() == old(self).max_hash(),
            final(self).latest_accepts() == old(self).latest_accepts(),
            final(self).recovered_ids() == old(self).recovered_ids(),
            final(self).pending_meta() == old(self).pending_meta(),
    {
        let ghost m0 = self.accepted_map@;
        let ghost keys: Seq<usize> = vstd::std_specs::hash::spec_keys_iter(&self.accepted_map).remaining().unref();
        proof {
            vstd::std_specs::hash::axiom_spec_keys_iter(&self.accepted_map);
        }
        let mut to_remove: Vec<usize> = Vec::new();
        let ghost mut n: int = 0;
        for k in it: self.accepted_map.keys()
            invariant
                keys == it.seq().unref(),
                n == it.index(),
                keys.to_set() == m0.dom(),
                forall|j: int| 0 <= j < to_remove@.len() ==> #[trigger] to_remove@[j] <= decided_idx,
                forall|j: int| 0 <= j < n && keys[j] <= decided_idx ==> to_remove@.contains(#[trigger] keys[j]),
        {
            let ghost before = to_remove@;
            proof {
                assert(keys[n] == *k);
            }
            if *k <= decided_idx {
                to_remove.push(*k);
                proof {
                    assert forall|j: int| 0 <= j < n + 1 && keys[j] <= decided_idx implies to_remove@.contains(#[trigger] keys[j]) by {
                        if j == n {
                            assert(to_remove@[before.len() as int] == keys[j]);
                        } else {
                            assert(before.contains(keys[j]));
                            let w = choose|w: int| 0 <= w < before.len() && before[w] == keys[j];
                            assert(to_remove@[w] == keys[j]);
                        }
                    }
                }
            }
            proof {
                n = n + 1;
            }
        }
        assert(n == keys.len());
        let mut i: usize = 0;
        while i < to_remove.len()
            invariant
                i <= to_remove@.len(),
                forall|j: int| 0 <= j < to_remove@.len() ==> #[trigger] to_remove@[j] <= decided_idx,
                self.accepted_map@ == Map::new(
                    |k: usize| m0.contains_key(k) && !to_remove@.take(i as int).contains(k),
                    |k: usize| m0[k],
                ),
                self.promises_meta == old(self).promises_meta,
                self.follower_seq_nums == old(self).follower_seq_nums,
                self.accepted_indexes == old(self).accepted_indexes,
                self.latest_accept_meta == old(self).latest_accept_meta,
                self.unsynced_log_store == old(self).unsynced_log_store,
                self.recovered_remote_entry_ids == old(self).recovered_remote_entry_ids,
                self.max_pid == old(self).max_pid,
                self.n_leader == old(self).n_leader,
                self.quorum == old(self).quorum,
                self.max_promise_meta == old(self).max_promise_meta,
                self.max_promise_sync == old(self).max_promise_sync,
                self.max_promise_accepted_hash == old(self).max_promise_accepted_hash,
                self.pending_accept_meta == old(self).pending_accept_meta,
                self.wf(),
            decreases to_remove@.len() - i,
        {
            let k = to_remove[i];
            self.accepted_map.remove(&k);
            i = i + 1;
            proof {
                broadcast use vstd::seq_lib::group_seq_properties;
                assert(to_remove@.take(i as int) =~= to_remove@.take(i - 1).push(k));
                assert forall|x: usize| #[trigger] to_remove@.take(i as int).contains(x) <==> (to_remove@.take(i - 1).contains(x) || x == k) by {
                    if to_remove@.take(i as int).contains(x) && x != k {
                        let w = choose|w: int| 0 <= w < i && #[trigger] to_remove@.take(i as int)[w] == x;
                        assert(to_remove@.take(i - 1)[w] == x);
                    }
                    if to_remove@.take(i - 1).contains(x) {
                        let w = choose|w: int| 0 <= w < i - 1 && #[trigger] to_remove@.take(i - 1)[w] == x;
                        assert(to_remove@.take(i as int)[w] == x);
                    }
                    if x == k {
                        assert(to_remove@.take(i as int)[i - 1] == x);
                    }
                }
                assert(self.accepted_map@ =~= Map::new(
                    |x: usize| m0.contains_key(x) && !to_remove@.take(i as int).contains(x),
                    |x: usize| m0[x],
                ));
            }
        }
        proof {
            assert(to_remove@.take(to_remove@.len() as int) =~= to_remove@);
            assert(self.accepted_map@ =~= Map::new(
                |k: usize| m0.contains_key(k) && k > decided_idx,
                |k: usize| m0[k],
            )) by {
                assert forall|k: usize| m0.contains_key(k) && k <= decided_idx implies to_remove@.contains(k) by {
                    assert(keys.to_set().contains(k));
                    let j = choose|j: int| 0 <= j < keys.len() && keys[j] == k;
                }
            }
        }
    }

    /// The number of followers that promised.
    fn num_promised(&self) -> (n: usize)
        requires
            self.wf(),
        ensures
            n == count_promised(self.promises(), self.promises().len() as int),
            n == self.promises().filter(has_promised()).len(),
    {
        let mut n: usize = 0;
        let mut i: usize = 0;
        while i < self.promises_meta.len()
            invariant
                i <= self.promises_meta@.len(),
                n == count_promised(self.promises_meta@, i as int),
                n <= i,
            decreases self.promises_meta@.len() - i,
        {
            if let PromiseState::Promised(_) = self.promises_meta[i] {
                n = n + 1;
            }
            i = i + 1;
        }
        proof {
            lemma_count_promised_counts_promised_states(self.promises(), self.promises().len() as int);
            assert(self.promises().take(self.promises().len() as int) =~= self.promises());
        }
        n
    }

    /// Whether index `idx` is chosen: an accept quorum of followers has an
    /// accepted index at or after it.
    pub fn is_chosen(&self, idx: usize) -> (r: bool)
        requires
            self.wf(),
        ensures
            r == (count_at_least(self.accepted(), self.accepted().len() as int, idx)
                >= self.quorum_spec().accept_size()),
    {
        let mut n: usize = 0;
        let mut i: usize = 0;
        while i < self.accepted_indexes.len()
            invariant
                i <= self.accepted_indexes@.len(),
                n == count_at_least(self.accepted_indexes@, i as int, idx),
                n <= i,
            decreases self.accepted_indexes@.len() - i,
        {
            if self.accepted_indexes[i] >= idx {
                n = n + 1;
            }
            i = i + 1;
        }
        self.quorum.is_accept_quorum(n)
    }

    /// Records the recovered entry id, once.
    pub fn insert_recovered_remote_entry_id(&mut self, entry_id: EntryId)
        requires
            old(self).wf(),
        ensures
            final(self).wf(),
            final(self).recovered_ids() == old(self).recovered_ids().insert(entry_id),
            final(self).promises() == old(self).promises(),
            final(self).accepted() == old(self).accepted(),
            final(self).leader() == old(self).leader(),
            final(self).num_followers() == old(self).num_followers(),
            final(self).quorum_spec() == old(self).quorum_spec(),
            final(self).seq_nums() == old(self).seq_nums(),
            final(self).max_promise() == old(self).max_promise(),
            final(self).max_sync() == old(self).max_sync(),
            final(self).max_hash() == old(self).max_hash(),
            final(self).latest_accepts() == old(self).latest_accepts(),
            final(self).accepted_map() == old(self).accepted_map(),
            final(self).unsynced_logs() == old(self).unsynced_logs(),
            final(self).pending_meta() == old(self).pending_meta(),
    {
        if !self.has_recovered_remote_entry_id(&entry_id) {
            let ghost before = self.recovered_remote_entry_ids@;
            self.recovered_remote_entry_ids.push(entry_id);
            proof {
                assert(self.recovered_remote_entry_ids@ == before.push(entry_id));
                before.lemma_push_to_set_commute(entry_id);
                assert forall|a: int, b: int|
                    0 <= a < b < self.recovered_remote_entry_ids@.len() implies self.recovered_remote_entry_ids@[a]
                    != self.recovered_remote_entry_ids@[b] by {
                    if b == before.len() {
                        assert(before.contains(before[a]));
                    }
                }
            }
        } else {
            proof {
                let ids = self.recovered_remote_entry_ids@;
                assert(ids.to_set().insert(entry_id) =~= ids.to_set());
            }
        }
    }

    /// Whether the entry id was recovered.
    pub fn has_recovered_remote_entry_id(&self, entry_id: &EntryId) -> (r: bool)
        ensures
            r == self.recovered_ids().contains(*entry_id),
    {
        let mut i: usize = 0;
        while i < self.recovered_remote_entry_ids.len()
            invariant
                i <= self.recovered_remote_entry_ids@.len(),
                forall|j: int| 0 <= j < i ==> self.recovered_remote_entry_ids@[j] != *entry_id,
            decreases self.recovered_remote_entry_ids@.len() - i,
        {
            if self.recovered_remote_entry_ids[i] == *entry_id {
                proof {
                    assert(self.recovered_remote_entry_ids@.to_set().contains(self.recovered_remote_entry_ids@[i as int]));
                }
                return true;
            }
            i = i + 1;
        }
        proof {
            assert(!self.recovered_remote_entry_ids@.contains(*entry_id));
        }
        false
    }

    /// Queues the DOM metadata of an accepted entry.
    pub fn push_pending_accept_meta(&mut self, meta: AcceptedEntryMeta)
        requires
            old(self).wf(),
        ensures
            final(self).wf(),
            final(self).pending_meta() == old(self).pending_meta().push(meta),
            final(self).promises() == old(self).promises(),
            final(self).accepted() == old(self).accepted(),
            final(self).leader() == old(self).leader(),
            final(self).num_followers() == old(self).num_followers(),
            final(self).quorum_spec() == old(self).quorum_spec(),
            final(self).seq_nums() == old(self).seq_nums(),
            final(self).max_promise() == old(self).max_promise(),
            final(self).max_sync() == old(self).max_sync(),
            final(self).max_hash() == old(self).max_hash(),
            final(self).latest_accepts() == old(self).latest_accepts(),
            final(self).accepted_map() == old(self).accepted_map(),
            final(self).unsynced_logs() == old(self).unsynced_logs(),
            final(self).recovered_ids() == old(self).recovered_ids(),
    {
        self.pending_accept_meta.push_back(meta);
    }

    /// Takes the `count` oldest queued metadata, in the order they were queued.
    pub fn take_pending_accept_meta(&mut self, count: usize) -> (r: Vec<AcceptedEntryMeta>)
        requires
            old(self).wf(),
            old(self).pending_meta().len() >= count,
        ensures
            final(self).wf(),
            r@ == old(self).pending_meta().take(count as int),
            final(self).pending_meta() == old(self).pending_meta().skip(count as int),
            final(self).promises() == old(self).promises(),
            final(self).accepted() == old(self).accepted(),
            final(self).leader() == old(self).leader(),
            final(self).num_followers() == old(self).num_followers(),
            final(self).quorum_spec() == old(self).quorum_spec(),
            final(self).seq_nums() == old(self).seq_nums(),
            final(self).max_promise() == old(self).max_promise(),
            final(self).max_sync() == old(self).max_sync(),
            final(self).max_hash() == old(self).max_hash(),
            final(self).latest_accepts() == old(self).latest_accepts(),
            final(self).accepted_map() == old(self).accepted_map(),
            final(self).unsynced_logs() == old(self).unsynced_logs(),
            final(self).recovered_ids() == old(self).recovered_ids(),
    {
        let ghost q0 = self.pending_accept_meta@;
        let mut out: Vec<AcceptedEntryMeta> = Vec::new();
        let mut i: usize = 0;
        while i < count
            invariant
                i <= count,
                count <= q0.len(),
                out@ == q0.take(i as int),
                self.pending_accept_meta@ == q0.skip(i as int),
                self.promises_meta == old(self).promises_meta,
                self.follower_seq_nums == old(self).follower_seq_nums,
                self.accepted_indexes == old(self).accepted_indexes,
                self.latest_accept_meta == old(self).latest_accept_meta,
                self.unsynced_log_store == old(self).unsynced_log_store,
                self.recovered_remote_entry_ids == old(self).recovered_remote_entry_ids,
                self.max_pid == old(self).max_pid,
                self.n_leader == old(self).n_leader,
                self.quorum == old(self).quorum,
                self.max_promise_meta == old(self).max_promise_meta,
                self.max_promise_sync == old(self).max_promise_sync,
                self.max_promise_accepted_hash == old(self).max_promise_accepted_hash,
                self.accepted_map == old(self).accepted_map,
                self.wf(),
            decreases count - i,
        {
            let m = self.pending_accept_meta.pop_front();
            match m {
                Some(m) => {
                    out.push(m);
                },
                None => {
                    proof {
                        assert(false);
                    }
                },
            }
            i = i + 1;
            proof {
                assert(out@ =~= q0.take(i as int));
                assert(self.pending_accept_meta@ =~= q0.skip(i as int));
            }
        }
        out
    }
}

} // verus!
