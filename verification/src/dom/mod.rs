//! The deadline-ordered multicast (DOM) abstraction: proposals carry a
//! deadline, wait in the early buffer until their deadline has passed, and
//! are released in the order of their deadlines.

pub mod buffer;
pub mod owd_estimator;

use vstd::prelude::*;
use std::collections::HashMap;
use crate::arith::max_int;
use crate::messages::sequence_paxos::{ClockTimestamp, DomAck, DomPropose, EntryId};
use crate::storage::Entry;
use crate::util::{NodeId, PhysicalClock};
use buffer::{key_of, key_le, key_lt, EarlyBuffer, EarlyBufferInsertError};
use owd_estimator::{max_estimate, OutgoingOwdTracker, OwdEstimator, OwdEstimatorConfig, OwdSample};

verus! {

/// One microsecond, in the nanoseconds of the clock.
pub const ONE_MICRO_SECOND: i64 = 1000;

/// The role of a replica in the current round.
#[derive(Copy, Clone, Debug, PartialEq, Eq, Structural)]
pub enum Role {
    /// The replica follows a leader.
    Follower,
    /// The replica leads the round.
    Leader,
}

/// Snapshot of DOM one-way delay estimates used for benchmark output.
pub struct DomOwdSnapshot {
    /// Current incoming OWD estimates keyed by sender node id.
    pub incoming_estimates: HashMap<NodeId, i64>,
    /// Current outgoing OWD estimates keyed by receiver node id.
    pub outgoing_estimates: HashMap<NodeId, i64>,
    /// Maximum outgoing OWD estimate across all peers.
    pub max_outgoing_estimate: i64,
}

/// The deadline that the leader gives a late proposal: at or after the end
/// of the uncertainty interval of `now`, and one microsecond after the last
/// released deadline, where there is one.
pub open spec fn extended_deadline(now: ClockTimestamp, last_deadline: Option<i64>) -> int {
    match last_deadline {
        Some(last) => max_int(now.0 + now.1, last + ONE_MICRO_SECOND),
        None => now.0 + now.1,
    }
}

/// The arithmetic of `extended_deadline` stays within `i64`.
pub open spec fn extension_fits(now: ClockTimestamp, last_deadline: Option<i64>) -> bool {
    &&& i64::MIN <= now.0 + now.1 <= i64::MAX
    &&& last_deadline matches Some(last) ==> last + ONE_MICRO_SECOND <= i64::MAX
}

/// The number of proposals at the front of `s` whose deadline is at or
/// before `now`, as `release_ready_at` releases them.
pub open spec fn is_release_prefix<T: Entry>(s: Seq<DomPropose<T>>, now: int, k: int) -> bool {
    &&& 0 <= k <= s.len()
    &&& forall|i: int| 0 <= i < k ==> (#[trigger] s[i]).deadline <= now
    &&& k < s.len() ==> s[k].deadline > now
}

/// `after` is `before` with `p` inserted at some position.
pub open spec fn admits<T: Entry>(before: Seq<DomPropose<T>>, after: Seq<DomPropose<T>>, p: DomPropose<T>) -> bool {
    exists|i: int| 0 <= i <= before.len() && after == before.insert(i, p)
}

/// The proposal that enters the buffer: a late one with its extended deadline.
pub open spec fn admitted_proposal<T: Entry>(prop: DomPropose<T>, late: bool, now: ClockTimestamp, last_deadline: Option<i64>) -> DomPropose<T> {
    if late {
        DomPropose { deadline: extended_deadline(now, last_deadline) as i64, ..prop }
    } else {
        prop
    }
}

/// The delay sample of `prop` received at `received_time`: negative delays
/// and uncertainties count as zero.
pub open spec fn sample_of<T: Entry>(prop: DomPropose<T>, received_time: ClockTimestamp) -> OwdSample {
    OwdSample {
        measured_owd: max_int(received_time.0 - prop.sent_time.0, 0) as i64,
        sender_uncertainty: max_int(prop.sent_time.1 as int, 0) as i64,
        receiver_uncertainty: max_int(received_time.1 as int, 0) as i64,
    }
}

/// `after` is the estimator `before` with `sample` recorded for `sender`:
/// the sender's window moves on by the sample, its estimate is that of the
/// new window, and nothing else changes.
pub open spec fn records_sample(before: OwdEstimator, after: OwdEstimator, sender: NodeId, sample: OwdSample) -> bool {
    &&& after.config() == before.config()
    &&& after.window(sender) == owd_estimator::next_window(before.window(sender), sample, before.config().window_size)
    &&& forall|other: NodeId| other != sender ==> #[trigger] after.window(other) == before.window(other)
    &&& after.estimates() == before.estimates().insert(
        sender,
        owd_estimator::window_estimate(
            after.window(sender),
            before.config().strategy,
            before.config().uncertainty_beta,
            before.config().max_owd,
        ),
    )
}

/// `after` is the buffer `before` once `prop` has arrived for `role`, the
/// leader's clock reading `now`: a proposal in time is inserted; a late one
/// is inserted with its extended deadline by the leader where that fits in
/// `i64`, and dropped otherwise. The last released key stays.
pub open spec fn buffers<T: Entry>(before: EarlyBuffer<T>, after: EarlyBuffer<T>, prop: DomPropose<T>, role: Role, now: ClockTimestamp) -> bool {
    let late = buffer::is_late_key(before.last_released(), key_of(prop));
    let last = before.last_released_deadline_spec();
    &&& after.last_released() == before.last_released()
    &&& if !late {
        admits(before.pending(), after.pending(), prop)
    } else if role == Role::Leader && extension_fits(now, last) {
        admits(before.pending(), after.pending(), admitted_proposal(prop, true, now, last))
    } else {
        after.pending() == before.pending()
    }
}

/// The deadline-ordered multicast abstraction of one replica.
pub struct Dom<'a, T: Entry, C: PhysicalClock> {
    pid: NodeId,
    clock: &'a C,
    incoming_owd_estimates: OwdEstimator,
    outgoing_owd_estimates: OutgoingOwdTracker,
    early_buffer: EarlyBuffer<T>,
    readings: Ghost<Seq<ClockTimestamp>>,
}

impl<'a, T: Entry, C: PhysicalClock> Dom<'a, T, C> {
    /// The id of this replica.
    pub closed spec fn pid(&self) -> NodeId {
        self.pid
    }

    /// The estimates of the delays of messages that peers send to this replica.
    pub closed spec fn incoming(&self) -> OwdEstimator {
        self.incoming_owd_estimates
    }

    /// The delays that peers report for the messages that this replica sends.
    pub closed spec fn outgoing(&self) -> OutgoingOwdTracker {
        self.outgoing_owd_estimates
    }

    /// The proposals waiting for their deadline.
    pub closed spec fn buffer(&self) -> EarlyBuffer<T> {
        self.early_buffer
    }

    /// The clock readings that releasing and handling proposals have used,
    /// oldest first.
    pub closed spec fn readings(&self) -> Seq<ClockTimestamp> {
        self.readings@
    }

    /// The invariant of the abstraction: that of its estimator and of its
    /// buffer, and every delay that a peer reported is non-negative.
    pub open spec fn wf(&self) -> bool {
        &&& self.incoming().wf()
        &&& self.buffer().wf()
        &&& self.outgoing().estimates_nonnegative()
    }

    /// Creates a new instance of the DOM abstraction.
    pub fn new(config: OwdEstimatorConfig, clock: &'a C, pid: NodeId) -> (d: Self)
        requires
            config.is_valid(),
        ensures
            d.wf(),
            d.pid() == pid,
            d.incoming().config() == config,
            d.incoming().estimates() == Map::<NodeId, i64>::empty(),
            d.outgoing().estimates() == Map::<NodeId, i64>::empty(),
            d.outgoing().default_owd() == config.max_owd,
            d.buffer().pending() == Seq::<DomPropose<T>>::empty(),
            d.buffer().last_released() is None,
            d.readings() == Seq::<ClockTimestamp>::empty(),
    {
        let max_owd = config.max_owd();
        Self {
            pid,
            clock,
            incoming_owd_estimates: OwdEstimator::with_config(config),
            outgoing_owd_estimates: OutgoingOwdTracker::new(max_owd),
            early_buffer: EarlyBuffer::new(),
            readings: Ghost(Seq::empty()),
        }
    }

    /// The largest delay that peers reported for this replica's messages, or
    /// the default where none did.
    pub fn max_outgoing_owd(&self) -> (r: i64)
        ensures
            r == self.outgoing().max_owd_spec(),
            max_estimate(self.outgoing().estimates(), self.outgoing().default_owd(), r),
            (self.wf() && self.outgoing().estimates().dom().len() > 0) ==> r >= 0,
    {
        self.outgoing_owd_estimates.get_max_owd()
    }

    /// The deadline of a proposal sent at `time`: `time` plus the largest
    /// delay that a peer reported, or `None` where that exceeds `i64`.
    pub fn get_deadline(&self, time: i64) -> (r: Option<i64>)
        ensures
            (i64::MIN <= time + self.outgoing().max_owd_spec() <= i64::MAX) ==> r == Some(
                (time + self.outgoing().max_owd_spec()) as i64,
            ),
            !(i64::MIN <= time + self.outgoing().max_owd_spec() <= i64::MAX) ==> r is None,
    {
        let m = self.outgoing_owd_estimates.get_max_owd();
        time.checked_add(m)
    }

    /// Creates the DOM proposal of the entry, sent at `sent_time`, with the
    /// deadline `get_deadline` gives, or `None` where that exceeds `i64`.
    pub fn create_dom_propose_at(&self, entry: T, entry_id: EntryId, sent_time: ClockTimestamp) -> (r: Option<DomPropose<T>>)
        ensures
            (i64::MIN <= sent_time.0 + self.outgoing().max_owd_spec() <= i64::MAX) ==> r == Some(
                DomPropose {
                    entry_id,
                    sender: self.pid(),
                    sent_time,
                    deadline: (sent_time.0 + self.outgoing().max_owd_spec()) as i64,
                    entry,
                },
            ),
            !(i64::MIN <= sent_time.0 + self.outgoing().max_owd_spec() <= i64::MAX) ==> r is None,
    {
        match self.get_deadline(sent_time.0) {
            Some(deadline) => Some(DomPropose { entry_id, sender: self.pid, sent_time, deadline, entry }),
            None => None,
        }
    }

    /// Creates a new DOM proposal for the given entry, stamped with the
    /// current time of the clock; `None` where its deadline exceeds `i64`.
    pub fn create_dom_propose(&self, entry: T, entry_id: EntryId) -> (r: Option<DomPropose<T>>)
        ensures
            self.outgoing().max_owd_spec() == 0 ==> r is Some,
            r matches Some(p) ==> {
                &&& p.entry_id == entry_id
                &&& p.sender == self.pid()
                &&& p.entry == entry
                &&& p.deadline == p.sent_time.0 + self.outgoing().max_owd_spec()
            },
    {
        let sent_time: ClockTimestamp = self.clock.get_time_with_uncertainty();
        self.create_dom_propose_at(entry, entry_id, sent_time)
    }

    /// Releases every proposal whose deadline is at or before `now`, in the
    /// order of their keys. Released deadlines never exceed `now`, and the
    /// first proposal that stays has a deadline after `now`.
    pub fn release_ready_at(&mut self, now: i64) -> (r: Vec<DomPropose<T>>)
        requires
            old(self).wf(),
        ensures
            final(self).wf(),
            final(self).readings() == old(self).readings(),
            is_release_prefix(old(self).buffer().pending(), now as int, r@.len() as int),
            r@ == old(self).buffer().pending().take(r@.len() as int),
            final(self).buffer().pending() == old(self).buffer().pending().skip(r@.len() as int),
            r@.len() == 0 ==> final(self).buffer().last_released() == old(self).buffer().last_released(),
            r@.len() > 0 ==> final(self).buffer().last_released() == Some(key_of(r@.last())),
            final(self).pid() == old(self).pid(),
            final(self).incoming() == old(self).incoming(),
            final(self).outgoing() == old(self).outgoing(),
    {
        let mut proposals: Vec<DomPropose<T>> = Vec::new();
        let ghost s0 = self.early_buffer.pending();
        loop
            invariant
                self.early_buffer.wf(),
                self.incoming_owd_estimates == old(self).incoming_owd_estimates,
                self.outgoing_owd_estimates == old(self).outgoing_owd_estimates,
                self.pid == old(self).pid,
                self.readings == old(self).readings,
                s0 == old(self).early_buffer.pending(),
                self.incoming_owd_estimates.wf(),
                proposals@.len() <= s0.len(),
                proposals@ == s0.take(proposals@.len() as int),
                self.early_buffer.pending() == s0.skip(proposals@.len() as int),
                forall|i: int| 0 <= i < proposals@.len() ==> (#[trigger] proposals@[i]).deadline <= now,
                proposals@.len() == 0 ==> self.early_buffer.last_released() == old(self).early_buffer.last_released(),
                proposals@.len() > 0 ==> self.early_buffer.last_released() == Some(key_of(proposals@.last())),
            ensures
                self.early_buffer.wf(),
                self.incoming_owd_estimates == old(self).incoming_owd_estimates,
                self.outgoing_owd_estimates == old(self).outgoing_owd_estimates,
                self.pid == old(self).pid,
                self.readings == old(self).readings,
                proposals@.len() <= s0.len(),
                proposals@ == s0.take(proposals@.len() as int),
                self.early_buffer.pending() == s0.skip(proposals@.len() as int),
                is_release_prefix(s0, now as int, proposals@.len() as int),
                proposals@.len() == 0 ==> self.early_buffer.last_released() == old(self).early_buffer.last_released(),
                proposals@.len() > 0 ==> self.early_buffer.last_released() == Some(key_of(proposals@.last())),
            decreases self.early_buffer.pending().len(),
        {
            let ghost before = self.early_buffer.pending();
            match self.early_buffer.pop_ready(now) {
                Some(prop) => {
                    proposals.push(prop);
                    proof {
                        assert(proposals@ =~= s0.take(proposals@.len() as int));
                        assert(self.early_buffer.pending() =~= s0.skip(proposals@.len() as int));
                    }
                },
                None => {
                    proof {
                        let k = proposals@.len() as int;
                        if k < s0.len() {
                            assert(before[0] == s0[k]);
                        }
                        assert forall|i: int| 0 <= i < k implies (#[trigger] s0[i]).deadline <= now by {
                            assert(proposals@[i] == s0[i]);
                        }
                    }
                    break;
                },
            }
        }
        proposals
    }

    /// Returns all proposals in the early buffer with a deadline at or
    /// before the start of the current time's uncertainty interval, in the
    /// order of their keys. Whatever the clock reads, what is released is the
    /// front of the buffer up to such a start: everything where the start
    /// lies above `i64`, nothing where it lies below.
    pub fn release_ready(&mut self) -> (r: Vec<DomPropose<T>>)
        requires
            old(self).wf(),
        ensures
            final(self).wf(),
            exists|start: int| is_release_prefix(old(self).buffer().pending(), start, r@.len() as int),
            r@ == old(self).buffer().pending().take(r@.len() as int),
            final(self).buffer().pending() == old(self).buffer().pending().skip(r@.len() as int),
            r@.len() == 0 ==> final(self).buffer().last_released() == old(self).buffer().last_released(),
            r@.len() > 0 ==> final(self).buffer().last_released() == Some(key_of(r@.last())),
            final(self).pid() == old(self).pid(),
            final(self).incoming() == old(self).incoming(),
            final(self).outgoing() == old(self).outgoing(),
            final(self).readings().len() == old(self).readings().len() + 1,
            final(self).readings().take(old(self).readings().len() as int) == old(self).readings(),
            ({
                let now = final(self).readings().last();
                is_release_prefix(old(self).buffer().pending(), now.0 - now.1, r@.len() as int)
            }),
    {
        let now = self.clock.get_time_with_uncertainty();
        self.readings = Ghost(self.readings@.push(now));
        proof {
            assert(self.readings@.take(old(self).readings().len() as int) =~= old(self).readings());
        }
        match now.0.checked_sub(now.1) {
            Some(t) => self.release_ready_at(t),
            None => {
                if now.1 < 0 {
                    let r = self.release_ready_at(i64::MAX);
                    proof {
                        let start = now.0 - now.1;
                        let s = old(self).buffer().pending();
                        assert(is_release_prefix(s, start, r@.len() as int));
                    }
                    r
                } else {
                    let empty: Vec<DomPropose<T>> = Vec::new();
                    proof {
                        let start = now.0 - now.1;
                        let s = old(self).buffer().pending();
                        assert(is_release_prefix(s, start, 0));
                        assert(s.skip(0) =~= s);
                        assert(empty@ =~= s.take(0));
                    }
                    empty
                }
            },
        }
    }

    /// Whether the sample of a proposal received at `received_time` can be
    /// recorded within `i64`.
    pub open spec fn can_observe(&self, prop: DomPropose<T>, received_time: ClockTimestamp) -> bool {
        &&& OwdSample::new_fits(prop.sent_time.0, received_time.0, prop.sent_time.1, received_time.1)
        &&& self.incoming().update_fits(prop.sender, sample_of(prop, received_time))
    }

    /// Records the one-way delay sample of a proposal received at
    /// `received_time` and returns the ack with the sender's new estimate.
    pub fn observe_proposal(&mut self, prop: &DomPropose<T>, received_time: ClockTimestamp) -> (ack: DomAck)
        requires
            old(self).wf(),
            old(self).can_observe(*prop, received_time),
        ensures
            final(self).wf(),
            final(self).readings() == old(self).readings(),
            records_sample(old(self).incoming(), final(self).incoming(), prop.sender, sample_of(*prop, received_time)),
            ack == (DomAck { sender: old(self).pid(), estimated_owd: final(self).incoming().estimates()[prop.sender] }),
            final(self).pid() == old(self).pid(),
            final(self).outgoing() == old(self).outgoing(),
            final(self).buffer() == old(self).buffer(),
    {
        let owd_sample = OwdSample::new(prop.sent_time.0, received_time.0, prop.sent_time.1, received_time.1);
        self.incoming_owd_estimates.update(prop.sender, owd_sample);
        DomAck { sender: self.pid, estimated_owd: self.incoming_owd_estimates.estimate_for(prop.sender) }
    }

    /// The proposal with the deadline that the leader gives it when it came
    /// late, as of `now`.
    pub fn extend_deadline_at(&self, prop: DomPropose<T>, now: ClockTimestamp) -> (r: DomPropose<T>)
        requires
            extension_fits(now, self.buffer().last_released_deadline_spec()),
        ensures
            r == (DomPropose { deadline: extended_deadline(now, self.buffer().last_released_deadline_spec()) as i64, ..prop }),
    {
        let last_deadline = self.early_buffer.last_released_deadline();
        let now_with_uncertainty = now.0 + now.1;
        let new_deadline = match last_deadline {
            Some(last) => crate::arith::max_i64(now_with_uncertainty, last + ONE_MICRO_SECOND),
            None => now_with_uncertainty,
        };
        DomPropose {
            entry_id: prop.entry_id,
            sender: prop.sender,
            sent_time: prop.sent_time,
            deadline: new_deadline,
            entry: prop.entry,
        }
    }

    /// Puts a received proposal into the early buffer. A proposal in time is
    /// buffered. A late one is dropped by a follower; the leader gives it the
    /// deadline of `extend_deadline_at` as of `now` and buffers it, which is
    /// then never late, or drops it where that deadline would not fit in
    /// `i64`.
    pub fn admit_at(&mut self, prop: DomPropose<T>, role: Role, now: ClockTimestamp)
        requires
            old(self).wf(),
        ensures
            final(self).wf(),
            final(self).readings() == old(self).readings(),
            final(self).pid() == old(self).pid(),
            final(self).incoming() == old(self).incoming(),
            final(self).outgoing() == old(self).outgoing(),
            buffers(old(self).buffer(), final(self).buffer(), prop, role, now),
            ({
                let last = old(self).buffer().last_released_deadline_spec();
                (buffer::is_late_key(old(self).buffer().last_released(), key_of(prop)) && role == Role::Leader
                    && extension_fits(now, last)) ==> !buffer::is_late_key(
                    old(self).buffer().last_released(),
                    key_of(admitted_proposal(prop, true, now, last)),
                )
            }),
    {
        let ghost late = buffer::is_late_key(old(self).buffer().last_released(), key_of(prop));
        let ghost original = prop;
        match self.early_buffer.insert(prop) {
            Ok(_) => {
                assert(!late);
                let ghost i = choose|i: int|
                    {
                        &&& 0 <= i <= old(self).buffer().pending().len()
                        &&& self.early_buffer.pending() == old(self).buffer().pending().insert(i, original)
                        &&& forall|j: int|
                            0 <= j < i ==> key_le(
                                key_of(#[trigger] old(self).buffer().pending()[j]),
                                key_of(original),
                            )
                        &&& forall|j: int|
                            i <= j < old(self).buffer().pending().len() ==> key_lt(
                                key_of(original),
                                key_of(#[trigger] old(self).buffer().pending()[j]),
                            )
                    };
                assert(admits(old(self).buffer().pending(), self.early_buffer.pending(), original));
            },
            Err(EarlyBufferInsertError::Late(prop)) => {
                assert(late);
                assert(prop == original);
                if role == Role::Leader && self.extension_fits_now(now) {
                    let ghost l = old(self).buffer().last_released()->0;
                    let extended = self.extend_deadline_at(prop, now);
                    assert(extended == DomPropose { deadline: extended_deadline(now, old(self).buffer().last_released_deadline_spec()) as i64, ..original });
                    assert(extended.deadline > l.deadline);
                    assert(!buffer::is_late_key(self.early_buffer.last_released(), key_of(extended)));
                    let ghost mid = self.early_buffer.pending();
                    let r = self.early_buffer.insert(extended);
                    assert(r is Ok);
                    let ghost i = choose|i: int|
                        {
                            &&& 0 <= i <= mid.len()
                            &&& self.early_buffer.pending() == mid.insert(i, extended)
                            &&& forall|j: int| 0 <= j < i ==> key_le(key_of(#[trigger] mid[j]), key_of(extended))
                            &&& forall|j: int| i <= j < mid.len() ==> key_lt(key_of(extended), key_of(#[trigger] mid[j]))
                        };
                    assert(admits(old(self).buffer().pending(), self.early_buffer.pending(), extended));
                }
            },
        }
    }

    /// Handles a DOM proposal received at `received_time` for the given role,
    /// where a late proposal at the leader is extended as of `now`. Records
    /// the proposal's delay sample and returns an ack with the sender's new
    /// estimated one-way delay.
    pub fn handle_dom_propose_at(
        &mut self,
        prop: DomPropose<T>,
        role: Role,
        received_time: ClockTimestamp,
        now: ClockTimestamp,
    ) -> (ack: DomAck)
        requires
            old(self).wf(),
            old(self).can_observe(prop, received_time),
        ensures
            final(self).wf(),
            final(self).readings() == old(self).readings(),
            records_sample(old(self).incoming(), final(self).incoming(), prop.sender, sample_of(prop, received_time)),
            buffers(old(self).buffer(), final(self).buffer(), prop, role, now),
            ack == (DomAck { sender: old(self).pid(), estimated_owd: final(self).incoming().estimates()[prop.sender] }),
            final(self).pid() == old(self).pid(),
            final(self).outgoing() == old(self).outgoing(),
    {
        let ack = self.observe_proposal(&prop, received_time);
        self.admit_at(prop, role, now);
        ack
    }

    /// Handles a DOM proposal for the given role, reading the clock. Returns
    /// an ack with the estimated one-way delay of the proposal to be returned
    /// to the sender, or `None`, changing nothing, where the delay sample of
    /// the proposal does not fit in `i64`; where it fits for every reading of
    /// the clock, an ack is always returned. Otherwise it does what
    /// `handle_dom_propose_at` does with the reading taken on receipt and, for
    /// a late proposal at the leader, a second reading.
    pub fn handle_dom_propose(&mut self, prop: DomPropose<T>, role: Role) -> (ack: Option<DomAck>)
        requires
            old(self).wf(),
        ensures
            final(self).wf(),
            (forall|rt: ClockTimestamp| #[trigger] old(self).can_observe(prop, rt)) ==> ack is Some,
            ack is None ==> *final(self) == *old(self),
            ack matches Some(a) ==> exists|rt: ClockTimestamp, now: ClockTimestamp|
                #![trigger old(self).can_observe(prop, rt), buffers(old(self).buffer(), final(self).buffer(), prop, role, now)]
                {
                    &&& old(self).can_observe(prop, rt)
                    &&& records_sample(old(self).incoming(), final(self).incoming(), prop.sender, sample_of(prop, rt))
                    &&& buffers(old(self).buffer(), final(self).buffer(), prop, role, now)
                    &&& a == (DomAck { sender: old(self).pid(), estimated_owd: final(self).incoming().estimates()[prop.sender] })
                },
            ({
                let n0 = old(self).readings().len();
                let late = buffer::is_late_key(old(self).buffer().last_released(), key_of(prop));
                ack is Some ==> {
                    &&& final(self).readings().take(n0 as int) == old(self).readings()
                    &&& final(self).readings().len() == (if late && role == Role::Leader { n0 + 2 } else { n0 + 1 })
                    &&& old(self).can_observe(prop, final(self).readings()[n0 as int])
                    &&& records_sample(
                        old(self).incoming(),
                        final(self).incoming(),
                        prop.sender,
                        sample_of(prop, final(self).readings()[n0 as int]),
                    )
                    &&& buffers(old(self).buffer(), final(self).buffer(), prop, role, final(self).readings().last())
                    &&& (late && role == Role::Leader && extension_fits(
                        final(self).readings().last(),
                        old(self).buffer().last_released_deadline_spec(),
                    )) ==> exists|i: int| {
                        let now = final(self).readings().last();
                        &&& 0 <= i < final(self).buffer().pending().len()
                        &&& (#[trigger] final(self).buffer().pending()[i]).entry_id == prop.entry_id
                        &&& final(self).buffer().pending()[i].deadline >= now.0 + now.1
                        &&& old(self).buffer().last_released_deadline_spec() matches Some(l) ==> final(self).buffer().pending()[i].deadline > l
                    }
                }
            }),
            final(self).pid() == old(self).pid(),
            final(self).outgoing() == old(self).outgoing(),
    {
        let received_time = self.clock.get_time_with_uncertainty();
        proof {
            if forall|rt: ClockTimestamp| #[trigger] old(self).can_observe(prop, rt) {
                assert(old(self).can_observe(prop, received_time));
            }
        }
        let fits = OwdSample::fits(prop.sent_time.0, received_time.0, prop.sent_time.1, received_time.1);
        if !fits {
            return None;
        }
        let owd_sample = OwdSample::new(prop.sent_time.0, received_time.0, prop.sent_time.1, received_time.1);
        if !self.incoming_owd_estimates.can_update(prop.sender, &owd_sample) {
            return None;
        }
        assert(owd_sample == sample_of(prop, received_time));
        assert(old(self).can_observe(prop, received_time));
        self.readings = Ghost(self.readings@.push(received_time));
        let ack = self.observe_proposal(&prop, received_time);
        let now = if self.early_buffer.is_late(&prop) && role == Role::Leader {
            let now = self.clock.get_time_with_uncertainty();
            self.readings = Ghost(self.readings@.push(now));
            now
        } else {
            received_time
        };
        self.admit_at(prop, role, now);
        proof {
            let n0 = old(self).readings().len() as int;
            assert(self.readings@.take(n0) =~= old(self).readings());
            assert(self.readings@[n0] == received_time);
            assert(self.readings@.last() == now);
            assert(old(self).can_observe(prop, received_time));
            assert(buffers(old(self).buffer(), self.buffer(), prop, role, now));
            let last = old(self).buffer().last_released_deadline_spec();
            if buffer::is_late_key(old(self).buffer().last_released(), key_of(prop)) && role == Role::Leader
                && extension_fits(now, last) {
                let q = admitted_proposal(prop, true, now, last);
                let j = choose|j: int| 0 <= j <= old(self).buffer().pending().len()
                    && self.buffer().pending() == old(self).buffer().pending().insert(j, q);
                assert(self.buffer().pending()[j] == q);
            }
        }
        Some(ack)
    }

    /// Whether the arithmetic of a deadline extension as of `now` fits in `i64`.
    fn extension_fits_now(&self, now: ClockTimestamp) -> (r: bool)
        ensures
            r == extension_fits(now, self.buffer().last_released_deadline_spec()),
    {
        let sum_fits = now.0.checked_add(now.1).is_some();
        match self.early_buffer.last_released_deadline() {
            Some(last) => sum_fits && last.checked_add(ONE_MICRO_SECOND).is_some(),
            None => sum_fits,
        }
    }

    /// Handles a DOM ack: records the delay that the peer estimated.
    pub fn handle_dom_ack(&mut self, ack: DomAck)
        requires
            old(self).wf(),
        ensures
            final(self).wf(),
            final(self).readings() == old(self).readings(),
            final(self).outgoing().estimates() == old(self).outgoing().estimates().insert(
                ack.sender,
                max_int(ack.estimated_owd as int, 0) as i64,
            ),
            final(self).outgoing().default_owd() == old(self).outgoing().default_owd(),
            final(self).incoming() == old(self).incoming(),
            final(self).buffer() == old(self).buffer(),
            final(self).pid() == old(self).pid(),
    {
        self.outgoing_owd_estimates.update(ack.sender, ack.estimated_owd);
    }

    /// Snapshot of the current one-way delay estimates.
    pub fn owd_snapshot(&self) -> (s: DomOwdSnapshot)
        ensures
            s.incoming_estimates@ == self.incoming().estimates(),
            s.outgoing_estimates@ == self.outgoing().estimates(),
            max_estimate(self.outgoing().estimates(), self.outgoing().default_owd(), s.max_outgoing_estimate),
    {
        DomOwdSnapshot {
            incoming_estimates: self.incoming_owd_estimates.estimates_snapshot(),
            outgoing_estimates: self.outgoing_owd_estimates.estimates_snapshot(),
            max_outgoing_estimate: self.outgoing_owd_estimates.get_max_owd(),
        }
    }

    /// Removes the proposal with the given entry id from the buffers. Returns
    /// the proposal if it was found.
    pub fn remove_from_buffers(&mut self, entry_id: EntryId) -> (r: Option<DomPropose<T>>)
        requires
            old(self).wf(),
        ensures
            final(self).wf(),
            final(self).readings() == old(self).readings(),
            final(self).buffer().pending() == buffer::without_id(old(self).buffer().pending(), entry_id),
            final(self).buffer().last_released() == old(self).buffer().last_released(),
            r == buffer::last_with_id(old(self).buffer().pending(), entry_id),
            final(self).incoming() == old(self).incoming(),
            final(self).outgoing() == old(self).outgoing(),
    {
        self.early_buffer.remove(entry_id)
    }
}

} // verus!
