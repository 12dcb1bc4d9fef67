//! Identifiers, hashes, sequence numbers, quorums and clocks.

use vstd::prelude::*;
use std::collections::HashSet;
use std::hash::BuildHasher;
use std::marker::PhantomData;
use vstd::std_specs::cmp::{PartialEqSpec, PartialEqSpecImpl};
use crate::messages::sequence_paxos::EntryId;
use crate::storage::{Entry, SnapshotType, StopSign};

verus! {

/// ID for an OmniPaxos node
pub type NodeId = u64;

/// ID for an OmniPaxos configuration (i.e., the set of servers in an OmniPaxos cluster)
pub type ConfigurationId = u32;

/// Index of the log up to which it was trimmed.
pub type TrimmedIndex = usize;

/// Error message to display when there was an error reading to the storage implementation.
pub const READ_ERROR_MSG: &'static str = "Error reading from storage.";

/// Error message to display when there was an error writing to the storage implementation.
pub const WRITE_ERROR_MSG: &'static str = "Error writing to storage.";

/// The hash that the standard library's default hasher gives to the pair of
/// an entry id (client id, command id) and a deadline.
pub uninterp spec fn spec_entry_hash(client_id: u64, command_id: usize, deadline: i64) -> u64;

/// Hashes `((client_id, command_id), deadline)` with the standard library's
/// default hasher; that writes the same words as hashing an `EntryId` and a
/// deadline.
///
/// Calls `BuildHasher::hash_one` on a `BuildHasherDefault<DefaultHasher>`,
/// whose hasher has fixed keys, so the result is a function of the arguments
/// alone (for one build of the standard library); it is named
/// `spec_entry_hash`.
#[verifier::external_body]
fn default_hash_of(client_id: u64, command_id: usize, deadline: i64) -> (h: u64)
    ensures
        h == spec_entry_hash(client_id, command_id, deadline),
{
    std::hash::BuildHasherDefault::<std::hash::DefaultHasher>::default().hash_one(((client_id, command_id), deadline))
}

/// A hash of log entries that combines by exclusive or, so that the hash of
/// a log prefix does not depend on the order in which its entries were
/// added, and an entry can be taken out again.
#[derive(Clone, Copy, Debug, Hash, PartialEq, Eq, Structural)]
pub struct DOMHash {
    hash: u64,
}

impl DOMHash {
    /// The value of the hash.
    pub closed spec fn value(&self) -> u64 {
        self.hash
    }

    /// Two hashes are equal exactly when their values are.
    pub proof fn lemma_eq_iff_value(a: DOMHash, b: DOMHash)
        ensures
            (a == b) <==> (a.value() == b.value()),
    {
    }

    /// The hash of an entry with the given id and deadline.
    pub fn with(entry_id: EntryId, deadline: i64) -> (h: Self)
        ensures
            h.value() == spec_entry_hash(entry_id.client_id, entry_id.command_id, deadline),
    {
        DOMHash { hash: default_hash_of(entry_id.client_id, entry_id.command_id, deadline) }
    }

    /// The hash with value 0, which leaves every hash unchanged when added.
    pub fn default() -> (h: Self)
        ensures
            h.value() == 0,
    {
        DOMHash { hash: 0 }
    }

    /// Adds the entries of `other` to this hash.
    pub fn extend_hash(&mut self, other: &Self)
        ensures
            final(self).value() == old(self).value() ^ other.value(),
    {
        self.hash = self.hash ^ other.hash;
    }

    /// Takes the entries of `other` out of this hash.
    pub fn remove_hash(&mut self, other: &Self)
        ensures
            final(self).value() == old(self).value() ^ other.value(),
    {
        self.extend_hash(other);
    }
}

/// Taking out a hash that was added gives the hash back.
pub proof fn lemma_remove_undoes_extend(a: u64, b: u64)
    ensures
        (a ^ b) ^ b == a,
{
    assert((a ^ b) ^ b == a) by (bit_vector);
}

/// The order in which hashes are added does not matter.
pub proof fn lemma_extend_commutes(a: u64, b: u64, c: u64)
    ensures
        (a ^ b) ^ c == (a ^ c) ^ b,
        a ^ b == b ^ a,
{
    assert((a ^ b) ^ c == (a ^ c) ^ b) by (bit_vector);
    assert(a ^ b == b ^ a) by (bit_vector);
}

/// Adding the default hash changes nothing.
pub proof fn lemma_default_is_neutral(a: u64)
    ensures
        a ^ 0u64 == a,
{
    assert(a ^ 0u64 == a) by (bit_vector);
}

/// Struct used to help another server synchronize their log with the current state of our own log.
#[derive(Clone, Debug)]
pub struct LogSync<T: Entry> {
    /// The decided snapshot.
    pub decided_snapshot: Option<SnapshotType<T>>,
    /// The log suffix.
    pub suffix: Vec<T>,
    /// The index of the log where the entries from `suffix` should be applied at (also the compacted idx of `decided_snapshot` if it exists).
    pub sync_idx: usize,
    /// The accepted StopSign.
    pub stopsign: Option<StopSign>,
}

/// An entry that was accepted on the fast path and is not yet synced.
#[derive(Clone, Debug)]
pub struct UnsyncedLogEntry<T: Entry> {
    /// The entry which was sent on the fast path and is not yet synced.
    pub entry: T,
    /// The entry id of the entry, used for checking if the entry is the same as other entries with the same index.
    pub entry_id: EntryId,
    /// The deadline of the entry
    pub deadline: i64,
    /// The hash of the entry
    pub entry_hash: DOMHash,
    /// The hash of the prefix of the log before this entry, used for checking if the entry is on the same log as other entries with the same index.
    pub prefix_hash: DOMHash,
}

/// The followers that accepted a log index, on the fast and on the slow path.
#[derive(Debug)]
pub struct AcceptedMapEntry {
    /// The hash of the leader's candidate entry for this index.
    pub entry_hash: DOMHash,
    /// The hash of the prefix of the leader's log before this entry.
    pub prefix_hash: DOMHash,
    /// The followers which accepted this index on the fast path, grouped by
    /// the pair (prefix hash, entry hash) of what they accepted; each pair
    /// occurs once.
    pub fast: Vec<((DOMHash, DOMHash), HashSet<NodeId>)>,
    /// The followers which accepted this index on the slow path.
    pub slow: HashSet<NodeId>,
}

/// The entry read in the log.
#[derive(Clone, Debug)]
pub enum LogEntry<T: Entry> {
    /// The entry is decided.
    Decided(T),
    /// The entry is NOT decided. Might be removed from the log at a later time.
    Undecided(T),
    /// The entry has been trimmed.
    Trimmed(TrimmedIndex),
    /// The entry has been snapshotted.
    Snapshotted(SnapshottedEntry<T>),
    /// This Sequence Paxos instance has been stopped for reconfiguration. The accompanying bool
    /// indicates whether the reconfiguration has been decided or not.
    StopSign(StopSign, bool),
}

/// Convenience enum for checking if a certain index exists, is compacted or is a StopSign.
#[derive(Clone, Debug)]
pub enum IndexEntry {
    /// The index holds an entry.
    Entry,
    /// The index was compacted.
    Compacted,
    /// The index holds a stop sign.
    StopSign(StopSign),
}

/// A snapshot that stands for the log up to a trimmed index.
#[derive(Debug)]
pub struct SnapshottedEntry<T: Entry> {
    /// The index up to which the log was trimmed.
    pub trimmed_idx: TrimmedIndex,
    /// The snapshot of the trimmed prefix.
    pub snapshot: T::Snapshot,
    /// Marks the entry type the snapshot belongs to.
    pub _p: PhantomData<T>,
}

impl<T: Entry> Clone for SnapshottedEntry<T> {
    /// A copy of the snapshotted entry; the snapshot is cloned.
    fn clone(&self) -> (r: Self)
        ensures
            r.trimmed_idx == self.trimmed_idx,
            cloned(self.snapshot, r.snapshot),
    {
        SnapshottedEntry { trimmed_idx: self.trimmed_idx, snapshot: self.snapshot.clone(), _p: PhantomData }
    }
}

impl<T: Entry> SnapshottedEntry<T> {
    /// The snapshot of the log up to `trimmed_idx`.
    pub fn with(trimmed_idx: usize, snapshot: T::Snapshot) -> (s: Self)
        ensures
            s.trimmed_idx == trimmed_idx,
            s.snapshot == snapshot,
    {
        Self { trimmed_idx, snapshot, _p: PhantomData }
    }
}

impl<T: Entry> SnapshottedEntry<T> where T::Snapshot: PartialEq {
    /// Two snapshotted entries are equal when their trimmed indexes are and
    /// their snapshots are equal as the snapshot type defines it.
    pub open spec fn same_as(&self, other: &Self) -> bool {
        self.trimmed_idx == other.trimmed_idx && self.snapshot.eq_spec(&other.snapshot)
    }
}

impl<T: Entry> PartialEq for SnapshottedEntry<T> where T::Snapshot: PartialEq {
    fn eq(&self, other: &Self) -> (r: bool) {
        self.trimmed_idx == other.trimmed_idx && self.snapshot == other.snapshot
    }
}

impl<T: Entry> PartialEqSpecImpl for SnapshottedEntry<T> where T::Snapshot: PartialEq {
    open spec fn obeys_eq_spec() -> bool {
        <T::Snapshot as PartialEqSpec>::obeys_eq_spec()
    }

    open spec fn eq_spec(&self, other: &Self) -> bool {
        self.same_as(other)
    }
}

impl<T: Entry + PartialEq> PartialEq for LogEntry<T> where T::Snapshot: PartialEq {
    fn eq(&self, other: &Self) -> (r: bool) {
        match (self, other) {
            (LogEntry::Decided(v1), LogEntry::Decided(v2)) => v1 == v2,
            (LogEntry::Undecided(v1), LogEntry::Undecided(v2)) => v1 == v2,
            (LogEntry::Trimmed(idx1), LogEntry::Trimmed(idx2)) => idx1 == idx2,
            (LogEntry::Snapshotted(s1), LogEntry::Snapshotted(s2)) => s1 == s2,
            (LogEntry::StopSign(ss1, b1), LogEntry::StopSign(ss2, b2)) => ss1 == ss2 && b1 == b2,
            _ => false,
        }
    }
}

impl<T: Entry + PartialEq> PartialEqSpecImpl for LogEntry<T> where T::Snapshot: PartialEq {
    open spec fn obeys_eq_spec() -> bool {
        <T as PartialEqSpec>::obeys_eq_spec() && <T::Snapshot as PartialEqSpec>::obeys_eq_spec()
    }

    /// Entries of the same kind are equal when what they carry is; entries
    /// of different kinds never are.
    open spec fn eq_spec(&self, other: &Self) -> bool {
        match (self, other) {
            (LogEntry::Decided(v1), LogEntry::Decided(v2)) => v1.eq_spec(v2),
            (LogEntry::Undecided(v1), LogEntry::Undecided(v2)) => v1.eq_spec(v2),
            (LogEntry::Trimmed(idx1), LogEntry::Trimmed(idx2)) => idx1 == idx2,
            (LogEntry::Snapshotted(s1), LogEntry::Snapshotted(s2)) => s1.same_as(s2),
            (LogEntry::StopSign(ss1, b1), LogEntry::StopSign(ss2, b2)) => ss1.same_as(ss2) && b1 == b2,
            _ => false,
        }
    }
}

/// The entries flushed due to an append operation.
pub struct AcceptedMetaData<T: Entry> {
    /// The accepted index after the append.
    pub accepted_idx: usize,
    /// The flushed entries.
    pub entries: Vec<T>,
}

/// How a message of the accept phase relates to the sequence seen so far.
#[derive(Copy, Clone, Debug, PartialEq, Eq, Structural)]
pub enum MessageStatus {
    /// Expected message sequence progression
    Expected,
    /// Identified a message sequence break
    DroppedPreceding,
    /// An already identified message sequence break
    Outdated,
}

/// Keeps track of the ordering of messages in the accept phase
#[derive(Copy, Clone, Debug, PartialEq, Eq, Structural, Hash, PartialOrd, Ord)]
pub struct SequenceNumber {
    /// Meant to refer to a TCP session
    pub session: u64,
    /// The sequence number with respect to a session
    pub counter: u64,
}

/// The order of sequence numbers: by session, then by counter.
pub open spec fn seq_num_le(a: SequenceNumber, b: SequenceNumber) -> bool {
    a.session < b.session || (a.session == b.session && a.counter <= b.counter)
}

/// The status of a message with sequence number `msg` after `last`: the
/// next one of the same session is expected, one at or before `last` is
/// outdated, any other means that messages were dropped in between.
pub open spec fn msg_status(last: SequenceNumber, msg: SequenceNumber) -> MessageStatus {
    if msg.session == last.session && msg.counter == last.counter + 1 {
        MessageStatus::Expected
    } else if seq_num_le(msg, last) {
        MessageStatus::Outdated
    } else {
        MessageStatus::DroppedPreceding
    }
}

impl SequenceNumber {
    /// The sequence number of session 0, counter 0.
    pub fn default() -> (s: Self)
        ensures
            s.session == 0 && s.counter == 0,
    {
        SequenceNumber { session: 0, counter: 0 }
    }

    /// Compares this sequence number with the sequence number of an incoming message.
    pub fn check_msg_status(&self, msg_seq_num: SequenceNumber) -> (r: MessageStatus)
        requires
            self.counter < u64::MAX,
        ensures
            r == msg_status(*self, msg_seq_num),
    {
        if msg_seq_num.session == self.session && msg_seq_num.counter == self.counter + 1 {
            MessageStatus::Expected
        } else if msg_seq_num.session < self.session || (msg_seq_num.session == self.session
            && msg_seq_num.counter <= self.counter) {
            MessageStatus::Outdated
        } else {
            MessageStatus::DroppedPreceding
        }
    }
}

/// A counter of ticks that signals a timeout every `timeout` ticks.
pub struct LogicalClock {
    time: u64,
    timeout: u64,
}

impl LogicalClock {
    /// The ticks counted since the last timeout.
    pub closed spec fn time(&self) -> u64 {
        self.time
    }

    /// The number of ticks between two timeouts.
    pub closed spec fn timeout(&self) -> u64 {
        self.timeout
    }

    /// A clock at zero ticks with the given timeout.
    pub fn with(timeout: u64) -> (c: Self)
        ensures
            c.time() == 0,
            c.timeout() == timeout,
    {
        Self { time: 0, timeout }
    }

    /// Counts one tick; returns `true` and restarts from zero when the count
    /// reaches the timeout.
    pub fn tick_and_check_timeout(&mut self) -> (r: bool)
        requires
            old(self).time() < u64::MAX,
        ensures
            r == (old(self).time() + 1 == old(self).timeout()),
            r ==> final(self).time() == 0,
            !r ==> final(self).time() == old(self).time() + 1,
            final(self).timeout() == old(self).timeout(),
            old(self).time() < old(self).timeout() ==> final(self).time() < final(self).timeout(),
            (final(self).time() as int, r) == tick_of(old(self).time() as int, old(self).timeout() as int),
    {
        self.time = self.time + 1;
        if self.time == self.timeout {
            self.time = 0;
            true
        } else {
            false
        }
    }
}

/// The count and the result of one tick of a clock that shows `time` and
/// times out at `timeout`.
pub open spec fn tick_of(time: int, timeout: int) -> (int, bool) {
    if time + 1 == timeout {
        (0, true)
    } else {
        (time + 1, false)
    }
}

/// The count of a clock made with `timeout` after `k` ticks.
pub open spec fn count_after_ticks(timeout: int, k: nat) -> int
    decreases k,
{
    if k == 0 {
        0
    } else {
        tick_of(count_after_ticks(timeout, (k - 1) as nat), timeout).0
    }
}

/// Over any number of ticks of a clock made by `LogicalClock::with(timeout)`
/// (each tick moves the count as `tick_of` says): after `k` ticks the count
/// is `k % timeout` (`k` for a timeout of 0), and the `(k + 1)`-th tick
/// times out exactly when the timeout is at least 1 and divides `k + 1`.
pub proof fn lemma_tick_sequence(timeout: u64, k: nat)
    ensures
        count_after_ticks(timeout as int, k) == (if timeout >= 1 { (k % (timeout as nat)) as int } else { k as int }),
        tick_of(count_after_ticks(timeout as int, k), timeout as int).1 == (timeout >= 1 && (k + 1) % (timeout as nat) == 0),
    decreases k,
{
    if k > 0 {
        lemma_tick_sequence(timeout, (k - 1) as nat);
        if timeout >= 1 {
            lemma_ticks_count_modulo_timeout(timeout, (k - 1) as nat);
        }
    }
    if timeout >= 1 {
        lemma_ticks_count_modulo_timeout(timeout, k);
    }
}

/// A clock made with timeout `t >= 1` counts ticks modulo `t`: if it shows
/// `k % t` after `k` ticks (as `with` gives for `k == 0`), the next tick
/// times out exactly when `k + 1` is a multiple of `t`, and leaves
/// `(k + 1) % t`. So the ticks that time out are the `t`-th, the `2t`-th,
/// and so on. (With a timeout of 0, no tick times out: the count plus one is
/// never 0.)
pub proof fn lemma_ticks_count_modulo_timeout(timeout: u64, k: nat)
    requires
        timeout >= 1,
    ensures
        (k % (timeout as nat) + 1 == timeout) == ((k + 1) % (timeout as nat) == 0),
        k % (timeout as nat) + 1 == timeout ==> (k + 1) % (timeout as nat) == 0,
        k % (timeout as nat) + 1 != timeout ==> (k + 1) % (timeout as nat) == k % (timeout as nat) + 1,
{
    let t = timeout as int;
    let q = k as int / t;
    let r = k as int % t;
    vstd::arithmetic::div_mod::lemma_fundamental_div_mod(k as int, t);
    assert(k == t * q + r);
    if r + 1 == t {
        assert(k + 1 == (q + 1) * t) by (nonlinear_arith)
            requires
                k == t * q + r,
                r + 1 == t,
        ;
        vstd::arithmetic::div_mod::lemma_fundamental_div_mod_converse(k + 1 as int, t, q + 1, 0);
    } else {
        assert(k + 1 == q * t + (r + 1)) by (nonlinear_arith)
            requires
                k == t * q + r,
        ;
        vstd::arithmetic::div_mod::lemma_fundamental_div_mod_converse(k + 1 as int, t, q, r + 1);
    }
}

/// Flexible quorums can be used to increase/decrease the read and write quorum sizes,
/// for different latency vs fault tolerance tradeoffs.
#[derive(Copy, Clone, Debug, PartialEq, Eq, Structural)]
pub struct FlexibleQuorum {
    /// The number of nodes a leader needs to consult to get an up-to-date view of the log.
    pub read_quorum_size: usize,
    /// The number of acknowledgments a leader needs to commit an entry to the log
    pub write_quorum_size: usize,
}

/// The type of quorum used by the OmniPaxos cluster.
#[derive(Copy, Clone, Debug, PartialEq, Eq, Structural)]
pub enum Quorum {
    /// Both the read quorum and the write quorums are a majority of nodes
    Majority(usize),
    /// The read and write quorum sizes are defined by a `FlexibleQuorum`
    Flexible(FlexibleQuorum),
}

impl Quorum {
    /// The number of promises that makes a prepare quorum.
    pub open spec fn prepare_size(&self) -> usize {
        match self {
            Quorum::Majority(m) => *m,
            Quorum::Flexible(f) => f.read_quorum_size,
        }
    }

    /// The number of acceptances that makes an accept quorum.
    pub open spec fn accept_size(&self) -> usize {
        match self {
            Quorum::Majority(m) => *m,
            Quorum::Flexible(f) => f.write_quorum_size,
        }
    }

    /// The flexible quorum where one is configured, otherwise a majority of
    /// `num_nodes`.
    pub fn with(flexible_quorum_config: Option<FlexibleQuorum>, num_nodes: usize) -> (q: Self)
        ensures
            q == (match flexible_quorum_config {
                Some(f) => Quorum::Flexible(f),
                None => Quorum::Majority((num_nodes / 2 + 1) as usize),
            }),
    {
        match flexible_quorum_config {
            Some(FlexibleQuorum { read_quorum_size, write_quorum_size }) => Quorum::Flexible(
                FlexibleQuorum { read_quorum_size, write_quorum_size },
            ),
            None => Quorum::Majority(num_nodes / 2 + 1),
        }
    }

    /// Whether `num_nodes` promises make a prepare quorum.
    pub fn is_prepare_quorum(&self, num_nodes: usize) -> (r: bool)
        ensures
            r == (num_nodes >= self.prepare_size()),
    {
        match self {
            Quorum::Majority(majority) => num_nodes >= *majority,
            Quorum::Flexible(flex_quorum) => num_nodes >= flex_quorum.read_quorum_size,
        }
    }

    /// Whether `num_nodes` acceptances make an accept quorum.
    pub fn is_accept_quorum(&self, num_nodes: usize) -> (r: bool)
        ensures
            r == (num_nodes >= self.accept_size()),
    {
        match self {
            Quorum::Majority(majority) => num_nodes >= *majority,
            Quorum::Flexible(flex_quorum) => num_nodes >= flex_quorum.write_quorum_size,
        }
    }
}

/// Two majority quorums of the same cluster always share a node: together
/// they count more than the cluster's nodes.
pub proof fn lemma_majorities_intersect(num_nodes: usize)
    ensures
        2 * (num_nodes / 2 + 1) > num_nodes,
{
}

/// Trait for obtaining physical time with uncertainty.
pub trait PhysicalClock {
    /// Returns the current physical time.
    fn get_time(&self) -> i64;

    /// Returns the uncertainty of the physical time.
    fn get_uncertainty(&self) -> i64;

    /// Returns the pair of the current physical time and its uncertainty.
    fn get_time_with_uncertainty(&self) -> (i64, i64);
}

#[verifier::external_type_specification]
#[verifier::external_body]
pub struct ExSystemTime(std::time::SystemTime);

#[verifier::external_type_specification]
#[verifier::external_body]
pub struct ExSystemTimeError(std::time::SystemTimeError);

/// The system's wall-clock time now.
///
/// Calls `std::time::SystemTime::now`; the reading depends on the time, so
/// nothing is stated of it.
#[verifier::external_body]
pub(crate) fn system_now() -> std::time::SystemTime {
    std::time::SystemTime::now()
}

/// The time elapsed from the Unix epoch to `t`, or an error where `t` lies
/// before the epoch.
///
/// Calls `std::time::SystemTime::duration_since` with `UNIX_EPOCH`; the time
/// is opaque here, so nothing is stated of the result.
#[verifier::external_body]
pub(crate) fn since_unix_epoch(t: &std::time::SystemTime) -> Result<std::time::Duration, std::time::SystemTimeError> {
    t.duration_since(std::time::UNIX_EPOCH)
}

/// The whole nanoseconds of a duration.
///
/// Calls `std::time::Duration::as_nanos`; the duration is opaque here, so
/// nothing is stated of the result.
#[verifier::external_body]
fn duration_as_nanos(d: &std::time::Duration) -> u128 {
    d.as_nanos()
}

/// A count of nanoseconds as an `i64`, saturating at `i64::MAX`.
pub fn nanos_to_i64(nanos: u128) -> (r: i64)
    ensures
        r == (if nanos > i64::MAX { i64::MAX as int } else { nanos as int }),
{
    if nanos > 9223372036854775807u128 {
        i64::MAX
    } else {
        nanos as i64
    }
}

/// System clock that returns UTC nanoseconds since Unix epoch.
pub struct SystemClock;

impl PhysicalClock for SystemClock {
    /// Nanoseconds since the Unix epoch, saturating at `i64::MAX`, or 0 where
    /// the system clock stands before the epoch.
    fn get_time(&self) -> (r: i64)
        ensures
            r >= 0,
    {
        let now = system_now();
        match since_unix_epoch(&now) {
            Ok(d) => nanos_to_i64(duration_as_nanos(&d)),
            Err(_) => 0,
        }
    }

    /// The system clock claims no uncertainty.
    fn get_uncertainty(&self) -> (r: i64)
        ensures
            r == 0,
    {
        0
    }

    /// The time of `get_time` with an uncertainty of zero.
    fn get_time_with_uncertainty(&self) -> (r: (i64, i64))
        ensures
            r.0 >= 0,
            r.1 == 0,
    {
        (self.get_time(), self.get_uncertainty())
    }
}

} // verus!
