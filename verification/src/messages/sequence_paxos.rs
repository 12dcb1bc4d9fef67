//! The messages of log replication.

use vstd::prelude::*;
use std::collections::HashMap;
use crate::ballot::Ballot;
use crate::storage::{Entry, StopSign};
use crate::util::{DOMHash, LogSync, NodeId, SequenceNumber, UnsyncedLogEntry};

verus! {

/// The id of a command issued by a client.
pub type CommandId = usize;

/// A clock reading: the time and its uncertainty.
pub type ClockTimestamp = (i64, i64);

/// Type that uniquely identifies a client request.
#[derive(Copy, Clone, Debug, PartialEq, Eq, Structural, Hash, PartialOrd, Ord)]
pub struct EntryId {
    /// The id of the client
    pub client_id: NodeId,
    /// The id of the client command
    pub command_id: CommandId,
}

/// A client command tagged with the time it was sent and the global deadline
/// before which no replica releases it.
#[derive(Debug)]
pub struct DomPropose<T: Entry> {
    /// The unique id of the client request
    pub entry_id: EntryId,
    /// The sender of the proposal
    pub sender: NodeId,
    /// The time at which the proposal was sent, with its uncertainty
    pub sent_time: ClockTimestamp,
    /// The global time deadline for the proposal
    pub deadline: i64,
    /// The entry to be replicated
    pub entry: T,
}

impl<T: Entry> Clone for DomPropose<T> {
    /// A copy of the proposal; the entry is cloned.
    fn clone(&self) -> (r: Self)
        ensures
            r.entry_id == self.entry_id,
            r.sender == self.sender,
            r.sent_time == self.sent_time,
            r.deadline == self.deadline,
            cloned(self.entry, r.entry),
    {
        DomPropose {
            entry_id: self.entry_id,
            sender: self.sender,
            sent_time: (self.sent_time.0, self.sent_time.1),
            deadline: self.deadline,
            entry: self.entry.clone(),
        }
    }
}

/// Message sent as a response to a `DomPropose` message.
#[derive(Copy, Clone, Debug, PartialEq, Eq, Structural)]
pub struct DomAck {
    /// The sender of the ack.
    pub sender: NodeId,
    /// The estimated one-way delay for the corresponding proposal.
    pub estimated_owd: i64,
}

/// Message sent by a follower on crash-recovery or dropped messages to request its leader to re-prepare them.
#[derive(Copy, Clone, Debug)]
pub struct PrepareReq {
    /// The current round.
    pub n: Ballot,
}

/// Prepare message sent by a newly-elected leader to initiate the Prepare phase.
#[derive(Copy, Clone, Debug)]
pub struct Prepare {
    /// The current round.
    pub n: Ballot,
    /// The decided index of this leader.
    pub decided_idx: usize,
    /// The latest round in which an entry was accepted.
    pub n_accepted: Ballot,
    /// The log length of this leader.
    pub accepted_idx: usize,
}

/// Promise message sent by a follower in response to a `Prepare` sent by the leader.
#[derive(Clone, Debug)]
pub struct Promise<T: Entry> {
    /// The current round.
    pub n: Ballot,
    /// The latest round in which an entry was accepted.
    pub n_accepted: Ballot,
    /// The decided index of this follower.
    pub decided_idx: usize,
    /// The log length of this follower.
    pub accepted_idx: usize,
    /// The log update which the leader applies to its log in order to sync
    /// with this follower (if the follower is more up-to-date).
    pub log_sync: Option<LogSync<T>>,
    /// The unsynced-log entries of this follower
    pub log_unsync: Option<HashMap<usize, UnsyncedLogEntry<T>>>,
    /// The hash value for the log prefix up to the entries in `log_sync`.
    pub log_prefix_hash: DOMHash,
}

/// AcceptSync message sent by the leader to synchronize the logs of all replicas in the prepare phase.
#[derive(Clone, Debug)]
pub struct AcceptSync<T: Entry> {
    /// The current round.
    pub n: Ballot,
    /// The sequence number of this message in the leader-to-follower accept sequence
    pub seq_num: SequenceNumber,
    /// The decided index
    pub decided_idx: usize,
    /// The log update which the follower applies to its log in order to sync
    /// with the leader.
    pub log_sync: LogSync<T>,
    /// The hash value for the log prefix up to the entries in `log_sync`.
    pub log_prefix_hash: DOMHash,
}

/// Message with entries to be replicated and the latest decided index sent by the leader in the accept phase.
#[derive(Clone, Debug)]
pub struct AcceptDecide<T: Entry> {
    /// The current round.
    pub n: Ballot,
    /// The sequence number of this message in the leader-to-follower accept sequence
    pub seq_num: SequenceNumber,
    /// The decided index.
    pub decided_idx: usize,
    /// Entries to be replicated.
    pub entries: Vec<T>,
    /// DOM metadata for each entry in `entries`, in the same order.
    pub entry_meta: Vec<AcceptedEntryMeta>,
    /// The hash value for the log prefix up to the entries in `entries`.
    pub log_prefix_hash: DOMHash,
}

/// Message sent by follower to leader when entries has been accepted.
#[derive(Copy, Clone, Debug)]
pub struct Accepted {
    /// The current round.
    pub n: Ballot,
    /// The accepted index.
    pub accepted_idx: usize,
}

/// DOM metadata for a log entry replicated via `AcceptDecide`.
#[derive(Copy, Clone, Debug, PartialEq, Eq, Structural)]
pub struct AcceptedEntryMeta {
    /// The unique id of the client request.
    pub entry_id: EntryId,
    /// The deadline assigned by DOM.
    pub deadline: i64,
}

/// FastAccepted message
#[derive(Copy, Clone, Debug)]
pub struct FastAccepted {
    /// The current round.
    pub n: Ballot,
    /// The index in the log where the follower placed this entry.
    pub idx: usize,
    /// Hash of the current entry
    pub entry_hash: DOMHash,
    /// Hash of the follower's log prefix including this entry
    pub prefix_hash: DOMHash,
}

/// Message sent by leader to followers to decide up to a certain index in the log.
#[derive(Copy, Clone, Debug)]
pub struct Decide {
    /// The current round.
    pub n: Ballot,
    /// The sequence number of this message in the leader-to-follower accept sequence
    pub seq_num: SequenceNumber,
    /// The decided index.
    pub decided_idx: usize,
}

/// Message sent by leader to followers to accept a StopSign
#[derive(Clone, Debug)]
pub struct AcceptStopSign {
    /// The current round.
    pub n: Ballot,
    /// The sequence number of this message in the leader-to-follower accept sequence
    pub seq_num: SequenceNumber,
    /// The stop sign to accept.
    pub ss: StopSign,
}

/// Message sent by follower to leader when accepting an entry is rejected.
/// This happens when the follower is promised to a greater leader.
#[derive(Copy, Clone, Debug)]
pub struct NotAccepted {
    /// The follower's current ballot
    pub n: Ballot,
}

/// Compaction Request
#[derive(Copy, Clone, Debug)]
pub enum Compaction {
    /// Trim the log up to the index.
    Trim(usize),
    /// Snapshot the log up to the index, or up to the decided index.
    Snapshot(Option<usize>),
}

/// An enum for all the different message types.
#[derive(Clone, Debug)]
pub enum PaxosMsg<T: Entry> {
    /// Request a `Prepare` to be sent from the leader. Used for fail-recovery.
    PrepareReq(PrepareReq),
    /// Starts the prepare phase.
    Prepare(Prepare),
    /// Answers a `Prepare`.
    Promise(Promise<T>),
    /// Synchronises a follower's log.
    AcceptSync(AcceptSync<T>),
    /// Replicates entries and decides.
    AcceptDecide(AcceptDecide<T>),
    /// Acknowledges entries on the slow path.
    Accepted(Accepted),
    /// Acknowledges an entry on the fast path.
    FastAccepted(FastAccepted),
    /// Refuses entries of an older round.
    NotAccepted(NotAccepted),
    /// Decides up to an index.
    Decide(Decide),
    /// Requests a compaction.
    Compaction(Compaction),
    /// Replicates a stop sign.
    AcceptStopSign(AcceptStopSign),
    /// Forwards a stop sign to the leader.
    ForwardStopSign(StopSign),
    /// A client command with its deadline.
    DomPropose(DomPropose<T>),
    /// Answers a `DomPropose`.
    DomAck(DomAck),
}

/// A struct for a Paxos message that also includes sender and receiver.
#[derive(Clone, Debug)]
pub struct PaxosMessage<T: Entry> {
    /// Sender of `msg`.
    pub from: NodeId,
    /// Receiver of `msg`.
    pub to: NodeId,
    /// The message content.
    pub msg: PaxosMsg<T>,
}

} // verus!
