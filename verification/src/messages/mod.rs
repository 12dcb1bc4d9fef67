//! The messages that replicas exchange.

pub mod sequence_paxos;
pub mod ballot_leader_election;

use vstd::prelude::*;
use crate::storage::Entry;
use crate::util::NodeId;
use sequence_paxos::PaxosMessage;
use ballot_leader_election::BLEMessage;

verus! {

/// Message in OmniPaxos. Can be either a `SequencePaxos` message (for log
/// replication) or `BLE` message (for leader election)
#[derive(Clone, Debug)]
pub enum Message<T: Entry> {
    /// A message of log replication.
    SequencePaxos(PaxosMessage<T>),
    /// A message of leader election.
    BLE(BLEMessage),
}

impl<T: Entry> Message<T> {
    /// The sender of the message, as the message states it.
    pub open spec fn sender(&self) -> NodeId {
        match self {
            Message::SequencePaxos(p) => p.from,
            Message::BLE(b) => b.from,
        }
    }

    /// The receiver of the message, as the message states it.
    pub open spec fn receiver(&self) -> NodeId {
        match self {
            Message::SequencePaxos(p) => p.to,
            Message::BLE(b) => b.to,
        }
    }

    /// Get the sender id of the message
    pub fn get_sender(&self) -> (r: NodeId)
        ensures
            r == self.sender(),
    {
        match self {
            Message::SequencePaxos(p) => p.from,
            Message::BLE(b) => b.from,
        }
    }

    /// Get the receiver id of the message
    pub fn get_receiver(&self) -> (r: NodeId)
        ensures
            r == self.receiver(),
    {
        match self {
            Message::SequencePaxos(p) => p.to,
            Message::BLE(b) => b.to,
        }
    }
}

} // verus!
