//! The messages of ballot leader election.

use vstd::prelude::*;
use crate::ballot::Ballot;
use crate::util::NodeId;

verus! {

/// An enum for all the different BLE message types.
#[derive(Clone, Debug)]
pub enum HeartbeatMsg {
    /// A request for a heartbeat reply.
    Request(HeartbeatRequest),
    /// A heartbeat reply.
    Reply(HeartbeatReply),
}

/// Requests a reply from all the other servers.
#[derive(Copy, Clone, Debug)]
pub struct HeartbeatRequest {
    /// Number of the current round.
    pub round: u32,
}

/// Replies
#[derive(Copy, Clone, Debug)]
pub struct HeartbeatReply {
    /// Number of the current heartbeat round.
    pub round: u32,
    /// Ballot of replying server.
    pub ballot: Ballot,
    /// Leader this server is following
    pub leader: Ballot,
    /// Whether the replying server sees a need for a new leader
    pub happy: bool,
}

/// A struct for a BLE message that also includes sender and receiver.
#[derive(Clone, Debug)]
pub struct BLEMessage {
    /// Sender of `msg`.
    pub from: NodeId,
    /// Receiver of `msg`.
    pub to: NodeId,
    /// The message content.
    pub msg: HeartbeatMsg,
}

} // verus!
