//! The decisions a benchmark server takes while it waits for the first
//! leader: the server runs the loop (timers, network), and each event it
//! sees is handed here for the action to take.

use vstd::prelude::*;
use crate::arith::clamp_i64;
use crate::util::NodeId;

verus! {

/// How long after the leader is ready the experiment starts, in
/// milliseconds.
pub const EXPERIMENT_START_DELAY_MS: i64 = 2000;

/// What the server saw while waiting for the first leader.
#[derive(Copy, Clone, Debug)]
pub enum StartupEvent {
    /// The leader-takeover timer fired at the initial leader, which read the
    /// current leader of the log (with whether it is in the accept phase)
    /// and the wall clock in milliseconds.
    TakeoverTick { current_leader: Option<(NodeId, bool)>, now_ms: i64 },
    /// Cluster messages were handled; `start_received` tells whether one of
    /// them was the leader's start signal.
    ClusterMessages { start_received: bool },
    /// Client messages were handled.
    ClientMessages,
}

/// What the server does next.
#[derive(Copy, Clone, Debug, PartialEq, Eq, Structural)]
pub enum StartupAction {
    /// Send the start signal for `start_ms` to the cluster and the clients,
    /// and stop waiting.
    StartExperiment { start_ms: i64 },
    /// Ask the log to make this server leader, send what it queued, and keep
    /// waiting.
    TryBecomeLeader,
    /// Stop waiting: the start signal arrived.
    Finish,
    /// Keep waiting.
    Wait,
}

/// The action of server `server_id` on `event`: the initial leader starts
/// the experiment two seconds ahead once it leads the log in the accept
/// phase, and otherwise tries to take leadership; any server stops waiting
/// once the start signal arrives.
pub fn startup_step(server_id: NodeId, event: StartupEvent) -> (a: StartupAction)
    ensures
        a == (match event {
            StartupEvent::TakeoverTick { current_leader, now_ms } => {
                if current_leader == Some((server_id, true)) {
                    StartupAction::StartExperiment { start_ms: clamp_i64(now_ms + EXPERIMENT_START_DELAY_MS) }
                } else {
                    StartupAction::TryBecomeLeader
                }
            },
            StartupEvent::ClusterMessages { start_received } => {
                if start_received {
                    StartupAction::Finish
                } else {
                    StartupAction::Wait
                }
            },
            StartupEvent::ClientMessages => StartupAction::Wait,
        }),
{
    match event {
        StartupEvent::TakeoverTick { current_leader, now_ms } => {
            match current_leader {
                Some((leader, accepting)) => {
                    if leader == server_id && accepting {
                        StartupAction::StartExperiment {
                            start_ms: crate::arith::saturating_add(now_ms, EXPERIMENT_START_DELAY_MS),
                        }
                    } else {
                        StartupAction::TryBecomeLeader
                    }
                },
                None => StartupAction::TryBecomeLeader,
            }
        },
        StartupEvent::ClusterMessages { start_received } => {
            if start_received {
                StartupAction::Finish
            } else {
                StartupAction::Wait
            }
        },
        StartupEvent::ClientMessages => StartupAction::Wait,
    }
}

} // verus!
