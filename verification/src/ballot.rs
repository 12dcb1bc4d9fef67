//! Ballots: the rounds of leader election, ordered by number, priority and
//! process id.

use vstd::prelude::*;
use core::cmp::Ordering;
use crate::util::{ConfigurationId, NodeId};

verus! {

/// Used to define a Sequence Paxos epoch
#[derive(Clone, Copy, Debug, PartialEq, Eq, Structural, Hash)]
pub struct Ballot {
    /// The identifier for the configuration that the replica with this ballot is part of.
    pub config_id: ConfigurationId,
    /// Ballot number
    pub n: u32,
    /// Custom priority parameter
    pub priority: u32,
    /// The pid of the process
    pub pid: NodeId,
}

/// `a` comes before `b`: by number, then priority, then process id; the
/// configuration id plays no part.
pub open spec fn ballot_lt(a: Ballot, b: Ballot) -> bool {
    a.n < b.n || (a.n == b.n && (a.priority < b.priority || (a.priority == b.priority && a.pid < b.pid)))
}

impl Ballot {
    /// Creates a new Ballot
    pub fn with(config_id: ConfigurationId, n: u32, priority: u32, pid: NodeId) -> (b: Ballot)
        ensures
            b == (Ballot { config_id, n, priority, pid }),
    {
        Ballot { config_id, n, priority, pid }
    }

    /// The ballot with every field zero.
    pub fn default() -> (b: Ballot)
        ensures
            b == (Ballot { config_id: 0, n: 0, priority: 0, pid: 0 }),
    {
        Ballot { config_id: 0, n: 0, priority: 0, pid: 0 }
    }

    /// Whether `self` comes after `other`.
    pub fn is_greater(&self, other: &Ballot) -> (r: bool)
        ensures
            r == ballot_lt(*other, *self),
    {
        self.n > other.n || (self.n == other.n && (self.priority > other.priority || (self.priority
            == other.priority && self.pid > other.pid)))
    }
}

impl PartialOrd for Ballot {
    fn partial_cmp(&self, other: &Ballot) -> (r: Option<Ordering>) {
        if self.is_greater(other) {
            Some(Ordering::Greater)
        } else if other.is_greater(self) {
            Some(Ordering::Less)
        } else {
            Some(Ordering::Equal)
        }
    }
}

impl vstd::std_specs::cmp::PartialOrdSpecImpl for Ballot {
    open spec fn obeys_partial_cmp_spec() -> bool {
        true
    }

    open spec fn partial_cmp_spec(&self, other: &Ballot) -> Option<Ordering> {
        if ballot_lt(*other, *self) {
            Some(Ordering::Greater)
        } else if ballot_lt(*self, *other) {
            Some(Ordering::Less)
        } else {
            Some(Ordering::Equal)
        }
    }
}

} // verus!
