//! What the replicated log stores.

use vstd::prelude::*;
use vstd::std_specs::cmp::PartialEqSpecImpl;
use crate::util::{ConfigurationId, FlexibleQuorum, NodeId};

verus! {

/// An entry of the replicated log. Users of the library implement it for
/// their command type; `Snapshot` is the type that compacted prefixes are
/// turned into.
pub trait Entry: Clone + Sized + std::fmt::Debug {
    /// The snapshot type of this entry type.
    type Snapshot: Clone + std::fmt::Debug;
}

/// A snapshot of a compacted log prefix.
#[derive(Clone, Debug)]
pub enum SnapshotType<T: Entry> {
    /// A snapshot of the whole decided log.
    Complete(T::Snapshot),
    /// A snapshot of the changes since the previous snapshot.
    Delta(T::Snapshot),
}

/// The configuration of a cluster: its id, its nodes and its quorum sizes.
#[derive(Clone, Debug)]
pub struct ClusterConfig {
    /// The identifier of the configuration.
    pub configuration_id: ConfigurationId,
    /// The nodes of the cluster.
    pub nodes: Vec<NodeId>,
    /// The quorum sizes, where they are not majorities.
    pub flexible_quorum: Option<FlexibleQuorum>,
}

/// A request to stop the current configuration and move to the next one.
#[derive(Clone, Debug)]
pub struct StopSign {
    /// The configuration that follows.
    pub next_config: ClusterConfig,
    /// Metadata handed on to the next configuration.
    pub metadata: Option<Vec<u8>>,
}

/// Whether two sequences of node ids hold the same ids in the same order.
fn same_nodes(a: &Vec<NodeId>, b: &Vec<NodeId>) -> (r: bool)
    ensures
        r == (a@ == b@),
{
    if a.len() != b.len() {
        return false;
    }
    let mut i: usize = 0;
    while i < a.len()
        invariant
            a.len() == b.len(),
            i <= a.len(),
            forall|j: int| 0 <= j < i ==> a@[j] == b@[j],
        decreases a.len() - i,
    {
        if a[i] != b[i] {
            return false;
        }
        i = i + 1;
    }
    assert(a@ =~= b@);
    true
}

/// Whether two byte strings are equal.
fn same_bytes(a: &Vec<u8>, b: &Vec<u8>) -> (r: bool)
    ensures
        r == (a@ == b@),
{
    if a.len() != b.len() {
        return false;
    }
    let mut i: usize = 0;
    while i < a.len()
        invariant
            a.len() == b.len(),
            i <= a.len(),
            forall|j: int| 0 <= j < i ==> a@[j] == b@[j],
        decreases a.len() - i,
    {
        if a[i] != b[i] {
            return false;
        }
        i = i + 1;
    }
    assert(a@ =~= b@);
    true
}

impl ClusterConfig {
    /// Two configurations are equal when their ids, their node sequences and
    /// their quorum settings are.
    pub open spec fn same_as(&self, other: &ClusterConfig) -> bool {
        &&& self.configuration_id == other.configuration_id
        &&& self.nodes@ == other.nodes@
        &&& self.flexible_quorum == other.flexible_quorum
    }
}

impl PartialEq for ClusterConfig {
    fn eq(&self, other: &ClusterConfig) -> (r: bool) {
        let same_quorum = match (&self.flexible_quorum, &other.flexible_quorum) {
            (None, None) => true,
            (Some(a), Some(b)) => a.read_quorum_size == b.read_quorum_size && a.write_quorum_size
                == b.write_quorum_size,
            _ => false,
        };
        self.configuration_id == other.configuration_id && same_nodes(&self.nodes, &other.nodes)
            && same_quorum
    }
}

impl PartialEqSpecImpl for ClusterConfig {
    open spec fn obeys_eq_spec() -> bool {
        true
    }

    open spec fn eq_spec(&self, other: &ClusterConfig) -> bool {
        self.same_as(other)
    }
}

impl StopSign {
    /// Two stop signs are equal when their next configurations and their
    /// metadata are.
    pub open spec fn same_as(&self, other: &StopSign) -> bool {
        &&& self.next_config.same_as(&other.next_config)
        &&& match (self.metadata, other.metadata) {
            (None, None) => true,
            (Some(a), Some(b)) => a@ == b@,
            _ => false,
        }
    }
}

impl PartialEq for StopSign {
    fn eq(&self, other: &StopSign) -> (r: bool) {
        let same_metadata = match (&self.metadata, &other.metadata) {
            (None, None) => true,
            (Some(a), Some(b)) => same_bytes(a, b),
            _ => false,
        };
        self.next_config == other.next_config && same_metadata
    }
}

impl PartialEqSpecImpl for StopSign {
    open spec fn obeys_eq_spec() -> bool {
        true
    }

    open spec fn eq_spec(&self, other: &StopSign) -> bool {
        self.same_as(other)
    }
}

} // verus!
