//! The rows of a server's one-way-delay CSV: one for the largest outgoing
//! estimate, then one per incoming and one per outgoing estimate.

use vstd::prelude::*;
use vstd::std_specs::iter::IteratorSpec;
use std::collections::HashMap;
use crate::dom::DomOwdSnapshot;
use crate::util::NodeId;

verus! {

broadcast use vstd::std_specs::hash::group_hash_axioms;

/// What a row of the delay CSV measures.
#[derive(Copy, Clone, Debug, PartialEq, Eq, Structural)]
pub enum DomOwdMetric {
    /// The largest delay that peers reported for this server's messages.
    MaxOutgoing,
    /// This server's estimate of a peer's delay to it.
    Incoming,
    /// A peer's estimate of this server's delay to it.
    Outgoing,
}

impl DomOwdMetric {
    /// The name of the metric in the CSV.
    pub fn as_str(self) -> (s: &'static str)
        ensures
            self == DomOwdMetric::MaxOutgoing ==> s@ == "max_outgoing"@,
            self == DomOwdMetric::Incoming ==> s@ == "incoming"@,
            self == DomOwdMetric::Outgoing ==> s@ == "outgoing"@,
    {
        match self {
            DomOwdMetric::MaxOutgoing => "max_outgoing",
            DomOwdMetric::Incoming => "incoming",
            DomOwdMetric::Outgoing => "outgoing",
        }
    }
}

/// A row of the delay CSV.
#[derive(Copy, Clone, Debug, PartialEq, Eq, Structural)]
pub struct DomOwdRow {
    /// When the snapshot was taken, in milliseconds since the Unix epoch.
    pub timestamp_ms: i64,
    /// The server that took it.
    pub server_id: NodeId,
    /// What the row measures.
    pub metric: DomOwdMetric,
    /// The peer the estimate is about, where there is one.
    pub peer_id: Option<NodeId>,
    /// The delay in microseconds.
    pub owd_us: i64,
}

/// The row of the estimate `owd` of `peer`.
pub open spec fn estimate_row(timestamp_ms: i64, server_id: NodeId, metric: DomOwdMetric, peer: NodeId, owd: i64) -> DomOwdRow {
    DomOwdRow { timestamp_ms, server_id, metric, peer_id: Some(peer), owd_us: owd }
}

/// The rows of the estimates in `m`, one per peer.
pub open spec fn estimate_rows(m: Map<NodeId, i64>, timestamp_ms: i64, server_id: NodeId, metric: DomOwdMetric) -> Set<DomOwdRow> {
    Set::new(
        |r: DomOwdRow|
            exists|p: NodeId| m.contains_key(p) && r == #[trigger] estimate_row(timestamp_ms, server_id, metric, p, m[p]),
    )
}

/// Appends one row per estimate of `m`, in the order the map is walked.
fn push_estimate_rows(
    rows: &mut Vec<DomOwdRow>,
    m: &HashMap<NodeId, i64>,
    timestamp_ms: i64,
    server_id: NodeId,
    metric: DomOwdMetric,
)
    ensures
        final(rows)@.len() == old(rows)@.len() + m@.len(),
        final(rows)@.take(old(rows)@.len() as int) == old(rows)@,
        final(rows)@.skip(old(rows)@.len() as int).no_duplicates(),
        final(rows)@.skip(old(rows)@.len() as int).to_set() == estimate_rows(m@, timestamp_ms, server_id, metric),
{
    let ghost start = rows@;
    let ghost keys: Seq<NodeId> = vstd::std_specs::hash::spec_keys_iter(m).remaining().unref();
    proof {
        vstd::std_specs::hash::axiom_spec_keys_iter(m);
    }
    let ghost mut n: int = 0;
    for k in it: m.keys()
        invariant
            keys == it.seq().unref(),
            n == it.index(),
            keys.to_set() == m@.dom(),
            keys.no_duplicates(),
            rows@.len() == start.len() + n,
            rows@.take(start.len() as int) == start,
            forall|j: int| 0 <= j < n ==> #[trigger] rows@[start.len() + j] == estimate_row(timestamp_ms, server_id, metric, keys[j], m@[keys[j]]),
    {
        proof {
            assert(keys[n] == *k);
            assert(keys.to_set().contains(keys[n]));
        }
        let owd = match m.get(k) {
            Some(v) => *v,
            None => 0,
        };
        rows.push(DomOwdRow { timestamp_ms, server_id, metric, peer_id: Some(*k), owd_us: owd });
        proof {
            assert(rows@.take(start.len() as int) =~= start);
            n = n + 1;
        }
    }
    proof {
        let tail = rows@.skip(start.len() as int);
        assert(n == keys.len());
        assert(keys.len() == m@.dom().len());
        assert forall|j: int| 0 <= j < tail.len() implies #[trigger] tail[j] == estimate_row(timestamp_ms, server_id, metric, keys[j], m@[keys[j]]) by {
            assert(tail[j] == rows@[start.len() + j]);
        }
        assert forall|i: int, j: int| 0 <= i < tail.len() && 0 <= j < tail.len() && i != j implies tail[i] != tail[j] by {
            assert(tail[i].peer_id == Some(keys[i]));
            assert(tail[j].peer_id == Some(keys[j]));
        }
        let want = estimate_rows(m@, timestamp_ms, server_id, metric);
        assert forall|r: DomOwdRow| tail.to_set().contains(r) <==> want.contains(r) by {
            if tail.to_set().contains(r) {
                let j = choose|j: int| 0 <= j < tail.len() && tail[j] == r;
                assert(keys.to_set().contains(keys[j]));
                assert(r == estimate_row(timestamp_ms, server_id, metric, keys[j], m@[keys[j]]));
            }
            if want.contains(r) {
                let p = choose|p: NodeId| m@.contains_key(p) && r == #[trigger] estimate_row(timestamp_ms, server_id, metric, p, m@[p]);
                assert(keys.to_set().contains(p));
                let j = choose|j: int| 0 <= j < keys.len() && keys[j] == p;
                assert(tail[j] == r);
            }
        }
        assert(tail.to_set() =~= want);
    }
}

/// The rows of the delay CSV for a snapshot taken at `timestamp_ms` by
/// `server_id`: first the largest outgoing estimate, with no peer; then each
/// incoming estimate once; then each outgoing estimate once. The order within
/// each group is that in which the estimates are walked.
pub fn dom_owd_rows(snapshot: &DomOwdSnapshot, timestamp_ms: i64, server_id: NodeId) -> (rows: Vec<DomOwdRow>)
    ensures
        rows@.len() == 1 + snapshot.incoming_estimates@.len() + snapshot.outgoing_estimates@.len(),
        rows@[0] == (DomOwdRow {
            timestamp_ms,
            server_id,
            metric: DomOwdMetric::MaxOutgoing,
            peer_id: None,
            owd_us: snapshot.max_outgoing_estimate,
        }),
        ({
            let n_in = snapshot.incoming_estimates@.len() as int;
            let incoming = rows@.subrange(1, 1 + n_in);
            let outgoing = rows@.skip(1 + n_in);
            &&& incoming.no_duplicates()
            &&& incoming.to_set() == estimate_rows(snapshot.incoming_estimates@, timestamp_ms, server_id, DomOwdMetric::Incoming)
            &&& outgoing.no_duplicates()
            &&& outgoing.to_set() == estimate_rows(snapshot.outgoing_estimates@, timestamp_ms, server_id, DomOwdMetric::Outgoing)
        }),
{
    let mut rows: Vec<DomOwdRow> = Vec::new();
    rows.push(DomOwdRow {
        timestamp_ms,
        server_id,
        metric: DomOwdMetric::MaxOutgoing,
        peer_id: None,
        owd_us: snapshot.max_outgoing_estimate,
    });
    let ghost r1 = rows@;
    push_estimate_rows(&mut rows, &snapshot.incoming_estimates, timestamp_ms, server_id, DomOwdMetric::Incoming);
    let ghost r2 = rows@;
    push_estimate_rows(&mut rows, &snapshot.outgoing_estimates, timestamp_ms, server_id, DomOwdMetric::Outgoing);
    proof {
        let n_in = snapshot.incoming_estimates@.len() as int;
        assert(rows@[0] == r2[0]);
        assert(r2[0] == r1[0]);
        assert(rows@.subrange(1, 1 + n_in) =~= r2.skip(1));
        assert(rows@.skip(1 + n_in) =~= rows@.skip(r2.len() as int));
    }
    rows
}

} // verus!
