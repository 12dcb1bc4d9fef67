//! The benchmark harness's own logic: the protocol under test, the server
//! and client configurations, and the request pacing.

pub mod server_configs;
pub mod client_configs;
pub mod owd_csv;
pub mod startup;

use vstd::prelude::*;

verus! {

/// The protocol that a benchmark runs.
#[derive(Copy, Clone, Debug, PartialEq, Eq, Structural)]
pub enum BenchmarkProtocol {
    /// Clock-assisted OmniPaxos, with the fast path.
    CaOp,
    /// Upstream OmniPaxos.
    Baseline,
}

impl BenchmarkProtocol {
    /// The protocol used where the configuration names none.
    pub fn default() -> (p: Self)
        ensures
            p == BenchmarkProtocol::CaOp,
    {
        BenchmarkProtocol::CaOp
    }

    /// The name of the protocol in configurations and outputs.
    pub fn as_str(self) -> (s: &'static str)
        ensures
            self == BenchmarkProtocol::CaOp ==> s@ == "caop"@,
            self == BenchmarkProtocol::Baseline ==> s@ == "baseline"@,
    {
        match self {
            BenchmarkProtocol::CaOp => "caop",
            BenchmarkProtocol::Baseline => "baseline",
        }
    }

    /// Whether the protocol takes the fast path.
    pub fn enable_fast_path(self) -> (r: bool)
        ensures
            r == (self == BenchmarkProtocol::CaOp),
    {
        match self {
            BenchmarkProtocol::CaOp => true,
            BenchmarkProtocol::Baseline => false,
        }
    }

    /// The decisions a server reports as taken on the fast and on the slow
    /// path, from the counters of the replicated log (`fast`, `slow`) and its
    /// decided index. The baseline protocol has no fast path: every decision
    /// counts as slow, and there are at least as many as the decided index.
    pub fn decision_counts(self, fast: u64, slow: u64, decided_idx: u64) -> (r: (u64, u64))
        ensures
            self == BenchmarkProtocol::Baseline ==> r == (0u64, if decided_idx >= slow {
                decided_idx
            } else {
                slow
            }),
            self == BenchmarkProtocol::CaOp ==> r == (fast, slow),
    {
        match self {
            BenchmarkProtocol::Baseline => {
                let decided = if decided_idx >= slow {
                    decided_idx
                } else {
                    slow
                };
                (0, decided)
            },
            BenchmarkProtocol::CaOp => (fast, slow),
        }
    }
}

} // verus!
