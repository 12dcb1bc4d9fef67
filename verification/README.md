# caop_dom

Verified building blocks of Clock-Assisted OmniPaxos: the deadline-ordered
multicast (DOM) layer that lets followers accept proposals on a one-RTT fast
path, the leader's bookkeeping of promises and accepted entries, the
simulated physical clock of the benchmark servers, and the benchmark
configuration logic.

Everything under `src/` is checked by Verus:

- `dom/` — the early buffer that releases proposals in deadline order, the
  one-way-delay estimators, and the DOM replica that ties them together.
- `leader_state.rs` — promises, accepted indexes, unsynced-log recovery and
  the fast/slow accepted map of a leader.
- `util.rs`, `ballot.rs`, `promise.rs`, `storage.rs`, `messages/` — the
  identifiers, hashes, quorums, ballots and messages of the protocol.
- `clock.rs` — the simulated clock: drift, offset, clamping into
  `true time ± uncertainty`, monotonic readings and periodic resync.
- `benchmark/` — protocol selection, peers, output paths and request pacing.

`app/` holds the unverified edges: the command-line entry points, the
mutex-guarded clock used by a server, and loading configurations with
`serde` and `config`.
