use caop_dom::ballot::Ballot;
use caop_dom::benchmark::client_configs::request_delay_micros;
use caop_dom::benchmark::server_configs::{
    config_dir, dom_owd_csv_path, resolve_output_path_for_file, ClusterConfig, LocalConfig, OmniPaxosKVConfig,
};
use caop_dom::benchmark::startup::{startup_step, StartupAction, StartupEvent};
use caop_dom::benchmark::BenchmarkProtocol;
use caop_dom::clock::ClockConfig;
use caop_dom::dom::owd_estimator::OwdEstimatorConfig;
use caop_dom::messages::ballot_leader_election::{BLEMessage, HeartbeatMsg, HeartbeatRequest};
use caop_dom::messages::sequence_paxos::{DomAck, EntryId, PaxosMessage, PaxosMsg};
use caop_dom::messages::Message;
use caop_dom::promise::PromiseMetaData;
use caop_dom::storage::Entry;
use caop_dom::util::{
    nanos_to_i64, DOMHash, LogicalClock, MessageStatus, PhysicalClock, Quorum, SequenceNumber,
    SystemClock, FlexibleQuorum,
};

#[derive(Clone, Debug)]
struct Cmd;

impl Entry for Cmd {
    type Snapshot = ();
}

#[test]
fn dom_hash_is_deterministic_and_removal_undoes_extension() {
    let id = EntryId { client_id: 4, command_id: 2 };
    let a = DOMHash::with(id, 10);
    assert_eq!(a, DOMHash::with(id, 10));
    assert_ne!(a, DOMHash::with(id, 11));
    let b = DOMHash::with(EntryId { client_id: 5, command_id: 2 }, 10);
    let mut h = DOMHash::default();
    h.extend_hash(&a);
    h.extend_hash(&b);
    let mut h2 = DOMHash::default();
    h2.extend_hash(&b);
    h2.extend_hash(&a);
    assert_eq!(h, h2);
    h.remove_hash(&b);
    assert_eq!(h, a);
    h.remove_hash(&a);
    assert_eq!(h, DOMHash::default());
}

#[test]
fn sequence_number_statuses() {
    let last = SequenceNumber { session: 2, counter: 5 };
    assert!(last.check_msg_status(SequenceNumber { session: 2, counter: 6 }) == MessageStatus::Expected);
    assert!(last.check_msg_status(SequenceNumber { session: 2, counter: 5 }) == MessageStatus::Outdated);
    assert!(last.check_msg_status(SequenceNumber { session: 1, counter: 9 }) == MessageStatus::Outdated);
    assert!(last.check_msg_status(SequenceNumber { session: 2, counter: 8 }) == MessageStatus::DroppedPreceding);
    assert!(last.check_msg_status(SequenceNumber { session: 3, counter: 1 }) == MessageStatus::DroppedPreceding);
    assert_eq!(SequenceNumber::default(), SequenceNumber { session: 0, counter: 0 });
}

#[test]
fn logical_clock_times_out_every_timeout_ticks() {
    let mut c = LogicalClock::with(3);
    assert!(!c.tick_and_check_timeout());
    assert!(!c.tick_and_check_timeout());
    assert!(c.tick_and_check_timeout());
    assert!(!c.tick_and_check_timeout());
    assert!(!c.tick_and_check_timeout());
    assert!(c.tick_and_check_timeout());
}

#[test]
fn quorum_sizes() {
    let q = Quorum::with(None, 5);
    assert_eq!(q, Quorum::Majority(3));
    assert!(q.is_prepare_quorum(3) && !q.is_accept_quorum(2));
    let f = Quorum::with(Some(FlexibleQuorum { read_quorum_size: 4, write_quorum_size: 2 }), 5);
    assert!(!f.is_prepare_quorum(3) && f.is_prepare_quorum(4));
    assert!(f.is_accept_quorum(2));
    assert_eq!(Quorum::with(None, 4), Quorum::Majority(3));
}

#[test]
fn ballots_order_by_number_priority_and_pid() {
    let a = Ballot::with(1, 2, 0, 5);
    let b = Ballot::with(9, 2, 1, 1);
    assert!(b > a);
    assert!(Ballot::with(1, 3, 0, 1) > b);
    assert!(Ballot::with(7, 2, 0, 5).partial_cmp(&a) == Some(std::cmp::Ordering::Equal));
}

#[test]
fn promise_metadata_compares_round_then_log_length() {
    let m = |n: u32, idx: usize, pid: u64, dec: usize| PromiseMetaData {
        n_accepted: Ballot::with(1, n, 0, 1),
        accepted_idx: idx,
        decided_idx: dec,
        pid,
    };
    assert!(m(2, 1, 3, 0) > m(1, 9, 3, 0));
    assert!(m(2, 5, 3, 0) > m(2, 4, 3, 0));
    assert!(m(2, 5, 3, 0) == m(2, 5, 3, 9));
    assert!(m(2, 5, 4, 0) < m(2, 5, 3, 0));
    let d = PromiseMetaData::default();
    assert_eq!((d.accepted_idx, d.pid), (0, 0));
}

#[test]
fn message_sender_and_receiver() {
    let m: Message<Cmd> = Message::SequencePaxos(PaxosMessage {
        from: 3,
        to: 4,
        msg: PaxosMsg::DomAck(DomAck { sender: 3, estimated_owd: 1 }),
    });
    assert_eq!((m.get_sender(), m.get_receiver()), (3, 4));
    let b: Message<Cmd> = Message::BLE(BLEMessage {
        from: 8,
        to: 2,
        msg: HeartbeatMsg::Request(HeartbeatRequest { round: 1 }),
    });
    assert_eq!((b.get_sender(), b.get_receiver()), (8, 2));
}

#[test]
fn system_clock_reports_no_uncertainty() {
    let c = SystemClock;
    assert_eq!(c.get_uncertainty(), 0);
    let (t, u) = c.get_time_with_uncertainty();
    assert!(t > 0);
    assert_eq!(u, 0);
    assert_eq!(nanos_to_i64(u128::MAX), i64::MAX);
    assert_eq!(nanos_to_i64(3), 3);
}

#[test]
fn benchmark_protocol_names_and_fast_path() {
    assert_eq!(BenchmarkProtocol::CaOp.as_str(), "caop");
    assert_eq!(BenchmarkProtocol::Baseline.as_str(), "baseline");
    assert!(BenchmarkProtocol::CaOp.enable_fast_path());
    assert!(!BenchmarkProtocol::Baseline.enable_fast_path());
    assert_eq!(BenchmarkProtocol::default(), BenchmarkProtocol::CaOp);
}

fn kv_config(nodes: Vec<u64>) -> OmniPaxosKVConfig {
    OmniPaxosKVConfig {
        local: LocalConfig {
            location: None,
            protocol: BenchmarkProtocol::CaOp,
            server_id: 1,
            listen_address: String::from("0.0.0.0"),
            listen_port: 8000,
            num_clients: 1,
            output_filepath: String::from("out.json"),
            owd_config: OwdEstimatorConfig::default(),
            clock: ClockConfig::default(),
        },
        cluster: ClusterConfig {
            nodes,
            node_addrs: vec![],
            initial_leader: 1,
            initial_flexible_quorum: None,
        },
    }
}

#[test]
fn peers_are_the_other_nodes_in_order() {
    let c = kv_config(vec![1, 2, 3, 2]);
    assert_eq!(c.get_peers(2), vec![1, 3]);
    assert_eq!(c.get_peers(9), vec![1, 2, 3, 2]);
}

#[test]
fn output_paths_resolve_against_the_config_directory() {
    assert_eq!(OmniPaxosKVConfig::resolve_output_path("/etc/x", "/tmp/out.json"), "/tmp/out.json");
    assert_eq!(OmniPaxosKVConfig::resolve_output_path("/etc/x", "out.json"), "/etc/x/out.json");
}

#[test]
fn request_delay_paces_the_client() {
    assert_eq!(request_delay_micros(0), 999_999_000_000);
    assert_eq!(request_delay_micros(1_000), 1_000);
    assert_eq!(request_delay_micros(3), 333_333);
    assert_eq!(request_delay_micros(1_000_000), 1);
}

#[test]
fn baseline_reports_every_decision_as_slow() {
    assert_eq!(BenchmarkProtocol::Baseline.decision_counts(5, 3, 10), (0, 10));
    assert_eq!(BenchmarkProtocol::Baseline.decision_counts(5, 12, 10), (0, 12));
    assert_eq!(BenchmarkProtocol::CaOp.decision_counts(5, 3, 10), (5, 3));
}

#[test]
fn output_paths_resolve_against_the_config_files_directory() {
    assert_eq!(config_dir("/etc/x/server.toml"), "/etc/x");
    assert_eq!(config_dir("/"), ".");
    assert_eq!(resolve_output_path_for_file("/etc/x/server.toml", "out.json"), "/etc/x/out.json");
    assert_eq!(resolve_output_path_for_file("/etc/x/server.toml", "/tmp/out.json"), "/tmp/out.json");
    assert_eq!(resolve_output_path_for_file("/", "out.json"), "./out.json");
    assert_eq!(resolve_output_path_for_file("server.toml", "out.json"), "out.json");
}

#[test]
fn logical_clock_times_out_on_multiples_of_the_timeout() {
    let mut c = LogicalClock::with(3);
    let seen: Vec<bool> = (0..7).map(|_| c.tick_and_check_timeout()).collect();
    assert_eq!(seen, vec![false, false, true, false, false, true, false]);
    let mut never = LogicalClock::with(0);
    assert!((0..10).all(|_| !never.tick_and_check_timeout()));
}

#[test]
fn replica_settings_follow_the_server_configuration() {
    let leader = kv_config(vec![1, 2, 3]);
    assert!(leader.is_initial_leader());
    let s = leader.into_replica_settings();
    assert_eq!(s.cluster_config.configuration_id, 1);
    assert_eq!(s.cluster_config.nodes, vec![1, 2, 3]);
    assert_eq!(s.cluster_config.flexible_quorum, None);
    assert_eq!((s.pid, s.leader_priority, s.enable_fast_path), (1, 1, true));
    let mut follower = kv_config(vec![1, 2, 3]);
    follower.local.server_id = 2;
    follower.local.protocol = BenchmarkProtocol::Baseline;
    assert!(!follower.is_initial_leader());
    let s = follower.into_replica_settings();
    assert_eq!((s.pid, s.leader_priority, s.enable_fast_path), (2, 0, false));
}

#[test]
fn startup_waits_for_the_leader_then_starts_two_seconds_ahead() {
    let tick = |current_leader| StartupEvent::TakeoverTick { current_leader, now_ms: 10_000 };
    assert_eq!(startup_step(1, tick(None)), StartupAction::TryBecomeLeader);
    assert_eq!(startup_step(1, tick(Some((1, false)))), StartupAction::TryBecomeLeader);
    assert_eq!(startup_step(1, tick(Some((2, true)))), StartupAction::TryBecomeLeader);
    assert_eq!(startup_step(1, tick(Some((1, true)))), StartupAction::StartExperiment { start_ms: 12_000 });
    assert_eq!(
        startup_step(2, StartupEvent::ClusterMessages { start_received: true }),
        StartupAction::Finish
    );
    assert_eq!(
        startup_step(2, StartupEvent::ClusterMessages { start_received: false }),
        StartupAction::Wait
    );
    assert_eq!(startup_step(2, StartupEvent::ClientMessages), StartupAction::Wait);
}

#[test]
fn owd_csv_path_sits_beside_the_output() {
    assert_eq!(dom_owd_csv_path("/res/run-0/server-1.json"), Some(String::from("/res/run-0/server-1-owd.csv")));
    assert_eq!(dom_owd_csv_path("server-2.json"), Some(String::from("server-2-owd.csv")));
    assert_eq!(dom_owd_csv_path("/"), None);
}
