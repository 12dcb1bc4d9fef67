use caop_dom::dom::buffer::{EarlyBuffer, EarlyBufferInsertError};
use caop_dom::dom::owd_estimator::{
    estimate_from_window, EstimatorStrategy, OutgoingOwdTracker, OwdEstimator, OwdEstimatorConfig,
    OwdSample,
};
use caop_dom::benchmark::owd_csv::{dom_owd_rows, DomOwdMetric, DomOwdRow};
use caop_dom::dom::{Dom, DomOwdSnapshot, Role};
use caop_dom::errors::ConfigError;
use caop_dom::messages::sequence_paxos::{DomAck, DomPropose, EntryId};
use caop_dom::storage::Entry;
use caop_dom::util::PhysicalClock;
use std::cell::Cell;
use std::collections::VecDeque;

#[derive(Clone, Debug, PartialEq)]
struct Cmd(u64);

impl Entry for Cmd {
    type Snapshot = ();
}

struct FakeClock {
    time: Cell<i64>,
    uncertainty: Cell<i64>,
}

impl FakeClock {
    fn new(time: i64, uncertainty: i64) -> Self {
        FakeClock { time: Cell::new(time), uncertainty: Cell::new(uncertainty) }
    }
}

impl PhysicalClock for FakeClock {
    fn get_time(&self) -> i64 {
        self.time.get()
    }
    fn get_uncertainty(&self) -> i64 {
        self.uncertainty.get()
    }
    fn get_time_with_uncertainty(&self) -> (i64, i64) {
        (self.get_time(), self.get_uncertainty())
    }
}

fn prop(client: u64, command: usize, deadline: i64) -> DomPropose<Cmd> {
    DomPropose {
        entry_id: EntryId { client_id: client, command_id: command },
        sender: client,
        sent_time: (deadline - 100, 0),
        deadline,
        entry: Cmd(command as u64),
    }
}

fn ids(v: &[DomPropose<Cmd>]) -> Vec<usize> {
    v.iter().map(|p| p.entry_id.command_id).collect()
}

#[test]
fn early_buffer_releases_in_deadline_then_id_order() {
    let mut b = EarlyBuffer::new();
    assert!(b.insert(prop(1, 3, 30)).is_ok());
    assert!(b.insert(prop(2, 1, 10)).is_ok());
    assert!(b.insert(prop(1, 2, 10)).is_ok());
    assert_eq!(b.peek().unwrap().entry_id.command_id, 2);
    assert!(b.pop_ready(9).is_none());
    let first = b.pop_ready(10).unwrap();
    assert_eq!((first.entry_id.client_id, first.entry_id.command_id), (1, 2));
    assert_eq!(b.last_released_deadline(), Some(10));
    assert_eq!(b.pop().unwrap().entry_id.command_id, 1);
    assert_eq!(b.pop().unwrap().entry_id.command_id, 3);
    assert!(b.pop().is_none());
    assert_eq!(b.last_released_deadline(), Some(30));
}

#[test]
fn early_buffer_refuses_late_proposals() {
    let mut b = EarlyBuffer::new();
    b.insert(prop(1, 5, 50)).unwrap();
    b.pop();
    match b.insert(prop(1, 4, 50)) {
        Err(EarlyBufferInsertError::Late(p)) => assert_eq!(p.entry_id.command_id, 4),
        Ok(()) => panic!("a proposal at the released key is late"),
    }
    assert!(b.insert(prop(1, 6, 50)).is_ok());
    assert!(b.is_late(&prop(0, 1, 49)));
}

#[test]
fn early_buffer_remove_takes_every_copy_of_an_id() {
    let mut b = EarlyBuffer::new();
    b.insert(prop(1, 1, 10)).unwrap();
    b.insert(prop(1, 2, 20)).unwrap();
    b.insert(prop(1, 1, 30)).unwrap();
    let removed = b.remove(EntryId { client_id: 1, command_id: 1 }).unwrap();
    assert_eq!(removed.deadline, 30);
    assert_eq!(b.len(), 1);
    assert!(b.remove(EntryId { client_id: 9, command_id: 9 }).is_none());
}

fn sample(owd: i64, su: i64, ru: i64) -> OwdSample {
    OwdSample::new(1000, 1000 + owd, su, ru)
}

#[test]
fn owd_sample_counts_negative_values_as_zero() {
    let s = OwdSample::new(500, 400, -3, 2);
    assert_eq!(s.measured_owd, 0);
    assert_eq!(s.sender_uncertainty, 0);
    assert_eq!(s.uncertainty_sum(), 2);
}

#[test]
fn percentile_estimate_takes_the_ranked_delay_plus_margin() {
    let mut w = VecDeque::new();
    for d in [50, 10, 40, 20] {
        w.push_back(sample(d, 0, 0));
    }
    w.push_back(sample(30, 1, 2));
    let strategy = EstimatorStrategy::Percentile { ranks: vec![0, 1, 1, 2, 2] };
    // Sorted: 10 20 30 40 50; rank for 5 samples is 2 -> 30; margin 3 * (1 + 2) = 9.
    assert_eq!(estimate_from_window(&w, &strategy, 3, 1000), 39);
    // Above the maximum the maximum is used.
    assert_eq!(estimate_from_window(&w, &strategy, 3, 35), 35);
}

#[test]
fn moving_average_and_fixed_estimates() {
    let mut w = VecDeque::new();
    for d in [10, 20, 31] {
        w.push_back(sample(d, 0, 0));
    }
    assert_eq!(estimate_from_window(&w, &EstimatorStrategy::MovingAverage, 3, 1000), 20);
    assert_eq!(estimate_from_window(&w, &EstimatorStrategy::Fixed, 3, 1000), 1000);
    let mut zero = VecDeque::new();
    zero.push_back(sample(0, 0, 0));
    // A non-positive estimate gives the maximum.
    assert_eq!(estimate_from_window(&zero, &EstimatorStrategy::MovingAverage, 3, 77), 77);
}

#[test]
fn estimator_slides_its_window() {
    let config = OwdEstimatorConfig::new(2, 1000, 0, EstimatorStrategy::MovingAverage).unwrap();
    let mut e = OwdEstimator::with_config(config);
    assert_eq!(e.estimate_for(4), 1000);
    e.update(4, sample(100, 0, 0));
    assert_eq!(e.estimate_for(4), 100);
    e.update(4, sample(200, 0, 0));
    assert_eq!(e.estimate_for(4), 150);
    e.update(4, sample(400, 0, 0));
    assert_eq!(e.estimate_for(4), 300);
    assert_eq!(e.estimates_snapshot().len(), 1);
    assert!(e.can_update(4, &sample(5, 0, 0)));
}

#[test]
fn estimator_config_validation_reports_the_first_broken_rule() {
    let msg = |r: Result<OwdEstimatorConfig, ConfigError>| match r {
        Err(ConfigError::InvalidConfig(m)) => m,
        Ok(_) => String::from("ok"),
    };
    assert_eq!(msg(OwdEstimatorConfig::new(0, -1, 0, EstimatorStrategy::Fixed)), "window_size must be > 0");
    assert_eq!(msg(OwdEstimatorConfig::new(3, -1, 0, EstimatorStrategy::Fixed)), "max_owd must be >= 0");
    assert_eq!(msg(OwdEstimatorConfig::new(3, 1, -2, EstimatorStrategy::Fixed)), "uncertainty_beta must be >= 0");
    assert_eq!(
        msg(OwdEstimatorConfig::new(2, 1, 2, EstimatorStrategy::Percentile { ranks: vec![0, 2] })),
        "percentile ranks must cover the window"
    );
    assert_eq!(msg(OwdEstimatorConfig::new(2, 1, 2, EstimatorStrategy::Percentile { ranks: vec![0, 1] })), "ok");
    let d = OwdEstimatorConfig::default();
    assert_eq!((d.window_size, d.max_owd(), d.uncertainty_beta), (10, 10_000, 3));
    assert!(d.validate().is_ok());
}

#[test]
fn outgoing_tracker_reports_the_largest_estimate() {
    let mut t = OutgoingOwdTracker::new(500);
    assert_eq!(t.get_max_owd(), 500);
    t.update(2, 40);
    t.update(3, -7);
    t.update(4, 90);
    assert_eq!(t.get_max_owd(), 90);
    assert_eq!(t.get(3), 0);
    assert_eq!(t.get(9), 500);
}

#[test]
fn dom_deadline_is_send_time_plus_largest_reported_delay() {
    let clock = FakeClock::new(1_000, 5);
    let mut dom: Dom<Cmd, FakeClock> = Dom::new(OwdEstimatorConfig::default(), &clock, 1);
    let p = dom.create_dom_propose(Cmd(1), EntryId { client_id: 1, command_id: 1 }).unwrap();
    assert_eq!(p.deadline, 1_000 + 10_000);
    dom.handle_dom_ack(DomAck { sender: 2, estimated_owd: 300 });
    dom.handle_dom_ack(DomAck { sender: 3, estimated_owd: 200 });
    assert_eq!(dom.get_deadline(50), Some(350));
    assert_eq!(dom.owd_snapshot().max_outgoing_estimate, 300);
    assert_eq!(dom.get_deadline(i64::MAX), None);
}

#[test]
fn dom_releases_ready_proposals_and_extends_late_ones_at_the_leader() {
    let clock = FakeClock::new(0, 0);
    let mut dom: Dom<Cmd, FakeClock> = Dom::new(OwdEstimatorConfig::default(), &clock, 1);
    let ack = dom.handle_dom_propose(prop(2, 1, 100), Role::Follower).unwrap();
    assert_eq!(ack.sender, 1);
    dom.handle_dom_propose(prop(3, 2, 200), Role::Follower).unwrap();
    clock.time.set(150);
    assert_eq!(ids(&dom.release_ready()), vec![1]);
    // Late at a follower: dropped.
    dom.handle_dom_propose(prop(4, 3, 90), Role::Follower).unwrap();
    clock.time.set(160);
    clock.uncertainty.set(7);
    // Late at the leader: deadline becomes max(160 + 7, 100 + 1000).
    dom.handle_dom_propose(prop(4, 4, 90), Role::Leader).unwrap();
    clock.time.set(5_000);
    clock.uncertainty.set(0);
    let released = dom.release_ready();
    assert_eq!(ids(&released), vec![2, 4]);
    assert_eq!(released[1].deadline, 1_100);
}

#[test]
fn dom_extends_to_the_uncertainty_end_when_that_is_later() {
    let clock = FakeClock::new(0, 0);
    let mut dom: Dom<Cmd, FakeClock> = Dom::new(OwdEstimatorConfig::default(), &clock, 1);
    dom.handle_dom_propose(prop(2, 1, 10), Role::Leader).unwrap();
    clock.time.set(20);
    dom.release_ready();
    let extended = dom.extend_deadline_at(prop(2, 9, 5), (9_000, 40));
    assert_eq!(extended.deadline, 9_040);
    assert_eq!(dom.remove_from_buffers(EntryId { client_id: 2, command_id: 9 }).map(|p| p.deadline), None);
}

#[test]
fn dom_ack_carries_the_senders_new_estimate() {
    let clock = FakeClock::new(1_000, 2);
    let config = OwdEstimatorConfig::new(4, 10_000, 1, EstimatorStrategy::MovingAverage).unwrap();
    let mut dom: Dom<Cmd, FakeClock> = Dom::new(config, &clock, 7);
    let mut p = prop(3, 1, 5_000);
    p.sent_time = (900, 3);
    let ack = dom.handle_dom_propose(p, Role::Follower).unwrap();
    // Delay 100 plus 1 * (3 + 2).
    assert_eq!(ack, DomAck { sender: 7, estimated_owd: 105 });
}

#[test]
fn dom_release_start_beyond_the_integer_range() {
    let clock = FakeClock::new(0, 0);
    let mut dom: Dom<Cmd, FakeClock> = Dom::new(OwdEstimatorConfig::default(), &clock, 1);
    dom.handle_dom_propose(prop(2, 1, 100), Role::Follower).unwrap();
    dom.handle_dom_propose(prop(3, 2, i64::MAX), Role::Follower).unwrap();
    // The start of the uncertainty interval lies below i64::MIN: nothing is due.
    clock.time.set(i64::MIN);
    clock.uncertainty.set(1);
    assert!(dom.release_ready().is_empty());
    // It lies above i64::MAX: everything is due.
    clock.time.set(i64::MAX);
    clock.uncertainty.set(-1);
    assert_eq!(ids(&dom.release_ready()), vec![1, 2]);
}

#[test]
fn dom_propose_sample_that_cannot_be_measured_is_refused() {
    let clock = FakeClock::new(i64::MAX, 0);
    let mut dom: Dom<Cmd, FakeClock> = Dom::new(OwdEstimatorConfig::default(), &clock, 1);
    let mut p = prop(2, 1, 100);
    p.sent_time = (-10, 0);
    assert!(dom.handle_dom_propose(p, Role::Follower).is_none());
    assert!(dom.release_ready().is_empty());
}

#[test]
fn owd_rows_list_the_maximum_then_each_estimate_once() {
    let mut incoming = std::collections::HashMap::new();
    incoming.insert(2u64, 40i64);
    incoming.insert(3u64, 70i64);
    let mut outgoing = std::collections::HashMap::new();
    outgoing.insert(2u64, 55i64);
    let snapshot = DomOwdSnapshot { incoming_estimates: incoming, outgoing_estimates: outgoing, max_outgoing_estimate: 55 };
    let rows = dom_owd_rows(&snapshot, 1_000, 1);
    assert_eq!(rows.len(), 4);
    assert_eq!(
        rows[0],
        DomOwdRow { timestamp_ms: 1_000, server_id: 1, metric: DomOwdMetric::MaxOutgoing, peer_id: None, owd_us: 55 }
    );
    let mut incoming_rows: Vec<(Option<u64>, i64)> = rows[1..3].iter().map(|r| (r.peer_id, r.owd_us)).collect();
    incoming_rows.sort();
    assert_eq!(incoming_rows, vec![(Some(2), 40), (Some(3), 70)]);
    assert!(rows[1..3].iter().all(|r| r.metric == DomOwdMetric::Incoming));
    assert_eq!(rows[3].metric, DomOwdMetric::Outgoing);
    assert_eq!((rows[3].peer_id, rows[3].owd_us), (Some(2), 55));
    assert_eq!(DomOwdMetric::MaxOutgoing.as_str(), "max_outgoing");
    assert_eq!(DomOwdMetric::Incoming.as_str(), "incoming");
    assert_eq!(DomOwdMetric::Outgoing.as_str(), "outgoing");
}

#[test]
fn outgoing_estimates_stay_non_negative() {
    let mut t = OutgoingOwdTracker::new(-5);
    assert_eq!(t.get_max_owd(), -5);
    t.update(2, -40);
    t.update(3, -1);
    assert_eq!(t.get(2), 0);
    assert_eq!(t.get_max_owd(), 0);
}
