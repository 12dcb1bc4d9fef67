use caop_dom::ballot::Ballot;
use caop_dom::leader_state::LeaderState;
use caop_dom::messages::sequence_paxos::{AcceptedEntryMeta, EntryId, Promise};
use caop_dom::storage::Entry;
use caop_dom::util::{DOMHash, LogSync, Quorum, UnsyncedLogEntry};
use std::collections::HashMap;

#[derive(Clone, Debug, PartialEq)]
struct Value(u64);

impl Entry for Value {
    type Snapshot = ();
}

type Unit = Value;

#[test]
fn preparable_peers_test() {
    let nodes = vec![6, 7, 8];
    let quorum = Quorum::Majority(2);
    let max_pid = 8;
    let leader_state =
        LeaderState::<Unit>::with(Ballot::with(1, 1, 1, max_pid), max_pid as usize, quorum);
    let prep_peers = leader_state.get_preparable_peers(&nodes);
    assert_eq!(prep_peers, nodes);

    let nodes = vec![7, 1, 100, 4, 6];
    let quorum = Quorum::Majority(3);
    let max_pid = 100;
    let leader_state =
        LeaderState::<Unit>::with(Ballot::with(1, 1, 1, max_pid), max_pid as usize, quorum);
    let prep_peers = leader_state.get_preparable_peers(&nodes);
    assert_eq!(prep_peers, nodes);
}

#[test]
fn pending_accept_meta_queue_preserves_order() {
    let quorum = Quorum::Majority(2);
    let mut leader_state = LeaderState::<Unit>::with(Ballot::with(1, 1, 1, 3), 3, quorum);
    let meta_1 = AcceptedEntryMeta {
        entry_id: EntryId {
            client_id: 7,
            command_id: 1,
        },
        deadline: 11,
    };
    let meta_2 = AcceptedEntryMeta {
        entry_id: EntryId {
            client_id: 7,
            command_id: 2,
        },
        deadline: 12,
    };

    leader_state.push_pending_accept_meta(meta_1);
    leader_state.push_pending_accept_meta(meta_2);

    assert_eq!(leader_state.take_pending_accept_meta(1), vec![meta_1]);
    assert_eq!(leader_state.take_pending_accept_meta(1), vec![meta_2]);
}

fn promise(n_accepted: Ballot, accepted_idx: usize, decided_idx: usize) -> Promise<Value> {
    Promise {
        n: Ballot::with(1, 5, 0, 1),
        n_accepted,
        decided_idx,
        accepted_idx,
        log_sync: None,
        log_unsync: None,
        log_prefix_hash: DOMHash::default(),
    }
}

#[test]
fn promises_reach_a_prepare_quorum_and_keep_the_most_up_to_date() {
    let mut ls = LeaderState::<Value>::with(Ballot::with(1, 5, 0, 1), 3, Quorum::Majority(2));
    assert!(!ls.set_promise(promise(Ballot::with(1, 2, 0, 2), 4, 1), 1, true));
    assert_eq!(ls.get_max_promise_meta().accepted_idx, 4);
    assert!(ls.set_promise(promise(Ballot::with(1, 3, 0, 3), 2, 7), 2, true));
    // A later accepted round wins over a longer log.
    assert_eq!(ls.get_max_promise_meta().pid, 2);
    assert_eq!(ls.get_max_promise_meta().accepted_idx, 2);
    // A promise that is not checked does not compete.
    assert!(ls.set_promise(promise(Ballot::with(1, 9, 0, 3), 9, 3), 3, false));
    assert_eq!(ls.get_max_promise_meta().pid, 2);
    assert_eq!(ls.get_max_decided_idx(), 7);
    assert_eq!(ls.get_decided_idx(3), Some(3));
    assert_eq!(ls.get_promise_meta(1).accepted_idx, 4);
    // The leader (pid 1) is left out of its followers.
    assert_eq!(ls.get_promised_followers(), vec![2, 3]);
    ls.lost_promise(3);
    assert_eq!(ls.get_decided_idx(3), None);
    ls.reset_promise(2);
    assert_eq!(ls.get_preparable_peers(&[2, 3]), vec![2]);
}

#[test]
fn accepted_indexes_decide_chosen_and_minimum() {
    let mut ls = LeaderState::<Value>::with(Ballot::with(1, 1, 0, 1), 3, Quorum::Majority(2));
    ls.set_accepted_idx(1, 5);
    ls.set_accepted_idx(2, 3);
    ls.set_accepted_idx(3, 9);
    assert!(ls.is_chosen(5));
    assert!(!ls.is_chosen(6));
    assert_eq!(*ls.get_min_all_accepted_idx(), 3);
    assert_eq!(ls.get_accepted_idx(2), 3);
}

#[test]
fn sequence_numbers_advance_within_a_session() {
    let mut ls = LeaderState::<Value>::with(Ballot::with(1, 1, 0, 1), 2, Quorum::Majority(2));
    assert_eq!(ls.next_seq_num(2).counter, 1);
    assert_eq!(ls.next_seq_num(2).counter, 2);
    ls.increment_seq_num_session(2);
    let s = ls.get_seq_num(2);
    assert_eq!((s.session, s.counter), (1, 0));
    assert_eq!(ls.get_seq_num(1).counter, 0);
}

#[test]
fn latest_accept_meta_is_recorded_with_the_leader_ballot() {
    let b = Ballot::with(1, 4, 0, 1);
    let mut ls = LeaderState::<Value>::with(b, 2, Quorum::Majority(2));
    ls.set_latest_accept_meta(2, Some(8));
    assert_eq!(ls.get_latest_accept_meta(2), Some((b, 8)));
    ls.reset_latest_accept_meta();
    assert_eq!(ls.get_latest_accept_meta(2), None);
}

#[test]
fn recovered_entry_ids_are_remembered_once() {
    let mut ls = LeaderState::<Value>::with(Ballot::with(1, 1, 0, 1), 2, Quorum::Majority(2));
    let id = EntryId { client_id: 3, command_id: 4 };
    assert!(!ls.has_recovered_remote_entry_id(&id));
    ls.insert_recovered_remote_entry_id(id);
    ls.insert_recovered_remote_entry_id(id);
    assert!(ls.has_recovered_remote_entry_id(&id));
    assert!(!ls.has_recovered_remote_entry_id(&EntryId { client_id: 3, command_id: 5 }));
}

fn unsynced(value: u64, id: u64, entry_hash: DOMHash, prefix_hash: DOMHash) -> UnsyncedLogEntry<Value> {
    UnsyncedLogEntry {
        entry: Value(value),
        entry_id: EntryId { client_id: id, command_id: id as usize },
        deadline: 100,
        entry_hash,
        prefix_hash,
    }
}

#[test]
fn matched_unsynced_entries_are_grouped_by_entry_hash() {
    let mut ls = LeaderState::<Value>::with(Ballot::with(1, 1, 0, 1), 4, Quorum::Majority(3));
    let prefix = DOMHash::with(EntryId { client_id: 1, command_id: 1 }, 10);
    let other_prefix = DOMHash::default();
    let h1 = DOMHash::with(EntryId { client_id: 9, command_id: 9 }, 90);
    let h2 = DOMHash::with(EntryId { client_id: 8, command_id: 8 }, 80);
    let logs = vec![
        (1u64, unsynced(1, 9, h1, prefix)),
        (2, unsynced(2, 8, h2, prefix)),
        (3, unsynced(3, 9, h1, prefix)),
        (4, unsynced(4, 7, h1, other_prefix)),
    ];
    for (pid, e) in logs {
        let mut m = HashMap::new();
        m.insert(5usize, e);
        ls.set_unsynced_log(pid, m);
    }
    let matched = ls.get_matched_unsynced_entries(5, prefix);
    assert_eq!(matched.len(), 2);
    assert_eq!(matched[0].0, h1);
    // The entry of the last log with the hash stands for the group.
    assert_eq!(matched[0].2, Value(3));
    assert_eq!(matched[0].3, 2);
    assert_eq!(matched[1].0, h2);
    assert_eq!(matched[1].3, 1);
    assert!(ls.get_matched_unsynced_entries(6, prefix).is_empty());
    assert_eq!(ls.get_unsynced_log_store().len(), 4);
}

#[test]
fn accepted_map_records_fast_and_slow_acceptors_and_prunes() {
    let mut ls = LeaderState::<Value>::with(Ballot::with(1, 1, 0, 1), 3, Quorum::Majority(2));
    let eh = DOMHash::with(EntryId { client_id: 1, command_id: 2 }, 3);
    let ph = DOMHash::default();
    ls.set_accepted_map(4, eh, ph, 2, true);
    let e = ls.set_accepted_map(4, eh, ph, 3, true);
    assert_eq!(e.fast.len(), 1);
    assert_eq!(e.fast[0].1.len(), 2);
    ls.set_accepted_map(4, eh, ph, 1, false);
    ls.set_accepted_map(7, eh, ph, 1, false);
    assert!(ls.get_accepted_map(4).unwrap().slow.contains(&1));
    ls.prune_accepted_map(4);
    assert!(ls.get_accepted_map(4).is_none());
    assert!(ls.get_accepted_map(7).is_some());
}

fn synced_promise(n_accepted: Ballot, accepted_idx: usize, sync_idx: usize, hash_of: u64) -> Promise<Value> {
    let mut p = promise(n_accepted, accepted_idx, 0);
    p.log_sync = Some(LogSync { decided_snapshot: None, suffix: vec![Value(sync_idx as u64)], sync_idx, stopsign: None });
    p.log_prefix_hash = DOMHash::with(EntryId { client_id: hash_of, command_id: 0 }, 0);
    p
}

#[test]
fn max_promise_is_the_first_greatest_and_its_sync_is_taken_once() {
    let mut ls = LeaderState::<Value>::with(Ballot::with(1, 5, 0, 1), 3, Quorum::Majority(2));
    ls.set_promise(synced_promise(Ballot::with(1, 2, 0, 2), 4, 10, 1), 1, true);
    ls.set_promise(synced_promise(Ballot::with(1, 3, 0, 3), 2, 20, 2), 2, true);
    // Same key as the current maximum: the first one stays.
    ls.set_promise(synced_promise(Ballot::with(1, 3, 0, 3), 2, 30, 3), 3, true);
    assert_eq!(ls.get_max_promise_meta().pid, 2);
    assert_eq!(*ls.get_max_promise_accepted_hash(), DOMHash::with(EntryId { client_id: 2, command_id: 0 }, 0));
    assert_eq!(ls.take_max_promise_sync().map(|s| s.sync_idx), Some(20));
    assert!(ls.take_max_promise_sync().is_none());
    assert_eq!(ls.get_max_promise_meta().pid, 2);
}
