use caop_dom::storage::{ClusterConfig, Entry, StopSign};
use caop_dom::util::{FlexibleQuorum, LogEntry, SnapshottedEntry};

#[derive(Clone, Debug, PartialEq)]
struct Cmd(u64);

impl Entry for Cmd {
    type Snapshot = u64;
}

fn stop_sign(nodes: Vec<u64>, metadata: Option<Vec<u8>>) -> StopSign {
    StopSign {
        next_config: ClusterConfig {
            configuration_id: 2,
            nodes,
            flexible_quorum: Some(FlexibleQuorum { read_quorum_size: 2, write_quorum_size: 2 }),
        },
        metadata,
    }
}

#[test]
fn log_entries_of_the_same_kind_compare_by_content() {
    assert_eq!(LogEntry::Decided(Cmd(1)), LogEntry::Decided(Cmd(1)));
    assert_ne!(LogEntry::Decided(Cmd(1)), LogEntry::Decided(Cmd(2)));
    assert_eq!(LogEntry::<Cmd>::Trimmed(7), LogEntry::Trimmed(7));
    assert_ne!(LogEntry::<Cmd>::Trimmed(7), LogEntry::Trimmed(8));
    assert_eq!(
        LogEntry::<Cmd>::Snapshotted(SnapshottedEntry::with(3, 30)),
        LogEntry::Snapshotted(SnapshottedEntry::with(3, 30))
    );
    assert_ne!(
        LogEntry::<Cmd>::Snapshotted(SnapshottedEntry::with(3, 30)),
        LogEntry::Snapshotted(SnapshottedEntry::with(3, 31))
    );
}

#[test]
fn log_entries_of_different_kinds_differ() {
    assert_ne!(LogEntry::Decided(Cmd(1)), LogEntry::Undecided(Cmd(1)));
    assert_ne!(LogEntry::<Cmd>::Trimmed(3), LogEntry::Snapshotted(SnapshottedEntry::with(3, 3)));
}

#[test]
fn stop_signs_compare_by_configuration_metadata_and_decision() {
    let a = stop_sign(vec![1, 2, 3], Some(vec![9, 8]));
    assert_eq!(a, stop_sign(vec![1, 2, 3], Some(vec![9, 8])));
    assert_ne!(a, stop_sign(vec![1, 2], Some(vec![9, 8])));
    assert_ne!(a, stop_sign(vec![1, 2, 3], Some(vec![9, 7])));
    assert_ne!(a, stop_sign(vec![1, 2, 3], None));
    assert_eq!(
        LogEntry::<Cmd>::StopSign(a.clone(), true),
        LogEntry::StopSign(stop_sign(vec![1, 2, 3], Some(vec![9, 8])), true)
    );
    assert_ne!(LogEntry::<Cmd>::StopSign(a.clone(), true), LogEntry::StopSign(a, false));
}
