use rtps::error::ErrorKind;
use rtps::history_cache::{CacheChange, Data, HistoryCache, ParameterList};
use rtps::messages::{Gap, Heartbeat};
use rtps::qos::HistoryKind;
use rtps::reader::{DataOutcome, Reader, StatefulReader};
use rtps::structure::{
    ChangeKind, Duration, EntityId, Guid, InstanceHandle, ReliabilityKind, SequenceNumber,
    TopicKind,
};
use rtps::writer_proxy::{ChangeFromWriterStatusKind, WriterProxy};

fn sn(v: i64) -> SequenceNumber {
    SequenceNumber::from_i64(v)
}

fn writer_guid() -> Guid {
    Guid::new([1; 12], EntityId::new([0, 0, 1], 0x02))
}

fn reader_guid() -> Guid {
    Guid::new([2; 12], EntityId::new([0, 0, 1], 0x07))
}

fn proxy() -> WriterProxy {
    WriterProxy::new(writer_guid(), EntityId::unknown(), vec![], vec![], i32::MAX)
}

fn values(v: Vec<SequenceNumber>) -> Vec<i64> {
    v.iter().map(|s| s.to_i64()).collect()
}

fn change(v: i64) -> CacheChange {
    CacheChange::new(
        ChangeKind::Alive,
        writer_guid(),
        InstanceHandle::new(1),
        sn(v),
        Some(Data),
        ParameterList,
    )
}

fn reader() -> StatefulReader {
    let r = Reader::new(
        reader_guid(),
        vec![],
        vec![],
        ReliabilityKind::Reliable,
        TopicKind::NoKey,
        false,
        Duration::from_millis(10),
    );
    let mut r = StatefulReader::new(r);
    r.matched_writer_add(proxy());
    r
}

fn heartbeat(first: i64, last: i64, count: u32) -> Heartbeat {
    Heartbeat { writer_guid: writer_guid(), first_sn: sn(first), last_sn: sn(last), count }
}

#[test]
fn missing_changes_of_an_announced_range() {
    let mut p = proxy();
    p.missing_changes_update(sn(10));
    p.lost_changes_update(sn(1));
    for v in [1, 2, 3, 7, 9] {
        assert!(p.received_change_set(sn(v)));
    }
    assert_eq!(values(p.missing_changes()), vec![4, 5, 6, 8, 10]);
    assert_eq!(p.available_changes_max(), sn(3));
    assert_eq!(p.status(sn(4)), ChangeFromWriterStatusKind::Missing);
    assert_eq!(p.status(sn(7)), ChangeFromWriterStatusKind::Received);
    assert_eq!(p.status(sn(11)), ChangeFromWriterStatusKind::Unknown);
}

#[test]
fn received_change_set_twice_is_once() {
    let mut once = proxy();
    once.missing_changes_update(sn(5));
    once.received_change_set(sn(2));
    let mut twice = proxy();
    twice.missing_changes_update(sn(5));
    assert!(twice.received_change_set(sn(2)));
    assert!(!twice.received_change_set(sn(2)));
    assert_eq!(values(once.received_changes()), values(twice.received_changes()));
    assert_eq!(once.available_changes_max(), twice.available_changes_max());
    assert_eq!(values(once.missing_changes()), values(twice.missing_changes()));
}

#[test]
fn available_max_advances_over_a_contiguous_prefix_only() {
    let mut p = proxy();
    p.received_change_set(sn(2));
    assert_eq!(p.available_changes_max(), sn(0));
    p.received_change_set(sn(1));
    assert_eq!(p.available_changes_max(), sn(2));
    p.irrelevant_change_set(sn(3));
    assert_eq!(p.available_changes_max(), sn(3));
    assert_eq!(p.status(sn(3)), ChangeFromWriterStatusKind::NotAvailableFiltered);
}

#[test]
fn lost_changes_become_removed() {
    let mut p = proxy();
    p.missing_changes_update(sn(8));
    p.received_change_set(sn(2));
    p.lost_changes_update(sn(5));
    assert_eq!(p.status(sn(1)), ChangeFromWriterStatusKind::NotAvailableRemoved);
    assert_eq!(p.status(sn(2)), ChangeFromWriterStatusKind::Received);
    assert_eq!(p.available_changes_max(), sn(4));
    assert_eq!(values(p.missing_changes()), vec![5, 6, 7, 8]);
}

#[test]
fn data_is_delivered_once_and_ordered_by_availability() {
    let mut r = reader();
    assert_eq!(r.receive_data(change(2)), Ok(DataOutcome::Delivered));
    assert_eq!(r.receive_data(change(2)), Ok(DataOutcome::Duplicate));
    assert_eq!(r.receive_data(change(1)), Ok(DataOutcome::Delivered));
    let p = r.matched_writer_lookup(writer_guid()).unwrap();
    assert_eq!(p.available_changes_max(), sn(2));
    assert_eq!(r.reader().reader_cache().len(), 2);
}

#[test]
fn data_errors() {
    let mut r = reader();
    let stranger = CacheChange::new(
        ChangeKind::Alive,
        reader_guid(),
        InstanceHandle::new(1),
        sn(1),
        None,
        ParameterList,
    );
    assert_eq!(r.receive_data(stranger), Err(ErrorKind::UnknownPeer));
    assert_eq!(r.receive_data(change(0)), Err(ErrorKind::ProtocolViolation));
    let base = Reader::new(
        reader_guid(),
        vec![],
        vec![],
        ReliabilityKind::Reliable,
        TopicKind::NoKey,
        false,
        Duration::from_millis(10),
    )
    .with_cache(HistoryCache::with_policy(HistoryKind::KeepAll, 1, 1));
    let mut full = StatefulReader::new(base);
    full.matched_writer_add(proxy());
    assert_eq!(full.receive_data(change(1)), Ok(DataOutcome::Delivered));
    assert_eq!(full.receive_data(change(2)), Err(ErrorKind::ResourceExhausted));
    let p = full.matched_writer_lookup(writer_guid()).unwrap();
    assert_eq!(p.status(sn(2)), ChangeFromWriterStatusKind::Unknown);
}

#[test]
fn removed_data_is_not_delivered() {
    let mut r = reader();
    r.receive_heartbeat(0, &heartbeat(3, 4, 1)).unwrap();
    assert_eq!(r.receive_data(change(1)), Ok(DataOutcome::NotAvailable));
    assert_eq!(r.receive_data(change(3)), Ok(DataOutcome::Delivered));
}

#[test]
fn heartbeat_schedules_an_acknack() {
    let mut r = reader();
    r.receive_data(change(2)).unwrap();
    assert_eq!(r.receive_heartbeat(100, &heartbeat(1, 4, 1)), Ok(()));
    let due = 100 + 10_000_000;
    assert!(r.next_acknack(due - 1, writer_guid()).is_none());
    let a = r.next_acknack(due, writer_guid()).unwrap();
    assert_eq!(values(a.acknowledged.to_vec()), vec![2]);
    let mut requested = values(a.requested.to_vec());
    requested.sort();
    assert_eq!(requested, vec![1, 3, 4]);
    assert_eq!(a.count, 1);
    assert!(a.reader_guid == reader_guid());
    assert!(r.next_acknack(u64::MAX, writer_guid()).is_none());
}

#[test]
fn heartbeat_errors_and_repeats() {
    let mut r = reader();
    let mut stranger = heartbeat(1, 2, 1);
    stranger.writer_guid = reader_guid();
    assert_eq!(r.receive_heartbeat(0, &stranger), Err(ErrorKind::UnknownPeer));
    assert_eq!(r.receive_heartbeat(0, &heartbeat(0, 2, 1)), Err(ErrorKind::ProtocolViolation));
    assert_eq!(r.receive_heartbeat(0, &heartbeat(5, 3, 1)), Err(ErrorKind::ProtocolViolation));
    assert_eq!(r.receive_heartbeat(0, &heartbeat(5, 4, 1)), Ok(()));
    assert_eq!(r.receive_heartbeat(0, &heartbeat(1, 9, 1)), Ok(()));
    let p = r.matched_writer_lookup(writer_guid()).unwrap();
    assert_eq!(p.missing_changes().len(), 0);
    assert_eq!(p.available_changes_max(), sn(4));
}

#[test]
fn gaps_mark_changes_removed() {
    let mut r = reader();
    let gap = |start: i64, end: i64| Gap {
        reader_guid: reader_guid(),
        writer_guid: writer_guid(),
        gap_start: sn(start),
        gap_end: sn(end),
    };
    assert_eq!(r.receive_gap(&gap(4, 5)), Ok(()));
    let p = r.matched_writer_lookup(writer_guid()).unwrap();
    assert_eq!(p.status(sn(4)), ChangeFromWriterStatusKind::NotAvailableRemoved);
    assert_eq!(p.available_changes_max(), sn(0));
    assert_eq!(r.receive_gap(&gap(1, 3)), Ok(()));
    let p = r.matched_writer_lookup(writer_guid()).unwrap();
    assert_eq!(p.available_changes_max(), sn(5));
    assert_eq!(r.receive_gap(&gap(3, 2)), Err(ErrorKind::ProtocolViolation));
    assert_eq!(r.receive_data(change(2)), Ok(DataOutcome::NotAvailable));
}

#[test]
fn unmatched_writer_is_forgotten() {
    let mut r = reader();
    r.matched_writer_remove(writer_guid());
    assert!(r.matched_writer_lookup(writer_guid()).is_none());
    assert_eq!(r.receive_data(change(1)), Err(ErrorKind::UnknownPeer));
}
