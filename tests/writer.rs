use rtps::error::ErrorKind;
use rtps::history_cache::{Data, HistoryCache};
use rtps::messages::{AckNack, WriterAction};
use rtps::qos::HistoryKind;
use rtps::reader_proxy::{ChangeForReaderStatusKind, ReaderProxy};
use rtps::sequence_set::SequenceNumberSet;
use rtps::stateless_writer::{ReaderLocator, StatelessWriter};
use rtps::structure::{
    ChangeKind, Duration, EntityId, Guid, InstanceHandle, Locator, ReliabilityKind,
    SequenceNumber, TopicKind,
};
use rtps::writer::{StatefulWriter, Writer};

const DELAY_MS: u64 = 200;

fn sn(v: i64) -> SequenceNumber {
    SequenceNumber::from_i64(v)
}

fn set(values: &[i64]) -> SequenceNumberSet {
    SequenceNumberSet::from_vec(&values.iter().map(|v| sn(*v)).collect())
}

fn writer_guid() -> Guid {
    Guid::new([1; 12], EntityId::new([0, 0, 1], 0x02))
}

fn reader_guid(n: u8) -> Guid {
    Guid::new([n; 12], EntityId::new([0, 0, 1], 0x07))
}

fn writer(push_mode: bool) -> Writer {
    Writer::new(
        writer_guid(),
        vec![],
        vec![],
        ReliabilityKind::Reliable,
        TopicKind::NoKey,
        push_mode,
        Duration::from_millis(100),
        Duration::from_millis(DELAY_MS),
        Duration::from_millis(0),
    )
}

fn proxy(n: u8) -> ReaderProxy {
    ReaderProxy::new(reader_guid(n), reader_guid(n), false, vec![], vec![])
}

fn write(w: &mut StatefulWriter) -> SequenceNumber {
    w.new_change(ChangeKind::Alive, Some(Data), InstanceHandle::new(1))
        .unwrap()
        .sequence_number()
}

fn acknack(reader: u8, acked: &[i64], requested: &[i64], count: u32) -> AckNack {
    AckNack {
        reader_guid: reader_guid(reader),
        writer_guid: writer_guid(),
        acknowledged: set(acked),
        requested: set(requested),
        count,
    }
}

fn data_sn(a: Option<WriterAction>) -> Option<i64> {
    match a {
        Some(WriterAction::Data { change, .. }) => Some(change.sequence_number().to_i64()),
        _ => None,
    }
}

#[test]
fn new_change_allocates_rising_numbers() {
    let mut w = StatefulWriter::new(writer(true));
    let mut last = 0;
    for _ in 0..5 {
        let s = write(&mut w).to_i64();
        assert!(s > last);
        last = s;
    }
    assert_eq!(w.writer().last_change_sequence_number(), sn(5));
}

#[test]
fn refused_change_still_uses_up_its_number() {
    let base = writer(true).with_cache(HistoryCache::with_policy(HistoryKind::KeepAll, 1, 1));
    let mut w = StatefulWriter::new(base);
    assert_eq!(write(&mut w), sn(1));
    let refused = w.new_change(ChangeKind::Alive, Some(Data), InstanceHandle::new(1));
    assert_eq!(refused.map(|c| c.sequence_number()), Err(ErrorKind::ResourceExhausted));
    assert_eq!(w.writer().last_change_sequence_number(), sn(2));
    w.remove_change(sn(1));
    assert_eq!(write(&mut w), sn(3));
}

#[test]
fn acked_by_all_needs_every_reader_and_not_a_removed_one() {
    let mut w = StatefulWriter::new(writer(true));
    w.matched_reader_add(proxy(2));
    w.matched_reader_add(proxy(3));
    write(&mut w);
    assert!(!w.is_acked_by_all(sn(1)));
    w.receive_acknack(0, &acknack(2, &[1], &[], 1)).unwrap();
    assert!(!w.is_acked_by_all(sn(1)));
    w.matched_reader_remove(reader_guid(3));
    assert!(w.is_acked_by_all(sn(1)));
    assert!(w.matched_reader_lookup(reader_guid(3)).is_none());
    assert!(w.writer().writer_cache().contains(sn(1)));
}

#[test]
fn acked_by_all_holds_with_no_reader() {
    let w = StatefulWriter::new(writer(true));
    assert!(w.is_acked_by_all(sn(1)));
}

#[test]
fn evicted_change_that_is_requested_gets_a_gap() {
    let mut w = StatefulWriter::new(writer(false));
    w.matched_reader_add(proxy(2));
    for _ in 0..5 {
        write(&mut w);
    }
    assert!(w.remove_change(sn(5)).is_some());
    w.receive_acknack(0, &acknack(2, &[1, 2, 3, 4], &[5], 1)).unwrap();
    let due = DELAY_MS * 1_000_000;
    assert!(w.next_action(due - 1, reader_guid(2)).is_none());
    match w.next_action(due, reader_guid(2)) {
        Some(WriterAction::Gap(g)) => {
            assert_eq!(g.gap_start, sn(5));
            assert_eq!(g.gap_end, sn(5));
            assert!(g.reader_guid == reader_guid(2));
        },
        other => panic!("expected a gap, got {:?}", other),
    }
    assert!(w.next_action(due, reader_guid(2)).is_none());
}

#[test]
fn end_to_end_retransmits_only_what_was_requested() {
    let mut w = StatefulWriter::new(writer(true));
    w.matched_reader_add(proxy(2));
    for _ in 0..3 {
        write(&mut w);
    }
    assert_eq!(data_sn(w.next_action(0, reader_guid(2))), Some(1));
    assert_eq!(data_sn(w.next_action(0, reader_guid(2))), Some(2));
    assert_eq!(data_sn(w.next_action(0, reader_guid(2))), Some(3));
    assert!(w.next_action(0, reader_guid(2)).is_none());
    let hb = w.heartbeat();
    assert_eq!((hb.first_sn, hb.last_sn, hb.count), (sn(1), sn(3), 1));

    w.receive_acknack(0, &acknack(2, &[1, 3], &[2], 1)).unwrap();
    let p = w.matched_reader_lookup(reader_guid(2)).unwrap();
    assert_eq!(p.status(sn(2)), ChangeForReaderStatusKind::Requested);
    assert_eq!(p.status(sn(3)), ChangeForReaderStatusKind::Acknowledged);
    let later = DELAY_MS * 1_000_000;
    assert_eq!(data_sn(w.next_action(later, reader_guid(2))), Some(2));
    assert!(w.next_action(later, reader_guid(2)).is_none());

    w.receive_acknack(later, &acknack(2, &[1, 2, 3], &[], 2)).unwrap();
    assert!(w.is_acked_by_all(sn(1)));
    assert!(w.is_acked_by_all(sn(2)));
    assert!(w.is_acked_by_all(sn(3)));
}

#[test]
fn pull_mode_leaves_changes_unsent() {
    let mut w = StatefulWriter::new(writer(false));
    w.matched_reader_add(proxy(2));
    write(&mut w);
    assert!(w.next_action(0, reader_guid(2)).is_none());
    let p = w.matched_reader_lookup(reader_guid(2)).unwrap();
    assert_eq!(p.status(sn(1)), ChangeForReaderStatusKind::Unsent);
    assert_eq!(p.unsent_changes(w.writer().writer_cache()), vec![sn(1)]);
}

#[test]
fn push_sends_a_gap_over_changes_no_longer_held() {
    let mut w = StatefulWriter::new(writer(true));
    for _ in 0..4 {
        write(&mut w);
    }
    w.remove_change(sn(1));
    w.remove_change(sn(2));
    w.matched_reader_add(proxy(2));
    match w.next_action(0, reader_guid(2)) {
        Some(WriterAction::Gap(g)) => assert_eq!((g.gap_start, g.gap_end), (sn(1), sn(2))),
        other => panic!("expected a gap, got {:?}", other),
    }
    assert_eq!(data_sn(w.next_action(0, reader_guid(2))), Some(3));
    assert_eq!(data_sn(w.next_action(0, reader_guid(2))), Some(4));
    let p = w.matched_reader_lookup(reader_guid(2)).unwrap();
    assert_eq!(p.unacked_changes(w.writer().writer_cache()).len(), 2);
}

#[test]
fn acknack_errors_and_repeats() {
    let mut w = StatefulWriter::new(writer(true));
    w.matched_reader_add(proxy(2));
    write(&mut w);
    assert_eq!(w.receive_acknack(0, &acknack(9, &[1], &[], 1)), Err(ErrorKind::UnknownPeer));
    assert_eq!(w.receive_acknack(0, &acknack(2, &[1], &[2], 1)), Err(ErrorKind::ProtocolViolation));
    assert_eq!(w.receive_acknack(0, &acknack(2, &[0], &[], 1)), Err(ErrorKind::ProtocolViolation));
    assert_eq!(w.receive_acknack(0, &acknack(2, &[1], &[], 1)), Ok(()));
    assert!(w.is_acked_by_all(sn(1)));
    // a repeat of an earlier count changes nothing
    assert_eq!(w.receive_acknack(0, &acknack(2, &[], &[1], 1)), Ok(()));
    let p = w.matched_reader_lookup(reader_guid(2)).unwrap();
    assert!(p.requested_changes().is_empty());
    assert_eq!(p.last_acknack_count(), 1);
}

#[test]
fn satisfied_request_cancels_the_pending_repair() {
    let mut w = StatefulWriter::new(writer(false));
    w.matched_reader_add(proxy(2));
    write(&mut w);
    w.receive_acknack(0, &acknack(2, &[], &[1], 1)).unwrap();
    assert!(w.matched_reader_lookup(reader_guid(2)).unwrap().repair_due().is_some());
    w.receive_acknack(1, &acknack(2, &[1], &[], 2)).unwrap();
    assert!(w.matched_reader_lookup(reader_guid(2)).unwrap().repair_due().is_none());
    assert!(w.next_action(u64::MAX, reader_guid(2)).is_none());
}

#[test]
fn heartbeat_of_an_empty_cache() {
    let mut w = StatefulWriter::new(writer(true));
    let hb = w.heartbeat();
    assert_eq!((hb.first_sn, hb.last_sn, hb.count), (sn(1), sn(0), 1));
    assert!(hb.writer_guid == writer_guid());
    assert_eq!(w.heartbeat().count, 2);
}

#[test]
fn stateless_writer_sends_each_change_once_per_destination() {
    let mut sw = StatelessWriter::new(writer(true));
    let l = Locator::udp_v4([10, 0, 0, 1], 7411);
    let other = Locator::udp_v4([10, 0, 0, 2], 7411);
    sw.reader_locator_add(ReaderLocator::new(l, false));
    sw.reader_locator_add(ReaderLocator::new(l, false));
    sw.reader_locator_add(ReaderLocator::new(other, false));
    for _ in 0..2 {
        sw.new_change(ChangeKind::Alive, Some(Data), InstanceHandle::new(1)).unwrap();
    }
    let sent = |c: Option<rtps::history_cache::CacheChange>| c.map(|c| c.sequence_number().to_i64());
    assert_eq!(sent(sw.next_action(l)), Some(1));
    assert_eq!(sent(sw.next_action(l)), Some(2));
    assert_eq!(sent(sw.next_action(l)), None);
    assert_eq!(sent(sw.next_action(other)), Some(1));
    assert_eq!(sent(sw.next_action(Locator::invalid())), None);
    sw.unsent_changes_reset();
    assert_eq!(sent(sw.next_action(l)), Some(1));
    sw.reader_locator_remove(l);
    assert_eq!(sent(sw.next_action(l)), None);
    assert_eq!(sent(sw.next_action(other)), Some(1));
}

#[test]
fn reader_locator_tracks_requests_and_unsent() {
    let mut cache = HistoryCache::new();
    for v in 1..=3 {
        cache
            .add_change(rtps::history_cache::CacheChange::new(
                ChangeKind::Alive,
                writer_guid(),
                InstanceHandle::new(1),
                sn(v),
                None,
                rtps::history_cache::ParameterList,
            ))
            .unwrap();
    }
    let mut l = ReaderLocator::new(Locator::udp_v4([10, 0, 0, 1], 7411), false);
    assert_eq!(l.unsent_changes(&cache).len(), 3);
    assert_eq!(l.next_unsent_change(&cache), Some(sn(1)));
    assert_eq!(l.next_unsent_change(&cache), Some(sn(2)));
    assert_eq!(l.unsent_changes(&cache), vec![sn(3)]);
    l.requested_changes_set(&set(&[2, 1]));
    assert_eq!(l.requested_changes().len(), 2);
    assert_eq!(l.next_requested_change(), Some(sn(1)));
    assert_eq!(l.next_requested_change(), Some(sn(2)));
    assert_eq!(l.next_requested_change(), None);
    l.unsent_changes_reset();
    assert_eq!(l.highest_sent_sequence_number(), SequenceNumber::unknown());
}

#[test]
fn reader_proxy_lists_are_ascending() {
    let mut w = StatefulWriter::new(writer(false));
    w.matched_reader_add(proxy(2));
    for _ in 0..4 {
        write(&mut w);
    }
    w.receive_acknack(0, &acknack(2, &[], &[4, 1, 3], 1)).unwrap();
    let p = w.matched_reader_lookup(reader_guid(2)).unwrap();
    assert_eq!(p.requested_changes(), vec![sn(1), sn(3), sn(4)]);
    assert_eq!(p.unsent_changes(w.writer().writer_cache()), vec![sn(1), sn(2), sn(3), sn(4)]);
}

#[test]
fn reader_proxy_next_unsent_change() {
    let mut w = StatefulWriter::new(writer(false));
    for _ in 0..3 {
        write(&mut w);
    }
    w.remove_change(sn(2));
    let mut p = proxy(2);
    assert_eq!(p.next_unsent_change(w.writer().writer_cache()), Some(sn(1)));
    assert_eq!(p.next_unsent_change(w.writer().writer_cache()), Some(sn(3)));
    assert_eq!(p.next_unsent_change(w.writer().writer_cache()), None);
    assert_eq!(p.highest_sent_sequence_number(), sn(3));
    assert_eq!(p.unacked_changes(w.writer().writer_cache()), vec![sn(1), sn(3)]);
}

#[test]
fn new_change_hands_out_one_two_three_and_caches_them() {
    let mut w = writer(true);
    for v in 1..=3 {
        let c = w.new_change(ChangeKind::Alive, Some(Data), InstanceHandle::new(1)).unwrap();
        assert_eq!(c.sequence_number(), sn(v));
    }
    assert_eq!(w.writer_cache().sequence_numbers(), vec![sn(1), sn(2), sn(3)]);
}

#[test]
fn request_after_acknowledgement_reopens_the_change() {
    let mut w = StatefulWriter::new(writer(false));
    w.matched_reader_add(proxy(2));
    write(&mut w);
    w.receive_acknack(0, &acknack(2, &[1], &[], 1)).unwrap();
    assert!(w.is_acked_by_all(sn(1)));
    w.receive_acknack(0, &acknack(2, &[], &[1], 2)).unwrap();
    let p = w.matched_reader_lookup(reader_guid(2)).unwrap();
    assert_eq!(p.status(sn(1)), ChangeForReaderStatusKind::Requested);
    assert!(!w.is_acked_by_all(sn(1)));
    let due = DELAY_MS * 1_000_000;
    assert_eq!(data_sn(w.next_action(due, reader_guid(2))), Some(1));
}

#[test]
fn proxy_request_set_removes_acknowledgement() {
    let mut p = proxy(2);
    p.acked_changes_set(&set(&[1, 2]));
    p.requested_changes_set(&set(&[2, 3]));
    assert_eq!(p.acknowledged_changes(), vec![sn(1)]);
    assert_eq!(p.requested_changes(), vec![sn(2), sn(3)]);
    p.requested_changes_set(&set(&[2, 3]));
    assert_eq!(p.requested_changes(), vec![sn(2), sn(3)]);
}
