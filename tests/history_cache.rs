use rtps::error::ErrorKind;
use rtps::history_cache::{CacheChange, Data, HistoryCache, ParameterList, VecCache};
use rtps::qos::{History, HistoryKind, ResourceLimits};
use rtps::structure::{ChangeKind, EntityId, Guid, InstanceHandle, SequenceNumber};

fn change(sn: i64, instance: u64) -> CacheChange {
    CacheChange::new(
        ChangeKind::Alive,
        Guid::new([7; 12], EntityId::new([0, 0, 1], 0x02)),
        InstanceHandle::new(instance),
        SequenceNumber::from_i64(sn),
        Some(Data),
        ParameterList,
    )
}

fn sn(v: i64) -> SequenceNumber {
    SequenceNumber::from_i64(v)
}

#[test]
fn min_and_max_follow_increasing_adds_and_vanish_when_emptied() {
    let mut cache = HistoryCache::new();
    assert_eq!(cache.get_seq_num_min(), None);
    assert_eq!(cache.get_seq_num_max(), None);
    for v in 3..=7 {
        cache.add_change(change(v, 1)).unwrap();
        assert_eq!(cache.get_seq_num_min(), Some(sn(3)));
        assert_eq!(cache.get_seq_num_max(), Some(sn(v)));
    }
    for v in 3..=7 {
        assert_eq!(cache.remove_change(sn(v)).map(|c| c.sequence_number()), Some(sn(v)));
    }
    assert_eq!(cache.get_seq_num_min(), None);
    assert_eq!(cache.get_seq_num_max(), None);
}

#[test]
fn duplicate_sequence_number_is_ignored() {
    let mut cache = HistoryCache::new();
    cache.add_change(change(1, 1)).unwrap();
    assert_eq!(cache.add_change(change(1, 2)), Ok(()));
    assert_eq!(cache.len(), 1);
    assert_eq!(cache.lookup(sn(1)).map(|c| c.instance_handle()), Some(InstanceHandle::new(1)));
}

#[test]
fn remove_of_missing_change_returns_none() {
    let mut cache = HistoryCache::new();
    cache.add_change(change(2, 1)).unwrap();
    assert_eq!(cache.remove_change(sn(3)), None);
    assert_eq!(cache.len(), 1);
    assert!(cache.contains(sn(2)));
}

#[test]
fn extremes_over_unordered_adds() {
    let mut cache = VecCache::default();
    for v in [5, 2, 9, 4] {
        cache.add_change(change(v, 1));
    }
    assert_eq!(cache.get_seq_num_min(), Some(sn(2)));
    assert_eq!(cache.get_seq_num_max(), Some(sn(9)));
    assert_eq!(cache.get_change().map(|c| c.sequence_number()), Some(sn(5)));
    assert_eq!(cache.least_above(sn(5)), Some(sn(9)));
    assert_eq!(cache.least_above(sn(9)), None);
}

#[test]
fn keep_last_drops_the_oldest_of_the_instance() {
    let mut cache = HistoryCache::with_policy(HistoryKind::KeepLast, 2, usize::MAX);
    cache.add_change(change(1, 10)).unwrap();
    cache.add_change(change(2, 20)).unwrap();
    cache.add_change(change(3, 10)).unwrap();
    cache.add_change(change(4, 10)).unwrap();
    assert!(!cache.contains(sn(1)));
    assert!(cache.contains(sn(2)));
    assert!(cache.contains(sn(3)));
    assert!(cache.contains(sn(4)));
    assert_eq!(cache.len(), 3);
    assert_eq!(cache.get_seq_num_min(), Some(sn(2)));
}

#[test]
fn keep_last_drops_a_late_change_older_than_those_kept() {
    let mut cache = HistoryCache::with_policy(HistoryKind::KeepLast, 1, usize::MAX);
    cache.add_change(change(5, 1)).unwrap();
    cache.add_change(change(3, 1)).unwrap();
    assert!(cache.contains(sn(5)));
    assert!(!cache.contains(sn(3)));
}

#[test]
fn keep_all_refuses_beyond_max_samples() {
    let mut cache = HistoryCache::with_policy(HistoryKind::KeepAll, 1, 2);
    cache.add_change(change(1, 1)).unwrap();
    cache.add_change(change(2, 1)).unwrap();
    assert_eq!(cache.add_change(change(3, 1)), Err(ErrorKind::ResourceExhausted));
    assert_eq!(cache.len(), 2);
    assert!(!cache.contains(sn(3)));
    assert_eq!(cache.add_change(change(2, 1)), Ok(()));
}

#[test]
fn cache_policy_from_qos() {
    let limits = ResourceLimits { max_samples: 1, max_instances: -1, max_samples_per_instance: -1 };
    let mut all = HistoryCache::from_qos(&History { kind: HistoryKind::KeepAll, depth: None }, &limits);
    all.add_change(change(1, 1)).unwrap();
    assert_eq!(all.add_change(change(2, 1)), Err(ErrorKind::ResourceExhausted));

    let unlimited = ResourceLimits { max_samples: -1, max_instances: -1, max_samples_per_instance: -1 };
    let mut last = HistoryCache::from_qos(&History { kind: HistoryKind::KeepLast, depth: None }, &unlimited);
    last.add_change(change(1, 1)).unwrap();
    last.add_change(change(2, 1)).unwrap();
    assert_eq!(last.len(), 1);
    assert!(last.contains(sn(2)));
}

#[test]
fn keep_all_limits_instances_and_samples_per_instance() {
    let limits = ResourceLimits { max_samples: -1, max_instances: 2, max_samples_per_instance: 2 };
    let mut cache = HistoryCache::from_qos(&History { kind: HistoryKind::KeepAll, depth: None }, &limits);
    cache.add_change(change(1, 10)).unwrap();
    cache.add_change(change(2, 10)).unwrap();
    assert_eq!(cache.add_change(change(3, 10)), Err(ErrorKind::ResourceExhausted));
    cache.add_change(change(4, 20)).unwrap();
    assert_eq!(cache.add_change(change(5, 30)), Err(ErrorKind::ResourceExhausted));
    cache.add_change(change(6, 20)).unwrap();
    assert_eq!(cache.len(), 4);
}

#[test]
fn sequence_numbers_come_in_increasing_order() {
    let mut cache = HistoryCache::new();
    for v in [5, 2, 9, 4] {
        cache.add_change(change(v, 1)).unwrap();
    }
    assert_eq!(cache.sequence_numbers(), vec![sn(2), sn(4), sn(5), sn(9)]);
    assert_eq!(cache.sequence_numbers_above(sn(4)), vec![sn(5), sn(9)]);
}
