use rtps::qos::{
    DestinationOrderKind, DurabilityKind, HistoryKind, LivelinessKind,
    PresentationAccessScopeKind, QoS, ReliabilityKind,
};
use rtps::qos::DestinationOrderKind::{ByReceptionTimestamp, BySourceTimestamp};
use rtps::qos::DurabilityKind::{Persistent, Transient, TransientLocal, Volatile};
use rtps::qos::LivelinessKind::{Automatic, ManualByParticipant, ManualByTopic};
use rtps::qos::PresentationAccessScopeKind::{Group, Instance, Topic};
use rtps::qos::ReliabilityKind::{BestEffort, Reliable};
use rtps::structure::Duration;
use std::cmp::Ordering;

#[test]
fn test_durabilitykind_partialord() {
    assert!(Volatile < TransientLocal);
    assert!(TransientLocal < Transient);
    assert!(Transient < Persistent);
}

#[test]
fn test_presentationaccessscopekind_partialord() {
    assert!(Instance < Topic);
    assert!(Topic < Group);
}

#[test]
fn test_livelinesskind_partialord() {
    assert!(Automatic < ManualByParticipant);
    assert!(ManualByParticipant < ManualByTopic);
}

#[test]
fn test_reliabilitykind_partialord() {
    assert!(BestEffort < Reliable);
}

#[test]
fn test_destinationorderkind_partialord() {
    assert!(ByReceptionTimestamp < BySourceTimestamp);
}

#[test]
fn durability_compatibility_needs_at_least_the_requested_kind() {
    assert!(Volatile.is_compatible(&Volatile));
    assert!(Volatile.is_compatible(&Persistent));
    assert!(TransientLocal.is_compatible(&Transient));
    assert!(!Transient.is_compatible(&TransientLocal));
    assert!(!Persistent.is_compatible(&Volatile));
}

#[test]
fn partial_cmp_is_reflexive_and_antisymmetric() {
    assert_eq!(Transient.partial_cmp(&Transient), Some(Ordering::Equal));
    assert_eq!(Persistent.partial_cmp(&Volatile), Some(Ordering::Greater));
    assert_eq!(Volatile.partial_cmp(&Persistent), Some(Ordering::Less));
}

#[test]
fn qos_builders_set_one_policy_each() {
    let mut qos = QoS::new();
    assert!(qos.history.is_none());
    qos.durability(DurabilityKind::TransientLocal)
        .history(HistoryKind::KeepLast, Some(4))
        .reliability(ReliabilityKind::Reliable, Duration::from_millis(100));
    let qos = qos.build();
    assert_eq!(qos.durability.as_ref().map(|d| d.kind), Some(DurabilityKind::TransientLocal));
    assert_eq!(qos.history.as_ref().map(|h| (h.kind, h.depth)), Some((HistoryKind::KeepLast, Some(4))));
    assert_eq!(
        qos.reliability.as_ref().map(|r| (r.kind, r.max_blocking_time.as_nanos())),
        Some((ReliabilityKind::Reliable, 100_000_000))
    );
    assert!(qos.deadline.is_none());
    assert_eq!(QoS::default(), QoS::new());
}
