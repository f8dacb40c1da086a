use rtps::structure::{
    ChangeCount, ParticipantMessageData, EntityId, Guid, Locator, LocatorKind, ProtocolVersion, ReliabilityKind,
    SequenceNumber,
};

#[test]
fn structure_test_sequence_number_cmp() {
    let mut num = SequenceNumber::default();
    num.increment();
    assert!(num > SequenceNumber::default());
}

#[test]
fn mod_test_sequence_number_cmp() {
    let mut num = SequenceNumber::default();
    num.increment();
    assert!(num > SequenceNumber::default());
}

#[test]
fn increment_carries_into_the_high_word() {
    let mut num = SequenceNumber::new(0, u32::MAX);
    num.increment();
    assert_eq!(num, SequenceNumber::new(1, 0));
    assert_eq!(num.to_i64(), 1 << 32);
}

#[test]
fn sequence_number_value_and_order() {
    assert_eq!(SequenceNumber::new(1, 5).value(), (1u64 << 32) + 5);
    assert_eq!(SequenceNumber::unknown().value(), 0xFFFF_FFFF_0000_0000);
    assert_eq!(SequenceNumber::unknown().to_i64(), -(1i64 << 32));
    assert!(SequenceNumber::unknown() < SequenceNumber::new(0, 0));
    assert!(SequenceNumber::new(0, 7) < SequenceNumber::new(1, 0));
    assert_eq!(SequenceNumber::from_i64(-1).to_i64(), -1);
    assert_eq!(SequenceNumber::from_i64(-1), SequenceNumber::new(-1, u32::MAX));
    assert_eq!(SequenceNumber::from_i64(i64::MAX).to_i64(), i64::MAX);
    assert_eq!(SequenceNumber::from_i64(i64::MIN).to_i64(), i64::MIN);
    assert_eq!(SequenceNumber::from_i64(5), SequenceNumber::new(0, 5));
}

#[test]
fn change_count_value() {
    assert_eq!(ChangeCount::new(2, 3).value(), (2u64 << 32) + 3);
    assert_eq!(ChangeCount::new(-1, 0).value(), 0xFFFF_FFFF_0000_0000);
}

#[test]
fn guid_equality_is_field_equality() {
    let a = Guid::new([1; 12], EntityId::new([0, 0, 1], 0xc1));
    let b = Guid::new([1; 12], EntityId::new([0, 0, 1], 0xc1));
    let c = Guid::new([1; 12], EntityId::new([0, 0, 2], 0xc1));
    let d = Guid::new([2; 12], EntityId::new([0, 0, 1], 0xc1));
    assert!(a == b);
    assert!(a != c);
    assert!(a != d);
    assert_eq!(a.entity_id(), EntityId::participant());
    assert_eq!(a.guid_prefix(), [1; 12]);
}

#[test]
fn reserved_entity_ids() {
    assert_eq!(EntityId::unknown(), EntityId::new([0, 0, 0], 0));
    assert_eq!(EntityId::spdp_builtin_participant_announcer(), EntityId::new([0, 1, 0], 0xc2));
    assert_eq!(EntityId::sedp_builtin_publications_announcer(), EntityId::new([0, 0, 3], 0xc3));
    assert_eq!(EntityId::sedp_builtin_message_reader(), EntityId::new([0, 2, 0], 0xc7));
}

#[test]
fn locators_and_codes() {
    let l = Locator::udp_v4([192, 168, 1, 9], 7400);
    assert_eq!(l.kind(), LocatorKind::UDPv4);
    assert_eq!(l.port(), 7400);
    assert_eq!(l.address(), [0, 0, 0, 0, 0, 0, 0, 0, 0, 0, 0, 0, 192, 168, 1, 9]);
    assert!(l == Locator::new(LocatorKind::UDPv4, 7400, l.address()));
    assert!(l != Locator::invalid());
    assert_eq!(Locator::invalid().kind().code(), -1);
    assert_eq!(LocatorKind::UDPv6.code(), 2);
    assert_eq!(ReliabilityKind::BestEffort.code(), 1);
    assert_eq!(ReliabilityKind::Reliable.code(), 2);
    assert_eq!(ProtocolVersion::default(), ProtocolVersion::new(2, 5));
}

#[test]
fn participant_message_data_is_a_plain_marker() {
    assert_eq!(ParticipantMessageData, ParticipantMessageData);
}
