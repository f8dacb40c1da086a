use rtps::messages::{Receiver, SubmessageKind, Time, MESSAGE_LENGTH_INVALID};
use rtps::structure::{Locator, LocatorKind, GUIDPREFIX_UNKNOWN};
use rtps::topic::{TopicDescription, TopicError};
use rtps::udp::{default_multicast_locator, PortNumberParams};

#[test]
fn well_known_ports_with_default_parameters() {
    let p = PortNumberParams::default();
    assert_eq!(p.spdp_well_known_multicast_port(0), 7400);
    assert_eq!(p.spdp_well_known_multicast_port(1), 7650);
    assert_eq!(p.spdp_well_known_unicast_port(0, 1), 7412);
    assert_eq!(p.user_defined_multicast_port(1), 7651);
    assert_eq!(p.user_defined_unicast_port(2, 3), 7400 + 500 + 11 + 6);
}

#[test]
fn default_multicast_locator_of_a_domain() {
    let l = default_multicast_locator(1, None);
    assert_eq!(l.kind(), LocatorKind::UDPv4);
    assert_eq!(l.port(), 7650);
    assert_eq!(&l.address()[12..], &[239, 255, 0, 1]);
    let mut params = PortNumberParams::default();
    params.port_base_number = 9000;
    assert_eq!(default_multicast_locator(0, Some(params)).port(), 9000);
}

#[test]
fn topic_description_keeps_its_names() {
    let d = TopicDescription::new("Shape", "Square");
    assert_eq!(d.get_type_name(), "Shape");
    assert_eq!(d.get_name(), "Square");
    assert_eq!(
        TopicError::InconsistentTopic.message(),
        "another topic exists with the same name but different characteristics"
    );
}

#[test]
fn receiver_starts_unknown() {
    let addr = Locator::udp_v4([10, 1, 2, 3], 7410);
    let r = Receiver::new([9; 12], addr);
    assert_eq!(r.dest_guid_prefix, [9; 12]);
    assert_eq!(r.source_guid_prefix, GUIDPREFIX_UNKNOWN);
    assert!(r.unicast_reply_locator_list == vec![addr]);
    assert_eq!(r.multicast_reply_locator_list[0].port(), 8080);
    assert_eq!(r.timestamp, Time::invalid());
    assert_eq!(r.message_length, MESSAGE_LENGTH_INVALID);
    assert!(!r.have_timestamp);
}

#[test]
fn submessage_ids_and_times() {
    assert_eq!(SubmessageKind::AckNack.id(), 0x06);
    assert_eq!(SubmessageKind::DataFrag.id(), 0x16);
    assert_eq!(Time::zero(), Time::new(0, 0));
    assert_eq!(Time::infinite().fraction, 0xffff_fffe);
}
