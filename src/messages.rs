//! The messages that writers and readers exchange, as the core sees them:
//! already decoded into plain structures. The core never reads raw bytes.

use vstd::prelude::*;
use crate::history_cache::CacheChange;
use crate::sequence_set::SequenceNumberSet;
use crate::structure::{
    ChangeCount, EntityId, Guid, GuidPrefix, Locator, ProtocolVersion, SequenceNumber, VendorId,
    GUIDPREFIX_UNKNOWN, VENDORID_UNKNOWN,
};

verus! {

/// Identifies a message as one of this protocol.
pub type ProtocolId = [u8; 4];

/// The four octets "RTPS".
pub const PROTOCOL_RTPS: ProtocolId = [0x52, 0x54, 0x50, 0x53];

/// One flag of a submessage header.
pub type SubmessageFlag = bool;

/// The kinds of submessage.
#[derive(Clone, Copy, Debug, PartialEq, PartialOrd, Hash, Eq, Ord, Structural)]
pub enum SubmessageKind {
    RtpsHe,
    Pad,
    AckNack,
    Heartbeat,
    Gap,
    InfoTimestamp,
    InfoSource,
    InfoReplyIp4,
    InfoDestination,
    InfoReply,
    NackFrag,
    HeartbeatFrag,
    Data,
    DataFrag,
}

impl SubmessageKind {
    /// The octet that stands for this kind on the wire.
    pub open spec fn id_spec(&self) -> u8 {
        match self {
            SubmessageKind::RtpsHe => 0x00,
            SubmessageKind::Pad => 0x01,
            SubmessageKind::AckNack => 0x06,
            SubmessageKind::Heartbeat => 0x07,
            SubmessageKind::Gap => 0x08,
            SubmessageKind::InfoTimestamp => 0x09,
            SubmessageKind::InfoSource => 0x0c,
            SubmessageKind::InfoReplyIp4 => 0x0d,
            SubmessageKind::InfoDestination => 0x0e,
            SubmessageKind::InfoReply => 0x0f,
            SubmessageKind::NackFrag => 0x12,
            SubmessageKind::HeartbeatFrag => 0x13,
            SubmessageKind::Data => 0x15,
            SubmessageKind::DataFrag => 0x16,
        }
    }

    pub fn id(&self) -> (r: u8)
        ensures
            r == self.id_spec(),
    {
        match self {
            SubmessageKind::RtpsHe => 0x00,
            SubmessageKind::Pad => 0x01,
            SubmessageKind::AckNack => 0x06,
            SubmessageKind::Heartbeat => 0x07,
            SubmessageKind::Gap => 0x08,
            SubmessageKind::InfoTimestamp => 0x09,
            SubmessageKind::InfoSource => 0x0c,
            SubmessageKind::InfoReplyIp4 => 0x0d,
            SubmessageKind::InfoDestination => 0x0e,
            SubmessageKind::InfoReply => 0x0f,
            SubmessageKind::NackFrag => 0x12,
            SubmessageKind::HeartbeatFrag => 0x13,
            SubmessageKind::Data => 0x15,
            SubmessageKind::DataFrag => 0x16,
        }
    }
}

/// A timestamp: seconds and fractions of a second.
#[derive(Clone, Copy, Debug, Default, PartialEq, Hash, Eq, Structural)]
pub struct Time {
    pub seconds: u32,
    pub fraction: u32,
}

impl Time {
    pub fn new(seconds: u32, fraction: u32) -> (r: Time)
        ensures
            r.seconds == seconds,
            r.fraction == fraction,
    {
        Self { seconds, fraction }
    }

    /// The time zero.
    pub fn zero() -> (r: Time)
        ensures
            r.seconds == 0,
            r.fraction == 0,
    {
        Self::new(0, 0)
    }

    /// The time that stands for no valid time.
    pub fn invalid() -> (r: Time)
        ensures
            r.seconds == 0xffff_ffff,
            r.fraction == 0xffff_ffff,
    {
        Self::new(0xffff_ffff, 0xffff_ffff)
    }

    /// The time that stands for an infinite time.
    pub fn infinite() -> (r: Time)
        ensures
            r.seconds == 0xffff_ffff,
            r.fraction == 0xffff_fffe,
    {
        Self::new(0xffff_ffff, 0xffff_fffe)
    }
}

/// A checksum of a message, against corruption by the transport.
#[derive(Clone, Copy, Debug, PartialOrd, PartialEq, Hash, Eq, Ord, Structural)]
pub struct CheckSum;

/// The checksum of a message that carries none.
pub type Checksum = CheckSum;

/// The length of a message.
pub type MessageLength = u32;

pub const MESSAGE_LENGTH_INVALID: MessageLength = 0;

/// Identifies one parameter of a parameter list.
pub type ParameterId = i16;

/// The number of a fragment.
pub type FragmentNumber = u32;

/// A digest that identifies a group of entities of one participant.
pub type GroupDigest = [u8; 4];

/// Four octets reserved for later versions.
pub type UExtension4 = [u8; 4];

/// Eight octets reserved for later versions.
pub type WExtension8 = [u8; 8];

/// One parameter of a parameter list: its id, its length and its octets.
#[derive(Clone, Debug, PartialEq, Eq, Hash)]
pub struct Parameter {
    pub parameter_id: ParameterId,
    pub length: i16,
    pub value: Vec<u8>,
}

/// A list of parameters that a message carries.
#[derive(Clone, Copy, Debug, PartialEq, Eq, Hash, Structural)]
pub struct ParameterList;

/// The prefix of a key hash.
#[derive(Clone, Copy, Debug, PartialEq, Eq, Hash, Structural)]
pub struct KeyHashPrefix;

/// The suffix of a key hash.
#[derive(Clone, Copy, Debug, PartialEq, Eq, Hash, Structural)]
pub struct KeyHashSuffix;

/// The header at the start of every message: the protocol, its version, the
/// vendor and the participant that sent the message.
#[derive(Clone, Copy, Debug)]
pub struct Header {
    pub protocol: ProtocolId,
    pub version: ProtocolVersion,
    pub vendor_id: VendorId,
    pub guid_prefix: GuidPrefix,
}

/// The optional extension of the header.
#[derive(Clone, Copy, Debug)]
pub struct HeaderExtension {
    pub endianness_flag: SubmessageFlag,
    pub length_flag: SubmessageFlag,
    pub timestamp_flag: SubmessageFlag,
    pub uextension_flag: SubmessageFlag,
    pub wextension_flag: SubmessageFlag,
    pub checksum_flags: [SubmessageFlag; 2],
    pub parameters_flag: SubmessageFlag,
    pub message_length: Option<MessageLength>,
    pub rtps_send_timestamp: Option<Time>,
    pub uextention4: Option<UExtension4>,
    pub wextention8: Option<WExtension8>,
    pub message_checksum: Option<CheckSum>,
    pub parameters: Option<ParameterList>,
}

/// The header of a submessage: its kind, its flags and its length.
#[derive(Clone, Copy, Debug)]
pub struct SubmessageHeader {
    pub submessage_id: SubmessageKind,
    pub flags: [SubmessageFlag; 8],
    pub submessage_length: u16,
}

/// The building blocks of submessages.
#[derive(Debug)]
pub enum SubmessageElement {
    ChangeCount { value: ChangeCount },
    CheckSum { value: CheckSum },
    Count { value: Count },
    EntityId { value: EntityId },
    FragmentNumber { value: FragmentNumber },
    FragmentNumberSet { base: FragmentNumber, set: Vec<FragmentNumber> },
    GroupDigest { value: GroupDigest },
    GuidPrefix { value: GuidPrefix },
    KeyHashPrefix { value: KeyHashPrefix },
    KeyHashSuffix { value: KeyHashSuffix },
    LocatorList { value: Vec<Locator> },
    MessageLength { value: MessageLength },
    ParameterList { parameter: Parameter },
    ProtocolVersion { value: ProtocolVersion },
    SequenceNumber { value: SequenceNumber },
    SequenceNumberSet { base: SequenceNumber, set: Vec<SequenceNumber> },
    SerializedData { value: Vec<u8> },
    StatusInfo { value: [SubmessageFlag; 32] },
    TimeStamp { value: Time },
    VendorId { value: VendorId },
    UExtension4 { value: UExtension4 },
    WExtension8 { value: WExtension8 },
}

/// A submessage: a header followed by elements.
#[derive(Debug)]
pub struct Submessage {
    pub header: SubmessageHeader,
    pub elements: Vec<SubmessageElement>,
}

/// A message: a header, an optional header extension, and submessages.
#[derive(Debug)]
pub struct Message {
    pub header: Header,
    pub header_extension: Option<HeaderExtension>,
    pub submessages: Vec<Submessage>,
}

/// The state in which the submessages of one message are read: what the
/// earlier submessages of the message said about its source, destination
/// and time. It starts afresh with each message.
#[derive(Debug)]
pub struct Receiver {
    pub source_version: ProtocolVersion,
    pub source_vendor_id: VendorId,
    pub source_guid_prefix: GuidPrefix,
    pub dest_guid_prefix: GuidPrefix,
    pub unicast_reply_locator_list: Vec<Locator>,
    pub multicast_reply_locator_list: Vec<Locator>,
    pub have_timestamp: bool,
    pub timestamp: Time,
    pub message_length: MessageLength,
    pub message_checksum: CheckSum,
    pub rtps_send_timestamp: Time,
    pub rtps_reception_timestamp: Time,
    pub clock_skew_detected: bool,
    pub parameters: Vec<ParameterId>,
}

impl Receiver {
    /// The state at the start of a message for `dest_guid_prefix` that
    /// arrived from `addr`: the source unknown, replies going to `addr` and to
    /// the local multicast locator 127.0.0.1:8080, and no time known.
    pub fn new(dest_guid_prefix: GuidPrefix, addr: Locator) -> (r: Self)
        ensures
            r.source_version.major == 2 && r.source_version.minor == 5,
            r.source_vendor_id == VENDORID_UNKNOWN,
            r.source_guid_prefix == GUIDPREFIX_UNKNOWN,
            r.dest_guid_prefix == dest_guid_prefix,
            r.unicast_reply_locator_list@ == seq![addr],
            r.multicast_reply_locator_list@ == seq![Locator::udp_v4_spec([127, 0, 0, 1], 8080)],
            !r.have_timestamp,
            r.timestamp == (Time { seconds: 0xffff_ffff, fraction: 0xffff_ffff }),
            r.message_length == MESSAGE_LENGTH_INVALID,
            r.rtps_send_timestamp == (Time { seconds: 0xffff_ffff, fraction: 0xffff_ffff }),
            r.rtps_reception_timestamp == (Time { seconds: 0xffff_ffff, fraction: 0xffff_ffff }),
            !r.clock_skew_detected,
            r.parameters@.len() == 0,
    {
        let unicast_locator = addr;
        let multicast_locator = Locator::udp_v4([127, 0, 0, 1], 8080);
        Self {
            source_version: ProtocolVersion::current(),
            source_vendor_id: VENDORID_UNKNOWN,
            source_guid_prefix: GUIDPREFIX_UNKNOWN,
            dest_guid_prefix,
            unicast_reply_locator_list: vec![unicast_locator],
            multicast_reply_locator_list: vec![multicast_locator],
            have_timestamp: false,
            timestamp: Time::invalid(),
            message_length: MESSAGE_LENGTH_INVALID,
            message_checksum: CheckSum,
            rtps_send_timestamp: Time::invalid(),
            rtps_reception_timestamp: Time::invalid(),
            clock_skew_detected: false,
            parameters: Vec::new(),
        }
    }
}

/// A count that rises with each message of a kind that an endpoint sends, so
/// that the receiver can tell a repeated message from a new one.
pub type Count = u32;

/// A writer announces the range of sequence numbers that it holds.
#[derive(Clone, Copy, Debug)]
pub struct Heartbeat {
    pub writer_guid: Guid,
    pub first_sn: SequenceNumber,
    pub last_sn: SequenceNumber,
    pub count: Count,
}

/// A reader tells a writer which changes it has and which it asks for.
#[derive(Debug)]
pub struct AckNack {
    pub reader_guid: Guid,
    pub writer_guid: Guid,
    pub acknowledged: SequenceNumberSet,
    pub requested: SequenceNumberSet,
    pub count: Count,
}

/// A writer tells a reader that the changes from `gap_start` to `gap_end`,
/// both included, will never come.
#[derive(Clone, Copy, Debug)]
pub struct Gap {
    pub reader_guid: Guid,
    pub writer_guid: Guid,
    pub gap_start: SequenceNumber,
    pub gap_end: SequenceNumber,
}

/// What a writer sends to one reader next.
#[derive(Clone, Copy, Debug)]
pub enum WriterAction {
    /// Send this change.
    Data { reader_guid: Guid, change: CacheChange },
    /// Tell the reader that this change is not available.
    Gap(Gap),
}

} // verus!
