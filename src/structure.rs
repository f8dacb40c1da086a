//! Leaf value types shared by every endpoint: identifiers, sequence numbers,
//! locators and the small enumerations of the protocol.

use vstd::prelude::*;
use std::cmp::Ordering;

verus! {

/// The ordering of two integers, as `Ord::cmp` gives it.
pub open spec fn ordering_of(a: int, b: int) -> Ordering {
    if a < b {
        Ordering::Less
    } else if a == b {
        Ordering::Equal
    } else {
        Ordering::Greater
    }
}

/// Byte-wise comparison of two fixed-size arrays.
pub fn bytes_equal<const N: usize>(a: &[u8; N], b: &[u8; N]) -> (r: bool)
    ensures
        r == (*a == *b),
{
    let mut i: usize = 0;
    while i < N
        invariant
            i <= N,
            forall|j: int| 0 <= j < i ==> a@[j] == b@[j],
        decreases N - i,
    {
        if a[i] != b[i] {
            return false;
        }
        i = i + 1;
    }
    assert(*a =~= *b);
    true
}

/// Identifies the participant that an entity belongs to: twelve octets.
pub type GuidPrefix = [u8; 12];

pub const GUIDPREFIX_UNKNOWN: GuidPrefix = [0, 0, 0, 0, 0, 0, 0, 0, 0, 0, 0, 0];

/// Identifies an entity within its participant: a three-octet key and a
/// one-octet kind.
#[derive(Clone, Copy, Debug, PartialOrd, Hash, Eq, Ord)]
pub struct EntityId {
    entity_key: [u8; 3],
    entity_kind: u8,
}

impl EntityId {
    pub closed spec fn key(&self) -> Seq<u8> {
        self.entity_key@
    }

    pub closed spec fn kind(&self) -> u8 {
        self.entity_kind
    }

    pub fn new(entity_key: [u8; 3], entity_kind: u8) -> (r: Self)
        ensures
            r.key() == entity_key@,
            r.kind() == entity_kind,
    {
        Self { entity_key, entity_kind }
    }
}

/// Two entity ids are equal exactly when their keys and kinds are.
pub proof fn lemma_entity_id_equality(a: EntityId, b: EntityId)
    ensures
        (a == b) == (a.key() == b.key() && a.kind() == b.kind()),
{
    if a.key() == b.key() {
        assert(a.entity_key =~= b.entity_key);
    }
}

impl PartialEq for EntityId {
    fn eq(&self, o: &EntityId) -> (r: bool) {
        bytes_equal(&self.entity_key, &o.entity_key) && self.entity_kind == o.entity_kind
    }
}

impl vstd::std_specs::cmp::PartialEqSpecImpl for EntityId {
    open spec fn obeys_eq_spec() -> bool {
        true
    }

    open spec fn eq_spec(&self, o: &EntityId) -> bool {
        *self == *o
    }
}

impl EntityId {
    /// The reserved entity id of the unknown.
    pub fn unknown() -> (r: EntityId)
        ensures
            r.key() == seq![0u8, 0u8, 0u8],
            r.kind() == 0u8,
    {
        let r = EntityId { entity_key: [0, 0, 0], entity_kind: 0 };
        assert(r.key() =~= seq![0u8, 0u8, 0u8]);
        r
    }

    /// The reserved entity id of the participant.
    pub fn participant() -> (r: EntityId)
        ensures
            r.key() == seq![0u8, 0u8, 1u8],
            r.kind() == 0xc1u8,
    {
        let r = EntityId { entity_key: [0, 0, 1], entity_kind: 0xc1 };
        assert(r.key() =~= seq![0u8, 0u8, 1u8]);
        r
    }

    /// The reserved entity id of the spdp builtin participant announcer.
    pub fn spdp_builtin_participant_announcer() -> (r: EntityId)
        ensures
            r.key() == seq![0u8, 1u8, 0u8],
            r.kind() == 0xc2u8,
    {
        let r = EntityId { entity_key: [0, 1, 0], entity_kind: 0xc2 };
        assert(r.key() =~= seq![0u8, 1u8, 0u8]);
        r
    }

    /// The reserved entity id of the spdp builtin participant detector.
    pub fn spdp_builtin_participant_detector() -> (r: EntityId)
        ensures
            r.key() == seq![0u8, 1u8, 0u8],
            r.kind() == 0xc7u8,
    {
        let r = EntityId { entity_key: [0, 1, 0], entity_kind: 0xc7 };
        assert(r.key() =~= seq![0u8, 1u8, 0u8]);
        r
    }

    /// The reserved entity id of the sedp builtin publications announcer.
    pub fn sedp_builtin_publications_announcer() -> (r: EntityId)
        ensures
            r.key() == seq![0u8, 0u8, 3u8],
            r.kind() == 0xc3u8,
    {
        let r = EntityId { entity_key: [0, 0, 3], entity_kind: 0xc3 };
        assert(r.key() =~= seq![0u8, 0u8, 3u8]);
        r
    }

    /// The reserved entity id of the sedp builtin publications detector.
    pub fn sedp_builtin_publications_detector() -> (r: EntityId)
        ensures
            r.key() == seq![0u8, 0u8, 3u8],
            r.kind() == 0xc7u8,
    {
        let r = EntityId { entity_key: [0, 0, 3], entity_kind: 0xc7 };
        assert(r.key() =~= seq![0u8, 0u8, 3u8]);
        r
    }

    /// The reserved entity id of the sedp builtin subscriptions announcer.
    pub fn sedp_builtin_subscriptions_announcer() -> (r: EntityId)
        ensures
            r.key() == seq![0u8, 0u8, 4u8],
            r.kind() == 0xc2u8,
    {
        let r = EntityId { entity_key: [0, 0, 4], entity_kind: 0xc2 };
        assert(r.key() =~= seq![0u8, 0u8, 4u8]);
        r
    }

    /// The reserved entity id of the sedp builtin subscriptions detector.
    pub fn sedp_builtin_subscriptions_detector() -> (r: EntityId)
        ensures
            r.key() == seq![0u8, 0u8, 4u8],
            r.kind() == 0xc7u8,
    {
        let r = EntityId { entity_key: [0, 0, 4], entity_kind: 0xc7 };
        assert(r.key() =~= seq![0u8, 0u8, 4u8]);
        r
    }

    /// The reserved entity id of the sedp builtin topics announcer.
    pub fn sedp_builtin_topics_announcer() -> (r: EntityId)
        ensures
            r.key() == seq![0u8, 0u8, 2u8],
            r.kind() == 0xc2u8,
    {
        let r = EntityId { entity_key: [0, 0, 2], entity_kind: 0xc2 };
        assert(r.key() =~= seq![0u8, 0u8, 2u8]);
        r
    }

    /// The reserved entity id of the sedp builtin topics detector.
    pub fn sedp_builtin_topics_detector() -> (r: EntityId)
        ensures
            r.key() == seq![0u8, 0u8, 2u8],
            r.kind() == 0xc7u8,
    {
        let r = EntityId { entity_key: [0, 0, 2], entity_kind: 0xc7 };
        assert(r.key() =~= seq![0u8, 0u8, 2u8]);
        r
    }

    /// The reserved entity id of the sedp builtin message writer.
    pub fn sedp_builtin_message_writer() -> (r: EntityId)
        ensures
            r.key() == seq![0u8, 2u8, 0u8],
            r.kind() == 0xc2u8,
    {
        let r = EntityId { entity_key: [0, 2, 0], entity_kind: 0xc2 };
        assert(r.key() =~= seq![0u8, 2u8, 0u8]);
        r
    }

    /// The reserved entity id of the sedp builtin message reader.
    pub fn sedp_builtin_message_reader() -> (r: EntityId)
        ensures
            r.key() == seq![0u8, 2u8, 0u8],
            r.kind() == 0xc7u8,
    {
        let r = EntityId { entity_key: [0, 2, 0], entity_kind: 0xc7 };
        assert(r.key() =~= seq![0u8, 2u8, 0u8]);
        r
    }
}

/// Globally unique identifier of an entity: its participant's prefix and its
/// own entity id. Equality and order are those of the fields.
#[derive(Clone, Copy, Debug, PartialOrd, Hash, Eq, Ord)]
pub struct Guid {
    guid_prefix: GuidPrefix,
    entity_id: EntityId,
}

impl Guid {
    pub closed spec fn prefix(&self) -> Seq<u8> {
        self.guid_prefix@
    }

    pub closed spec fn entity(&self) -> EntityId {
        self.entity_id
    }

    pub fn new(guid_prefix: GuidPrefix, entity_id: EntityId) -> (r: Self)
        ensures
            r.prefix() == guid_prefix@,
            r.entity() == entity_id,
    {
        Self { guid_prefix, entity_id }
    }

    pub fn guid_prefix(&self) -> (r: GuidPrefix)
        ensures
            r@ == self.prefix(),
    {
        self.guid_prefix
    }

    pub fn entity_id(&self) -> (r: EntityId)
        ensures
            r == self.entity(),
    {
        self.entity_id
    }
}

/// Two guids are equal exactly when their prefixes and entity ids are.
pub proof fn lemma_guid_equality(a: Guid, b: Guid)
    ensures
        (a == b) == (a.prefix() == b.prefix() && a.entity() == b.entity()),
{
    if a.prefix() == b.prefix() {
        assert(a.guid_prefix =~= b.guid_prefix);
    }
}

impl PartialEq for Guid {
    fn eq(&self, o: &Guid) -> (r: bool) {
        bytes_equal(&self.guid_prefix, &o.guid_prefix) && self.entity_id.eq(&o.entity_id)
    }
}

impl vstd::std_specs::cmp::PartialEqSpecImpl for Guid {
    open spec fn obeys_eq_spec() -> bool {
        true
    }

    open spec fn eq_spec(&self, o: &Guid) -> bool {
        *self == *o
    }
}

/// Number of values of the low word of a sequence number.
pub const LOW_WORD_SPAN: i64 = 0x1_0000_0000;

/// A 64-bit sequence number, held as the protocol writes it: a signed high
/// word and an unsigned low word. The number it stands for is
/// `high * 2^32 + low`; the order is the order of that number, which is also
/// the order of the pair (high, low).
#[derive(Clone, Copy, Debug, Default, PartialEq, Eq, Hash, Ord, Structural)]
pub struct SequenceNumber {
    high: i32,
    low: u32,
}

impl View for SequenceNumber {
    type V = int;

    closed spec fn view(&self) -> int {
        self.high as int * 0x1_0000_0000 + self.low as int
    }
}

impl SequenceNumber {
    pub fn new(high: i32, low: u32) -> (r: Self)
        ensures
            r@ == high as int * 0x1_0000_0000 + low as int,
    {
        Self { high, low }
    }

    /// The sequence number that stands for `v`.
    pub fn from_i64(v: i64) -> (r: Self)
        ensures
            r@ == v as int,
    {
        let shifted: i128 = v as i128 + 0x8000_0000_0000_0000i128;
        let high_part: i128 = shifted / 0x1_0000_0000i128;
        let low_part: i128 = shifted % 0x1_0000_0000i128;
        let high: i32 = (high_part - 0x8000_0000i128) as i32;
        let low: u32 = low_part as u32;
        Self { high, low }
    }

    /// The number that the unknown sequence number stands for.
    pub open spec fn unknown_spec() -> int {
        -0x1_0000_0000
    }

    /// The sentinel that stands for an unknown sequence number: high word -1,
    /// low word 0.
    pub fn unknown() -> (r: Self)
        ensures
            r@ == Self::unknown_spec(),
    {
        Self { high: -1, low: 0 }
    }

    /// The number this sequence number stands for.
    pub fn to_i64(&self) -> (r: i64)
        ensures
            r as int == self@,
    {
        self.high as i64 * LOW_WORD_SPAN + self.low as i64
    }

    /// The two words read as one unsigned 64-bit value: the high word's two's
    /// complement bits above the low word.
    pub fn value(&self) -> (r: u64)
        ensures
            self@ >= 0 ==> r as int == self@,
            self@ < 0 ==> r as int == self@ + 0x1_0000_0000_0000_0000,
    {
        let high_bits: u64 = if self.high >= 0 {
            self.high as u64
        } else {
            (self.high as i64 + LOW_WORD_SPAN) as u64
        };
        high_bits * 0x1_0000_0000u64 + self.low as u64
    }

    /// Moves to the next sequence number. Running past the largest one would
    /// be a broken invariant, so it is excluded.
    pub fn increment(&mut self)
        requires
            old(self)@ < i64::MAX,
        ensures
            final(self)@ == old(self)@ + 1,
    {
        self.low = if let Some(low) = self.low.checked_add(1) {
            low
        } else {
            self.high = self.high + 1;
            0
        };
    }
}

impl PartialOrd for SequenceNumber {
    fn partial_cmp(&self, other: &Self) -> (r: Option<Ordering>) {
        let a = self.to_i64();
        let b = other.to_i64();
        if a < b {
            Some(Ordering::Less)
        } else if a == b {
            Some(Ordering::Equal)
        } else {
            Some(Ordering::Greater)
        }
    }
}

impl vstd::std_specs::cmp::PartialOrdSpecImpl for SequenceNumber {
    open spec fn obeys_partial_cmp_spec() -> bool {
        true
    }

    open spec fn partial_cmp_spec(&self, other: &Self) -> Option<Ordering> {
        Some(ordering_of(self@, other@))
    }
}


/// Where an entity can be reached: a transport kind, a port and a 16-octet
/// address (an IPv4 address sits in the last four octets).
#[derive(Clone, Copy, Debug, PartialOrd, Hash, Eq, Ord)]
pub struct Locator {
    kind: LocatorKind,
    port: LocatorPort,
    address: LocatorAddress,
}

impl Locator {
    pub closed spec fn kind_spec(&self) -> LocatorKind {
        self.kind
    }

    pub closed spec fn port_spec(&self) -> LocatorPort {
        self.port
    }

    pub closed spec fn address_spec(&self) -> Seq<u8> {
        self.address@
    }

    pub fn new(kind: LocatorKind, port: LocatorPort, address: LocatorAddress) -> (r: Self)
        ensures
            r.kind_spec() == kind,
            r.port_spec() == port,
            r.address_spec() == address@,
    {
        Self { kind, port, address }
    }

    /// The UDPv4 locator for `ip` and `port`: the address holds `ip` in its
    /// last four octets and zeros before.
    pub closed spec fn udp_v4_spec(ip: [u8; 4], port: LocatorPort) -> Locator {
        Locator {
            kind: LocatorKind::UDPv4,
            port,
            address: [0, 0, 0, 0, 0, 0, 0, 0, 0, 0, 0, 0, ip[0], ip[1], ip[2], ip[3]],
        }
    }

    /// A UDPv4 locator for `ip` and `port`.
    pub fn udp_v4(ip: [u8; 4], port: LocatorPort) -> (r: Self)
        ensures
            r == Self::udp_v4_spec(ip, port),
            r.kind_spec() == LocatorKind::UDPv4,
            r.port_spec() == port,
            r.address_spec() == seq![0u8, 0, 0, 0, 0, 0, 0, 0, 0, 0, 0, 0].add(ip@),
    {
        let address: LocatorAddress = [0, 0, 0, 0, 0, 0, 0, 0, 0, 0, 0, 0, ip[0], ip[1], ip[2], ip[3]];
        let r = Self { kind: LocatorKind::UDPv4, port, address };
        assert(r.address_spec() =~= seq![0u8, 0, 0, 0, 0, 0, 0, 0, 0, 0, 0, 0].add(ip@));
        r
    }

    /// The locator that stands for no address at all.
    pub fn invalid() -> (r: Self)
        ensures
            r.kind_spec() == LocatorKind::Invalid,
            r.port_spec() == LOCATOR_PORT_INVALID,
            r.address_spec() == LOCATOR_ADDRESS_INVALID@,
    {
        Self { kind: LocatorKind::Invalid, port: LOCATOR_PORT_INVALID, address: LOCATOR_ADDRESS_INVALID }
    }

    pub fn kind(&self) -> (r: LocatorKind)
        ensures
            r == self.kind_spec(),
    {
        self.kind
    }

    pub fn port(&self) -> (r: LocatorPort)
        ensures
            r == self.port_spec(),
    {
        self.port
    }

    pub fn address(&self) -> (r: LocatorAddress)
        ensures
            r@ == self.address_spec(),
    {
        self.address
    }
}

impl PartialEq for Locator {
    fn eq(&self, o: &Locator) -> (r: bool) {
        self.kind == o.kind && self.port == o.port && bytes_equal(&self.address, &o.address)
    }
}

impl vstd::std_specs::cmp::PartialEqSpecImpl for Locator {
    open spec fn obeys_eq_spec() -> bool {
        true
    }

    open spec fn eq_spec(&self, o: &Locator) -> bool {
        *self == *o
    }
}

/// The transport that a locator names.
#[derive(Clone, Copy, Debug, PartialEq, PartialOrd, Hash, Eq, Ord, Structural)]
pub enum LocatorKind {
    Invalid,
    Reserved,
    UDPv4,
    UDPv6,
}

impl LocatorKind {
    pub open spec fn code_spec(&self) -> int {
        match self {
            LocatorKind::Invalid => -1,
            LocatorKind::Reserved => 0,
            LocatorKind::UDPv4 => 1,
            LocatorKind::UDPv6 => 2,
        }
    }

    /// The number that stands for this kind on the wire.
    pub fn code(&self) -> (r: i32)
        ensures
            r == self.code_spec(),
    {
        match self {
            LocatorKind::Invalid => -1,
            LocatorKind::Reserved => 0,
            LocatorKind::UDPv4 => 1,
            LocatorKind::UDPv6 => 2,
        }
    }
}

pub type LocatorPort = u32;

pub const LOCATOR_PORT_INVALID: LocatorPort = 0;

pub type LocatorAddress = [u8; 16];

pub const LOCATOR_ADDRESS_INVALID: LocatorAddress = [0, 0, 0, 0, 0, 0, 0, 0, 0, 0, 0, 0, 0, 0, 0, 0];

/// Whether a topic defines key fields that tell its data-instances apart.
#[derive(Clone, Copy, Debug, PartialEq, PartialOrd, Hash, Eq, Ord, Structural)]
pub enum TopicKind {
    WithKey,
    NoKey,
}

/// The kind of change made to a data-object.
#[derive(Clone, Copy, Debug, PartialEq, PartialOrd, Hash, Eq, Ord, Structural)]
pub enum ChangeKind {
    Alive,
    AliveFiltered,
    NotAliveDisposed,
    NotAliveUnregistered,
}

/// A counter of history-cache changes of some category, held in two words as
/// a sequence number is.
#[derive(Clone, Copy, Debug, PartialEq, PartialOrd, Hash, Eq, Ord, Structural)]
pub struct ChangeCount {
    high: i32,
    low: u32,
}

impl ChangeCount {
    pub closed spec fn high_spec(&self) -> i32 {
        self.high
    }

    pub closed spec fn low_spec(&self) -> u32 {
        self.low
    }

    pub fn new(high: i32, low: u32) -> (r: Self)
        ensures
            r.high_spec() == high,
            r.low_spec() == low,
    {
        Self { high, low }
    }

    /// The two words read as one unsigned 64-bit value: the high word's two's
    /// complement bits above the low word.
    pub fn value(&self) -> (r: u64)
        ensures
            self.high_spec() >= 0 ==> r as int == self.high_spec() as int * 0x1_0000_0000
                + self.low_spec() as int,
            self.high_spec() < 0 ==> r as int == (self.high_spec() as int + 0x1_0000_0000)
                * 0x1_0000_0000 + self.low_spec() as int,
    {
        let high_bits: u64 = if self.high >= 0 {
            self.high as u64
        } else {
            (self.high as i64 + LOW_WORD_SPAN) as u64
        };
        high_bits * 0x1_0000_0000u64 + self.low as u64
    }
}

/// The level of reliability of communication.
#[derive(Clone, Copy, Debug, PartialEq, PartialOrd, Hash, Eq, Ord, Structural)]
pub enum ReliabilityKind {
    BestEffort,
    Reliable,
}

impl ReliabilityKind {
    /// The number that stands for this kind on the wire.
    pub fn code(&self) -> (r: i32)
        ensures
            *self == ReliabilityKind::BestEffort ==> r == 1,
            *self == ReliabilityKind::Reliable ==> r == 2,
    {
        match self {
            ReliabilityKind::BestEffort => 1,
            ReliabilityKind::Reliable => 2,
        }
    }
}

/// Identity of a data-object (an instance of a keyed topic) whose changes
/// the protocol carries.
#[derive(Clone, Copy, Debug, Default, PartialEq, PartialOrd, Hash, Eq, Ord, Structural)]
pub struct InstanceHandle {
    pub key: u64,
}

impl InstanceHandle {
    pub fn new(key: u64) -> (r: Self)
        ensures
            r.key == key,
    {
        Self { key }
    }
}

/// Data that participants exchange among themselves, most notably to assert
/// the liveliness of their writers. The core carries it as it carries any
/// other payload.
#[derive(Clone, Copy, Debug, PartialEq, Eq, Hash, Structural)]
pub struct ParticipantMessageData;

/// A version of the protocol: major and minor number.
#[derive(Clone, Copy, Debug, PartialEq, PartialOrd, Hash, Eq, Ord, Structural)]
pub struct ProtocolVersion {
    pub major: u8,
    pub minor: u8,
}

impl ProtocolVersion {
    pub fn new(major: u8, minor: u8) -> (r: Self)
        ensures
            r.major == major,
            r.minor == minor,
    {
        Self { major, minor }
    }

    /// The version this library implements, 2.5.
    pub fn current() -> (r: Self)
        ensures
            r.major == 2,
            r.minor == 5,
    {
        Self { major: 2, minor: 5 }
    }
}

impl Default for ProtocolVersion {
    fn default() -> (r: Self)
        ensures
            r.major == 2,
            r.minor == 5,
    {
        Self::current()
    }
}

/// The vendor of the implementation that sent a message.
pub type VendorId = [u8; 2];

pub const VENDORID_UNKNOWN: VendorId = [0, 0];

/// A span of time, in nanoseconds.
#[derive(Clone, Copy, Debug, Default, PartialEq, PartialOrd, Hash, Eq, Ord, Structural)]
pub struct Duration {
    pub nanos: u64,
}

impl Duration {
    pub fn from_nanos(nanos: u64) -> (r: Self)
        ensures
            r.nanos == nanos,
    {
        Self { nanos }
    }

    pub fn from_millis(millis: u64) -> (r: Self)
        requires
            millis * 1_000_000 <= u64::MAX,
        ensures
            r.nanos == millis * 1_000_000,
    {
        Self { nanos: millis * 1_000_000 }
    }

    pub fn as_nanos(&self) -> (r: u64)
        ensures
            r == self.nanos,
    {
        self.nanos
    }
}

/// An entity that other entities can reference: it has a globally unique
/// identifier.
pub trait Entity {
    fn entity(&self) -> Guid;
}

} // verus!
