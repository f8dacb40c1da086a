//! Quality-of-service policies: the values that the policy collaborator
//! negotiates and that the core consumes (history depth, resource limits,
//! reliability and the like), and the order of each policy's kinds.

use vstd::prelude::*;
use std::cmp::Ordering;
use crate::structure::{ordering_of, Duration};

verus! {

/// A set of policies that may be attached to an entity. A policy left `None`
/// takes its default.
#[derive(Debug, PartialEq, PartialOrd, Hash, Eq, Ord)]
pub struct QoS {
    pub user_data: Option<UserData>,
    pub topic_data: Option<TopicData>,
    pub group_data: Option<GroupData>,
    pub durability: Option<Durability>,
    pub durability_service: Option<DurabilityService>,
    pub presentation: Option<Presentation>,
    pub deadline: Option<Deadline>,
    pub latency_budget: Option<LatencyBudget>,
    pub ownership: Option<Ownership>,
    pub liveliness: Option<Liveliness>,
    pub time_based_filter: Option<TimeBasedFilter>,
    pub partition: Option<Partition>,
    pub reliability: Option<Reliability>,
    pub transport_priority: Option<TransportPriority>,
    pub lifespan: Option<Lifespan>,
    pub destination_order: Option<DestinationOrder>,
    pub history: Option<History>,
    pub resource_limits: Option<ResourceLimits>,
    pub entity_factory: Option<EntityFactory>,
    pub writer_data_lifecycle: Option<WriterDataLifecycle>,
    pub reader_data_lifecycle: Option<ReaderDataLifecycle>,
}

impl QoS {
    /// Every policy left `None`.
    pub open spec fn is_empty(&self) -> bool {
        &&& self.user_data.is_none()
        &&& self.topic_data.is_none()
        &&& self.group_data.is_none()
        &&& self.durability.is_none()
        &&& self.durability_service.is_none()
        &&& self.presentation.is_none()
        &&& self.deadline.is_none()
        &&& self.latency_budget.is_none()
        &&& self.ownership.is_none()
        &&& self.liveliness.is_none()
        &&& self.time_based_filter.is_none()
        &&& self.partition.is_none()
        &&& self.reliability.is_none()
        &&& self.transport_priority.is_none()
        &&& self.lifespan.is_none()
        &&& self.destination_order.is_none()
        &&& self.history.is_none()
        &&& self.resource_limits.is_none()
        &&& self.entity_factory.is_none()
        &&& self.writer_data_lifecycle.is_none()
        &&& self.reader_data_lifecycle.is_none()
    }

    pub fn new() -> (r: Self)
        ensures
            r.is_empty(),
    {
        QoS {
            user_data: None,
            topic_data: None,
            group_data: None,
            durability: None,
            durability_service: None,
            presentation: None,
            deadline: None,
            latency_budget: None,
            ownership: None,
            liveliness: None,
            time_based_filter: None,
            partition: None,
            reliability: None,
            transport_priority: None,
            lifespan: None,
            destination_order: None,
            history: None,
            resource_limits: None,
            entity_factory: None,
            writer_data_lifecycle: None,
            reader_data_lifecycle: None,
        }
    }

    /// Sets the durability policy; every other policy stays as it was. Returns
    /// the policies, so that settings can be chained.
    pub fn durability(&mut self, kind: DurabilityKind) -> (r: &mut Self)
        ensures
            *r == (QoS { durability: Some(Durability { kind }), ..*old(self) }),
            *final(self) == *final(r),
    {
        self.durability = Some(Durability { kind });
        self
    }

    /// Sets the history policy; every other policy stays as it was. Returns
    /// the policies, so that settings can be chained.
    pub fn history(&mut self, kind: HistoryKind, depth: Option<usize>) -> (r: &mut Self)
        ensures
            *r == (QoS { history: Some(History { kind, depth }), ..*old(self) }),
            *final(self) == *final(r),
    {
        self.history = Some(History { kind, depth });
        self
    }

    /// Sets the reliability policy; every other policy stays as it was.
    /// Returns the policies, so that settings can be chained.
    pub fn reliability(&mut self, kind: ReliabilityKind, max_blocking_time: Duration) -> (r:
        &mut Self)
        ensures
            *r == (QoS { reliability: Some(Reliability { kind, max_blocking_time }), ..*old(self) }),
            *final(self) == *final(r),
    {
        self.reliability = Some(Reliability { kind, max_blocking_time });
        self
    }

    /// Ends a chain of settings: the policies as they stand.
    pub fn build(self) -> (r: Self)
        ensures
            r == self,
    {
        self
    }
}

impl Default for QoS {
    fn default() -> (r: Self)
        ensures
            r.is_empty(),
    {
        QoS::new()
    }
}

/// Application data attached to an entity when it is created.
#[derive(Debug, PartialEq, PartialOrd, Hash, Eq, Ord)]
pub struct UserData {
    pub value: Vec<u8>,
}

#[derive(Debug, PartialEq, PartialOrd, Hash, Eq, Ord)]
pub struct TopicData {
    pub value: Vec<u8>,
}

#[derive(Debug, PartialEq, PartialOrd, Hash, Eq, Ord)]
pub struct GroupData {
    pub datavalue: Vec<u8>,
}

#[derive(Debug, PartialEq, PartialOrd, Hash, Eq, Ord)]
pub struct Durability {
    pub kind: DurabilityKind,
}

#[derive(Debug, PartialEq, PartialOrd, Hash, Eq, Ord)]
pub struct DurabilityService {
    pub service_cleanup_delay: Duration,
    pub history_kind: HistoryKind,
    pub history_depth: i32,
    pub max_samples: i32,
    pub max_instances: i32,
    pub max_samples_per_instance: i32,
}

#[derive(Debug, PartialEq, PartialOrd, Hash, Eq, Ord)]
pub struct Presentation {
    pub access_scope: PresentationAccessScopeKind,
    pub coherent_access: bool,
    pub ordered_access: bool,
}

#[derive(Debug, PartialEq, PartialOrd, Hash, Eq, Ord)]
pub struct Deadline {
    pub period: Duration,
}

#[derive(Debug, PartialEq, PartialOrd, Hash, Eq, Ord)]
pub struct LatencyBudget {
    pub period: Duration,
}

#[derive(Debug, PartialEq, PartialOrd, Hash, Eq, Ord)]
pub struct Ownership {
    pub kind: OwnershipKind,
}

#[derive(Debug, PartialEq, PartialOrd, Hash, Eq, Ord)]
pub struct Liveliness {
    pub lease_duration: Duration,
    pub kind: LivelinessKind,
}

#[derive(Debug, PartialEq, PartialOrd, Hash, Eq, Ord)]
pub struct TimeBasedFilter {
    pub minimum_separation: Duration,
}

#[derive(Debug, PartialEq, PartialOrd, Hash, Eq, Ord)]
pub struct Partition {
    pub name: String,
}

#[derive(Debug, PartialEq, PartialOrd, Hash, Eq, Ord)]
pub struct Reliability {
    pub kind: ReliabilityKind,
    pub max_blocking_time: Duration,
}

#[derive(Debug, PartialEq, PartialOrd, Hash, Eq, Ord)]
pub struct TransportPriority {
    pub value: i32,
}

#[derive(Debug, PartialEq, PartialOrd, Hash, Eq, Ord)]
pub struct Lifespan {
    pub duration: Duration,
}

#[derive(Debug, PartialEq, PartialOrd, Hash, Eq, Ord)]
pub struct DestinationOrder {
    pub kind: DestinationOrderKind,
}

/// How many changes of each instance a history cache keeps.
#[derive(Debug, PartialEq, PartialOrd, Hash, Eq, Ord)]
pub struct History {
    pub kind: HistoryKind,
    pub depth: Option<usize>,
}

/// Bounds on what a history cache may hold; a negative value means no bound.
#[derive(Debug, PartialEq, PartialOrd, Hash, Eq, Ord)]
pub struct ResourceLimits {
    pub max_samples: i32,
    pub max_instances: i32,
    pub max_samples_per_instance: i32,
}

#[derive(Debug, PartialEq, PartialOrd, Hash, Eq, Ord)]
pub struct EntityFactory {
    pub autoenable_created_entities: bool,
}

#[derive(Debug, PartialEq, PartialOrd, Hash, Eq, Ord)]
pub struct WriterDataLifecycle {
    pub autodispose_unregistered_instances: bool,
}

#[derive(Debug, PartialEq, PartialOrd, Hash, Eq, Ord)]
pub struct ReaderDataLifecycle {
    pub autopurge_nowriter_samples_delay: Duration,
    pub autopurge_disposed_samples_delay: Duration,
}

/// How long data outlives the writer that wrote it, from least to most lasting.
#[derive(Clone, Copy, Debug, PartialEq, Hash, Eq, Ord, Structural)]
pub enum DurabilityKind {
    Volatile,
    TransientLocal,
    Transient,
    Persistent,
}

impl DurabilityKind {
    /// Position of the kind in the order of the policy.
    pub open spec fn rank_spec(&self) -> int {
        match self {
            DurabilityKind::Volatile => 0,
            DurabilityKind::TransientLocal => 1,
            DurabilityKind::Transient => 2,
            DurabilityKind::Persistent => 3,
        }
    }

    pub fn rank(&self) -> (r: u8)
        ensures
            r as int == self.rank_spec(),
    {
        match self {
            DurabilityKind::Volatile => 0,
            DurabilityKind::TransientLocal => 1,
            DurabilityKind::Transient => 2,
            DurabilityKind::Persistent => 3,
        }
    }
}

impl PartialOrd for DurabilityKind {
    fn partial_cmp(&self, other: &Self) -> (r: Option<Ordering>) {
        let a = self.rank();
        let b = other.rank();
        if a < b {
            Some(Ordering::Less)
        } else if a == b {
            Some(Ordering::Equal)
        } else {
            Some(Ordering::Greater)
        }
    }
}

impl vstd::std_specs::cmp::PartialOrdSpecImpl for DurabilityKind {
    open spec fn obeys_partial_cmp_spec() -> bool {
        true
    }

    open spec fn partial_cmp_spec(&self, other: &Self) -> Option<Ordering> {
        Some(ordering_of(self.rank_spec(), other.rank_spec()))
    }
}

/// The scope over which changes are presented together, from narrowest to widest.
#[derive(Clone, Copy, Debug, PartialEq, Hash, Eq, Ord, Structural)]
pub enum PresentationAccessScopeKind {
    Instance,
    Topic,
    Group,
}

impl PresentationAccessScopeKind {
    /// Position of the kind in the order of the policy.
    pub open spec fn rank_spec(&self) -> int {
        match self {
            PresentationAccessScopeKind::Instance => 0,
            PresentationAccessScopeKind::Topic => 1,
            PresentationAccessScopeKind::Group => 2,
        }
    }

    pub fn rank(&self) -> (r: u8)
        ensures
            r as int == self.rank_spec(),
    {
        match self {
            PresentationAccessScopeKind::Instance => 0,
            PresentationAccessScopeKind::Topic => 1,
            PresentationAccessScopeKind::Group => 2,
        }
    }
}

impl PartialOrd for PresentationAccessScopeKind {
    fn partial_cmp(&self, other: &Self) -> (r: Option<Ordering>) {
        let a = self.rank();
        let b = other.rank();
        if a < b {
            Some(Ordering::Less)
        } else if a == b {
            Some(Ordering::Equal)
        } else {
            Some(Ordering::Greater)
        }
    }
}

impl vstd::std_specs::cmp::PartialOrdSpecImpl for PresentationAccessScopeKind {
    open spec fn obeys_partial_cmp_spec() -> bool {
        true
    }

    open spec fn partial_cmp_spec(&self, other: &Self) -> Option<Ordering> {
        Some(ordering_of(self.rank_spec(), other.rank_spec()))
    }
}

/// How the liveliness of a writer is asserted, from least to most demanding.
#[derive(Clone, Copy, Debug, PartialEq, Hash, Eq, Ord, Structural)]
pub enum LivelinessKind {
    Automatic,
    ManualByParticipant,
    ManualByTopic,
}

impl LivelinessKind {
    /// Position of the kind in the order of the policy.
    pub open spec fn rank_spec(&self) -> int {
        match self {
            LivelinessKind::Automatic => 0,
            LivelinessKind::ManualByParticipant => 1,
            LivelinessKind::ManualByTopic => 2,
        }
    }

    pub fn rank(&self) -> (r: u8)
        ensures
            r as int == self.rank_spec(),
    {
        match self {
            LivelinessKind::Automatic => 0,
            LivelinessKind::ManualByParticipant => 1,
            LivelinessKind::ManualByTopic => 2,
        }
    }
}

impl PartialOrd for LivelinessKind {
    fn partial_cmp(&self, other: &Self) -> (r: Option<Ordering>) {
        let a = self.rank();
        let b = other.rank();
        if a < b {
            Some(Ordering::Less)
        } else if a == b {
            Some(Ordering::Equal)
        } else {
            Some(Ordering::Greater)
        }
    }
}

impl vstd::std_specs::cmp::PartialOrdSpecImpl for LivelinessKind {
    open spec fn obeys_partial_cmp_spec() -> bool {
        true
    }

    open spec fn partial_cmp_spec(&self, other: &Self) -> Option<Ordering> {
        Some(ordering_of(self.rank_spec(), other.rank_spec()))
    }
}

/// The delivery guarantee of a writer or reader, from weakest to strongest.
#[derive(Clone, Copy, Debug, PartialEq, Hash, Eq, Ord, Structural)]
pub enum ReliabilityKind {
    BestEffort,
    Reliable,
}

impl ReliabilityKind {
    /// Position of the kind in the order of the policy.
    pub open spec fn rank_spec(&self) -> int {
        match self {
            ReliabilityKind::BestEffort => 0,
            ReliabilityKind::Reliable => 1,
        }
    }

    pub fn rank(&self) -> (r: u8)
        ensures
            r as int == self.rank_spec(),
    {
        match self {
            ReliabilityKind::BestEffort => 0,
            ReliabilityKind::Reliable => 1,
        }
    }
}

impl PartialOrd for ReliabilityKind {
    fn partial_cmp(&self, other: &Self) -> (r: Option<Ordering>) {
        let a = self.rank();
        let b = other.rank();
        if a < b {
            Some(Ordering::Less)
        } else if a == b {
            Some(Ordering::Equal)
        } else {
            Some(Ordering::Greater)
        }
    }
}

impl vstd::std_specs::cmp::PartialOrdSpecImpl for ReliabilityKind {
    open spec fn obeys_partial_cmp_spec() -> bool {
        true
    }

    open spec fn partial_cmp_spec(&self, other: &Self) -> Option<Ordering> {
        Some(ordering_of(self.rank_spec(), other.rank_spec()))
    }
}

/// How samples of an instance are ordered at the reader, from weakest to strongest.
#[derive(Clone, Copy, Debug, PartialEq, Hash, Eq, Ord, Structural)]
pub enum DestinationOrderKind {
    ByReceptionTimestamp,
    BySourceTimestamp,
}

impl DestinationOrderKind {
    /// Position of the kind in the order of the policy.
    pub open spec fn rank_spec(&self) -> int {
        match self {
            DestinationOrderKind::ByReceptionTimestamp => 0,
            DestinationOrderKind::BySourceTimestamp => 1,
        }
    }

    pub fn rank(&self) -> (r: u8)
        ensures
            r as int == self.rank_spec(),
    {
        match self {
            DestinationOrderKind::ByReceptionTimestamp => 0,
            DestinationOrderKind::BySourceTimestamp => 1,
        }
    }
}

impl PartialOrd for DestinationOrderKind {
    fn partial_cmp(&self, other: &Self) -> (r: Option<Ordering>) {
        let a = self.rank();
        let b = other.rank();
        if a < b {
            Some(Ordering::Less)
        } else if a == b {
            Some(Ordering::Equal)
        } else {
            Some(Ordering::Greater)
        }
    }
}

impl vstd::std_specs::cmp::PartialOrdSpecImpl for DestinationOrderKind {
    open spec fn obeys_partial_cmp_spec() -> bool {
        true
    }

    open spec fn partial_cmp_spec(&self, other: &Self) -> Option<Ordering> {
        Some(ordering_of(self.rank_spec(), other.rank_spec()))
    }
}

impl DurabilityKind {
    /// The offered kind is compatible with this requested kind if and only if
    /// the offered kind is at least as lasting as the requested one.
    pub fn is_compatible(&self, offered: &Self) -> (r: bool)
        ensures
            r == (offered.rank_spec() >= self.rank_spec()),
    {
        offered.rank() >= self.rank()
    }
}

/// Whether one writer or several may own an instance.
#[derive(Clone, Copy, Debug, PartialEq, PartialOrd, Hash, Eq, Ord, Structural)]
pub enum OwnershipKind {
    Shared,
    Exclusive { strength: usize },
}

/// Whether a history cache keeps every change or only the newest of each
/// instance.
#[derive(Clone, Copy, Debug, PartialEq, PartialOrd, Hash, Eq, Ord, Structural)]
pub enum HistoryKind {
    KeepAll,
    KeepLast,
}

} // verus!
