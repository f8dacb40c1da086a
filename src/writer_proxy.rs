//! The state that a reliable reader keeps for one matched remote writer.

use vstd::prelude::*;
use crate::messages::Count;
use crate::sequence_set::{ascending, set_of, SequenceNumberSet};
use crate::structure::{EntityId, Guid, Locator, SequenceNumber};

verus! {

/// Where one change of a matched writer stands for the reader. It is derived
/// from the writer's proxy and never stored.
#[derive(Clone, Copy, Debug, PartialEq, Eq, Hash, Structural)]
pub enum ChangeFromWriterStatusKind {
    /// Not relevant to the reader; it will not be delivered.
    NotAvailableFiltered,
    /// The writer no longer has it; it will never arrive.
    NotAvailableRemoved,
    /// Not available for a reason the writer did not give. This core always
    /// knows the reason, so it never reports this one.
    NotAvailableUnspecified,
    /// Announced by the writer and not received yet.
    Missing,
    /// Received.
    Received,
    /// Not announced yet.
    Unknown,
}

/// What a writer proxy holds, in the terms its contracts use.
pub struct WriterProxyView {
    pub remote_writer_guid: Guid,
    pub remote_group_entity_id: EntityId,
    pub unicast_locator_list: Seq<Locator>,
    pub multicast_locator_list: Seq<Locator>,
    pub data_max_size_serialized: i32,
    pub received: Set<int>,
    pub filtered: Set<int>,
    pub removed: Set<int>,
    /// Every change below this one that was neither received nor filtered is
    /// removed.
    pub lost_below: int,
    /// The greatest sequence number that a heartbeat announced (0 for none).
    pub announced: int,
    pub available_max: int,
    pub last_heartbeat_count: Count,
    pub acknack_due: Option<u64>,
    pub acknack_count: Count,
}

/// Change `n` is settled for the reader: received, or known never to come.
pub open spec fn settled(v: WriterProxyView, n: int) -> bool {
    ||| v.received.contains(n)
    ||| v.filtered.contains(n)
    ||| v.removed.contains(n)
    ||| n < v.lost_below
}

/// `m` is the greatest number such that every change from 1 to it is
/// settled.
pub open spec fn is_available_max(v: WriterProxyView, m: int) -> bool {
    &&& m >= 0
    &&& forall|k: int| 1 <= k <= m ==> #[trigger] settled(v, k)
    &&& !settled(v, m + 1)
}

/// `v` with its available maximum brought up to date.
pub open spec fn with_available_max(v: WriterProxyView) -> WriterProxyView {
    WriterProxyView { available_max: choose|m: int| is_available_max(v, m), ..v }
}

/// The status of change `n` for a reader whose proxy of the writer holds `v`.
pub open spec fn writer_status(v: WriterProxyView, n: int) -> ChangeFromWriterStatusKind {
    if v.received.contains(n) {
        ChangeFromWriterStatusKind::Received
    } else if v.filtered.contains(n) {
        ChangeFromWriterStatusKind::NotAvailableFiltered
    } else if n >= 1 && (v.removed.contains(n) || n < v.lost_below) {
        ChangeFromWriterStatusKind::NotAvailableRemoved
    } else if 1 <= n <= v.announced {
        ChangeFromWriterStatusKind::Missing
    } else {
        ChangeFromWriterStatusKind::Unknown
    }
}

/// The proxy after change `n` is received: a change already settled leaves
/// it as it was.
pub open spec fn received_set(v: WriterProxyView, n: int) -> WriterProxyView {
    if settled(v, n) {
        v
    } else {
        with_available_max(WriterProxyView { received: v.received.insert(n), ..v })
    }
}

/// The proxy after change `n` is found irrelevant to the reader.
pub open spec fn irrelevant_set(v: WriterProxyView, n: int) -> WriterProxyView {
    if settled(v, n) {
        v
    } else {
        with_available_max(WriterProxyView { filtered: v.filtered.insert(n), ..v })
    }
}

/// The proxy after the writer said that nothing below `first` is available.
pub open spec fn lost_set(v: WriterProxyView, first: int) -> WriterProxyView {
    if first <= v.lost_below {
        v
    } else {
        with_available_max(WriterProxyView { lost_below: first, ..v })
    }
}

/// The proxy after a gap from the writer over the changes from `start` to
/// `end`: those of them not settled will never arrive.
pub open spec fn gap_set(v: WriterProxyView, start: int, end: int) -> WriterProxyView {
    if start <= v.available_max + 1 {
        lost_set(v, end + 1)
    } else {
        with_available_max(
            WriterProxyView {
                removed: v.removed.union(Set::new(|n: int| start <= n <= end && !settled(v, n))),
                ..v
            },
        )
    }
}

/// The changes that the writer announced and the reader still lacks.
pub open spec fn missing_set(v: WriterProxyView) -> Set<int> {
    Set::new(|n: int| 1 <= n <= v.announced && !settled(v, n))
}

/// A consistent proxy: its available maximum is up to date, nothing below 1
/// counts as lost, and the announced range does not reach below 0.
pub open spec fn proxy_wf(v: WriterProxyView) -> bool {
    &&& is_available_max(v, v.available_max)
    &&& v.lost_below >= 1
    &&& v.announced >= 0
}

/// Two available maxima of one proxy are the same.
pub proof fn lemma_available_max_unique(v: WriterProxyView, a: int, b: int)
    requires
        is_available_max(v, a),
        is_available_max(v, b),
    ensures
        a == b,
{
    if a < b {
        assert(settled(v, a + 1));
    } else if b < a {
        assert(settled(v, b + 1));
    }
}

/// The state of a matched remote writer: where to reach it, the changes of
/// it that were received, filtered out or removed, the range it announced,
/// and the acknack that is due to it. Only sequence numbers are kept.
#[derive(Debug)]
pub struct WriterProxy {
    remote_writer_guid: Guid,
    remote_group_entity_id: EntityId,
    unicast_locator_list: Vec<Locator>,
    multicast_locator_list: Vec<Locator>,
    data_max_size_serialized: i32,
    received: SequenceNumberSet,
    filtered: SequenceNumberSet,
    removed: SequenceNumberSet,
    lost_below: SequenceNumber,
    announced: SequenceNumber,
    available_max: SequenceNumber,
    last_heartbeat_count: Count,
    acknack_due: Option<u64>,
    acknack_count: Count,
}

impl View for WriterProxy {
    type V = WriterProxyView;

    closed spec fn view(&self) -> WriterProxyView {
        WriterProxyView {
            remote_writer_guid: self.remote_writer_guid,
            remote_group_entity_id: self.remote_group_entity_id,
            unicast_locator_list: self.unicast_locator_list@,
            multicast_locator_list: self.multicast_locator_list@,
            data_max_size_serialized: self.data_max_size_serialized,
            received: self.received@,
            filtered: self.filtered@,
            removed: self.removed@,
            lost_below: self.lost_below@,
            announced: self.announced@,
            available_max: self.available_max@,
            last_heartbeat_count: self.last_heartbeat_count,
            acknack_due: self.acknack_due,
            acknack_count: self.acknack_count,
        }
    }
}

impl WriterProxy {
    /// The proxy is consistent: its available maximum is up to date, and
    /// nothing below 1 is settled.
    pub open spec fn wf(&self) -> bool {
        proxy_wf(self@)
    }

    /// A proxy for a newly matched writer: nothing announced, received or
    /// lost yet.
    pub fn new(
        remote_writer_guid: Guid,
        remote_group_entity_id: EntityId,
        unicast_locator_list: Vec<Locator>,
        multicast_locator_list: Vec<Locator>,
        data_max_size_serialized: i32,
    ) -> (r: Self)
        ensures
            r.wf(),
            r@ == (WriterProxyView {
                remote_writer_guid,
                remote_group_entity_id,
                unicast_locator_list: unicast_locator_list@,
                multicast_locator_list: multicast_locator_list@,
                data_max_size_serialized,
                received: Set::empty(),
                filtered: Set::empty(),
                removed: Set::empty(),
                lost_below: 1,
                announced: 0,
                available_max: 0,
                last_heartbeat_count: 0,
                acknack_due: None,
                acknack_count: 0,
            }),
    {
        Self {
            remote_writer_guid,
            remote_group_entity_id,
            unicast_locator_list,
            multicast_locator_list,
            data_max_size_serialized,
            received: SequenceNumberSet::new(),
            filtered: SequenceNumberSet::new(),
            removed: SequenceNumberSet::new(),
            lost_below: SequenceNumber::new(0, 1),
            announced: SequenceNumber::new(0, 0),
            available_max: SequenceNumber::new(0, 0),
            last_heartbeat_count: 0,
            acknack_due: None,
            acknack_count: 0,
        }
    }

    pub fn remote_writer_guid(&self) -> (r: Guid)
        ensures
            r == self@.remote_writer_guid,
    {
        self.remote_writer_guid
    }

    /// The greatest sequence number up to which every change is received or
    /// known never to come.
    pub fn available_changes_max(&self) -> (r: SequenceNumber)
        ensures
            r@ == self@.available_max,
    {
        self.available_max
    }

    pub fn is_received(&self, n: SequenceNumber) -> (r: bool)
        ensures
            r == self@.received.contains(n@),
    {
        self.received.contains(n)
    }

    pub fn is_settled(&self, n: SequenceNumber) -> (r: bool)
        ensures
            r == settled(self@, n@),
    {
        self.received.contains(n) || self.filtered.contains(n) || self.removed.contains(n)
            || n.to_i64() < self.lost_below.to_i64()
    }

    /// The status of change `n`.
    pub fn status(&self, n: SequenceNumber) -> (r: ChangeFromWriterStatusKind)
        ensures
            r == writer_status(self@, n@),
    {
        let v = n.to_i64();
        if self.received.contains(n) {
            ChangeFromWriterStatusKind::Received
        } else if self.filtered.contains(n) {
            ChangeFromWriterStatusKind::NotAvailableFiltered
        } else if v >= 1 && (self.removed.contains(n) || v < self.lost_below.to_i64()) {
            ChangeFromWriterStatusKind::NotAvailableRemoved
        } else if 1 <= v && v <= self.announced.to_i64() {
            ChangeFromWriterStatusKind::Missing
        } else {
            ChangeFromWriterStatusKind::Unknown
        }
    }

    /// A number above which nothing is settled.
    fn settled_bound(&self) -> (r: i64)
        requires
            self@.lost_below >= 1,
        ensures
            r >= self@.lost_below - 1,
            forall|n: int| #[trigger] settled(self@, n) ==> n <= r,
    {
        let mut bound = self.lost_below.to_i64() - 1;
        match self.received.max() {
            Some(m) => {
                if m.to_i64() > bound {
                    bound = m.to_i64();
                }
            },
            None => {},
        }
        match self.filtered.max() {
            Some(m) => {
                if m.to_i64() > bound {
                    bound = m.to_i64();
                }
            },
            None => {},
        }
        match self.removed.max() {
            Some(m) => {
                if m.to_i64() > bound {
                    bound = m.to_i64();
                }
            },
            None => {},
        }
        bound
    }

    /// Brings the available maximum up to date after changes were settled.
    fn advance(&mut self)
        requires
            old(self)@.available_max >= 0,
            old(self)@.lost_below >= 1,
            forall|k: int| 1 <= k <= old(self)@.available_max ==> #[trigger] settled(old(self)@, k),
        ensures
            final(self)@ == with_available_max(old(self)@),
            is_available_max(final(self)@, final(self)@.available_max),
    {
        let bound = self.settled_bound();
        let mut a = self.available_max.to_i64();
        while a < bound && self.is_settled(SequenceNumber::from_i64(a + 1))
            invariant
                self@ == old(self)@,
                a >= 0,
                forall|k: int| 1 <= k <= a ==> #[trigger] settled(self@, k),
                forall|n: int| #[trigger] settled(self@, n) ==> n <= bound,
            decreases bound - a,
        {
            a = a + 1;
        }
        assert(!settled(self@, a + 1));
        self.available_max = SequenceNumber::from_i64(a);
        proof {
            let v = old(self)@;
            assert(is_available_max(v, a as int));
            let c = choose|m: int| is_available_max(v, m);
            lemma_available_max_unique(v, c, a as int);
            assert(self@ == with_available_max(old(self)@));
            assert forall|k: int| 1 <= k <= a implies #[trigger] settled(self@, k) by {
                assert(settled(v, k));
            }
            assert(!settled(v, a + 1));
        }
    }

    /// Records that change `n` was received. A change already received, or
    /// known never to come, is left as it was. Returns whether the change is
    /// new to the reader.
    pub fn received_change_set(&mut self, n: SequenceNumber) -> (r: bool)
        requires
            old(self).wf(),
        ensures
            final(self).wf(),
            final(self)@ == received_set(old(self)@, n@),
            r == !settled(old(self)@, n@),
    {
        if self.is_settled(n) {
            return false;
        }
        self.received.insert(n);
        assert forall|k: int| 1 <= k <= self@.available_max implies #[trigger] settled(self@, k) by {
            assert(settled(old(self)@, k));
        }
        self.advance();
        true
    }

    /// Records that change `n` is irrelevant to the reader: it will not be
    /// delivered. A settled change is left as it was.
    pub fn irrelevant_change_set(&mut self, n: SequenceNumber)
        requires
            old(self).wf(),
        ensures
            final(self).wf(),
            final(self)@ == irrelevant_set(old(self)@, n@),
    {
        if self.is_settled(n) {
            return;
        }
        self.filtered.insert(n);
        assert forall|k: int| 1 <= k <= self@.available_max implies #[trigger] settled(self@, k) by {
            assert(settled(old(self)@, k));
        }
        self.advance();
    }

    /// Records that the writer no longer has anything below
    /// `first_available`: whatever below it was not received or filtered out
    /// will never arrive.
    pub fn lost_changes_update(&mut self, first_available: SequenceNumber)
        requires
            old(self).wf(),
        ensures
            final(self).wf(),
            final(self)@ == lost_set(old(self)@, first_available@),
    {
        if first_available.to_i64() <= self.lost_below.to_i64() {
            return;
        }
        self.lost_below = first_available;
        assert forall|k: int| 1 <= k <= self@.available_max implies #[trigger] settled(self@, k) by {
            assert(settled(old(self)@, k));
        }
        self.advance();
    }

    /// Records a gap from the writer: the changes from `start` to `end` that
    /// are not settled will never arrive.
    pub fn gap_change_set(&mut self, start: SequenceNumber, end: SequenceNumber)
        requires
            old(self).wf(),
            1 <= start@ <= end@ < i64::MAX,
        ensures
            final(self).wf(),
            final(self)@ == gap_set(old(self)@, start@, end@),
    {
        if start.to_i64() - 1 <= self.available_max.to_i64() {
            self.lost_changes_update(SequenceNumber::from_i64(end.to_i64() + 1));
            return;
        }
        let ghost v = old(self)@;
        assert(v.removed.union(Set::new(|n: int| start@ <= n < start@ && !settled(v, n))) =~= v.removed);
        let mut k = start.to_i64();
        while k <= end.to_i64()
            invariant
                start@ <= k <= end@ + 1,
                end@ < i64::MAX,
                self.wf(),
                self@ == (WriterProxyView {
                    removed: v.removed.union(Set::new(|n: int| start@ <= n < k && !settled(v, n))),
                    ..v
                }),
                v.available_max + 1 < start@,
            decreases end@ + 1 - k,
        {
            let n = SequenceNumber::from_i64(k);
            let ghost before = self@;
            if !self.is_settled(n) {
                self.removed.insert(n);
            }
            proof {
                assert(settled(before, n@) == settled(v, n@)) by {
                    if v.removed.contains(n@) {
                        assert(before.removed.contains(n@));
                    }
                }
                assert(self@.removed =~= v.removed.union(
                    Set::new(|m: int| start@ <= m < k + 1 && !settled(v, m)),
                ));
                assert forall|j: int| 1 <= j <= self@.available_max implies #[trigger] settled(self@, j) by {
                    assert(settled(before, j));
                }
                assert(!settled(self@, self@.available_max + 1));
            }
            k = k + 1;
        }
        proof {
            let w = self@;
            assert(Set::new(|n: int| start@ <= n < end@ + 1 && !settled(v, n)) =~= Set::new(
                |n: int| start@ <= n <= end@ && !settled(v, n),
            ));
            assert(is_available_max(w, w.available_max));
            let c = choose|m: int| is_available_max(w, m);
            lemma_available_max_unique(w, c, w.available_max);
            assert(w == with_available_max(w));
        }
    }

    /// Records that the writer announced changes up to `last_available`.
    pub fn missing_changes_update(&mut self, last_available: SequenceNumber)
        requires
            old(self).wf(),
        ensures
            final(self).wf(),
            final(self)@ == (WriterProxyView {
                announced: if last_available@ > old(self)@.announced {
                    last_available@
                } else {
                    old(self)@.announced
                },
                ..old(self)@
            }),
    {
        if last_available.to_i64() > self.announced.to_i64() {
            self.announced = last_available;
        }
        assert forall|k: int| 1 <= k <= self@.available_max implies #[trigger] settled(self@, k) by {
            assert(settled(old(self)@, k));
        }
        assert(!settled(old(self)@, old(self)@.available_max + 1));
    }

    /// The changes that the writer announced and that the reader neither
    /// received nor knows never to come, in increasing order.
    pub fn missing_changes(&self) -> (r: Vec<SequenceNumber>)
        requires
            self.wf(),
        ensures
            set_of(r@) == missing_set(self@),
            forall|i: int, j: int| 0 <= i < j < r@.len() ==> #[trigger] r@[i]@ < #[trigger] r@[j]@,
    {
        let mut r: Vec<SequenceNumber> = Vec::new();
        let last = self.announced.to_i64();
        let mut k = self.available_max.to_i64();
        while k < last
            invariant
                self.wf(),
                last == self@.announced,
                self@.available_max <= k || k == self@.available_max,
                k >= self@.available_max,
                forall|n: int| #[trigger] set_of(r@).contains(n) <==> (1 <= n <= k && n <= last
                    && !settled(self@, n)),
                forall|i: int, j: int| 0 <= i < j < r@.len() ==> #[trigger] r@[i]@ < #[trigger] r@[j]@,
                forall|i: int| 0 <= i < r@.len() ==> #[trigger] r@[i]@ <= k,
            decreases last - k,
        {
            let ghost before = r@;
            let n = SequenceNumber::from_i64(k + 1);
            if !self.is_settled(n) {
                r.push(n);
            }
            proof {
                assert forall|m: int| #[trigger] set_of(r@).contains(m) <==> (1 <= m <= k + 1 && m
                    <= last && !settled(self@, m)) by {
                    if set_of(r@).contains(m) {
                        let j = choose|j: int| 0 <= j < r@.len() && #[trigger] r@[j]@ == m;
                        if j < before.len() {
                            assert(before[j]@ == m);
                            assert(set_of(before).contains(m));
                        }
                    }
                    if 1 <= m <= k + 1 && m <= last && !settled(self@, m) {
                        if m <= k {
                            assert(set_of(before).contains(m));
                            let j = choose|j: int| 0 <= j < before.len() && #[trigger] before[j]@ == m;
                            assert(r@[j]@ == m);
                        } else {
                            assert(r@[r@.len() - 1]@ == m);
                        }
                    }
                }
            }
            k = k + 1;
        }
        proof {
            assert forall|m: int| #[trigger] set_of(r@).contains(m) <==> missing_set(self@).contains(m) by {
                if 1 <= m <= self@.available_max {
                    assert(settled(self@, m));
                }
            }
            assert(set_of(r@) =~= missing_set(self@));
        }
        r
    }

    pub fn last_heartbeat_count(&self) -> (r: Count)
        ensures
            r == self@.last_heartbeat_count,
    {
        self.last_heartbeat_count
    }

    pub fn acknack_due(&self) -> (r: Option<u64>)
        ensures
            r == self@.acknack_due,
    {
        self.acknack_due
    }

    pub fn acknack_count(&self) -> (r: Count)
        ensures
            r == self@.acknack_count,
    {
        self.acknack_count
    }

    /// The sequence numbers received, in increasing order.
    pub fn received_changes(&self) -> (r: Vec<SequenceNumber>)
        ensures
            ascending(r@),
            set_of(r@) == self@.received,
    {
        self.received.to_vec()
    }

    pub(crate) fn received_set_copy(&self) -> (r: SequenceNumberSet)
        ensures
            r@ == self@.received,
    {
        SequenceNumberSet::from_vec(&self.received.to_vec())
    }

    pub(crate) fn set_last_heartbeat_count(&mut self, count: Count)
        ensures
            final(self)@ == (WriterProxyView { last_heartbeat_count: count, ..old(self)@ }),
    {
        self.last_heartbeat_count = count;
    }

    pub(crate) fn set_acknack_due(&mut self, due: Option<u64>)
        ensures
            final(self)@ == (WriterProxyView { acknack_due: due, ..old(self)@ }),
    {
        self.acknack_due = due;
    }

    pub(crate) fn set_acknack_count(&mut self, count: Count)
        ensures
            final(self)@ == (WriterProxyView { acknack_count: count, ..old(self)@ }),
    {
        self.acknack_count = count;
    }
}

/// Receiving a change a second time leaves the proxy as the first time left
/// it.
pub proof fn lemma_received_change_set_idempotent(v: WriterProxyView, n: int)
    ensures
        received_set(received_set(v, n), n) == received_set(v, n),
{
    if !settled(v, n) {
        let v1 = WriterProxyView { received: v.received.insert(n), ..v };
        assert(v1.received.contains(n));
        assert(settled(with_available_max(v1), n));
    }
}

} // verus!
