//! The state that a reliable writer keeps for one matched remote reader.

use vstd::prelude::*;
use crate::history_cache::{has_seq, is_least_above, none_above, seqs_above, HistoryCache};
use crate::messages::Count;
use crate::sequence_set::{ascending, is_least, set_of, SequenceNumberSet};
use crate::structure::{Guid, Locator, SequenceNumber};

verus! {

/// Where one change stands for one matched reader. It is derived from the
/// reader's proxy and never stored.
#[derive(Clone, Copy, Debug, PartialEq, Eq, Hash, Structural)]
pub enum ChangeForReaderStatusKind {
    /// Not sent to the reader yet.
    Unsent,
    /// Sent, and not acknowledged yet.
    Unacknowledged,
    /// The reader asked for it again.
    Requested,
    /// The reader has it.
    Acknowledged,
    /// Taken from the requested ones and on its way; this lasts only while the
    /// writer sends it, so a proxy at rest never reports it.
    Underway,
}

/// What a reader proxy holds, in the terms its contracts use.
pub struct ReaderProxyView {
    pub remote_reader_guid: Guid,
    pub remote_group_guid: Guid,
    pub expects_inline_qos: bool,
    pub unicast_locator_list: Seq<Locator>,
    pub multicast_locator_list: Seq<Locator>,
    pub highest_sent: int,
    pub requested: Set<int>,
    pub acknowledged: Set<int>,
    pub last_acknack_count: Count,
    pub repair_due: Option<u64>,
}

/// `v` is a proxy as a newly matched reader has it: nothing sent, requested
/// or acknowledged, no acknack taken, no repair pending.
pub open spec fn is_fresh(v: ReaderProxyView) -> bool {
    &&& v.highest_sent == SequenceNumber::unknown_spec()
    &&& v.requested == Set::<int>::empty()
    &&& v.acknowledged == Set::<int>::empty()
    &&& v.last_acknack_count == 0
    &&& v.repair_due.is_none()
}

/// The status of change `n` for a reader whose proxy holds `v`.
pub open spec fn reader_status(v: ReaderProxyView, n: int) -> ChangeForReaderStatusKind {
    if v.acknowledged.contains(n) {
        ChangeForReaderStatusKind::Acknowledged
    } else if v.requested.contains(n) {
        ChangeForReaderStatusKind::Requested
    } else if n <= v.highest_sent {
        ChangeForReaderStatusKind::Unacknowledged
    } else {
        ChangeForReaderStatusKind::Unsent
    }
}

/// The state of a matched remote reader: where to reach it, the highest
/// sequence number sent to it, the sequence numbers it asked for and those it
/// acknowledged. Only sequence numbers are kept, never payloads.
#[derive(Debug)]
pub struct ReaderProxy {
    remote_reader_guid: Guid,
    remote_group_guid: Guid,
    expects_inline_qos: bool,
    unicast_locator_list: Vec<Locator>,
    multicast_locator_list: Vec<Locator>,
    highest_sent: SequenceNumber,
    requested: SequenceNumberSet,
    acknowledged: SequenceNumberSet,
    last_acknack_count: Count,
    repair_due: Option<u64>,
}

impl View for ReaderProxy {
    type V = ReaderProxyView;

    closed spec fn view(&self) -> ReaderProxyView {
        ReaderProxyView {
            remote_reader_guid: self.remote_reader_guid,
            remote_group_guid: self.remote_group_guid,
            expects_inline_qos: self.expects_inline_qos,
            unicast_locator_list: self.unicast_locator_list@,
            multicast_locator_list: self.multicast_locator_list@,
            highest_sent: self.highest_sent@,
            requested: self.requested@,
            acknowledged: self.acknowledged@,
            last_acknack_count: self.last_acknack_count,
            repair_due: self.repair_due,
        }
    }
}

impl ReaderProxy {
    /// A proxy for a newly matched reader: nothing sent, requested or
    /// acknowledged, and the highest sequence number sent unknown.
    pub fn new(
        remote_reader_guid: Guid,
        remote_group_guid: Guid,
        expects_inline_qos: bool,
        unicast_locator_list: Vec<Locator>,
        multicast_locator_list: Vec<Locator>,
    ) -> (r: Self)
        ensures
            is_fresh(r@),
            r@ == (ReaderProxyView {
                remote_reader_guid,
                remote_group_guid,
                expects_inline_qos,
                unicast_locator_list: unicast_locator_list@,
                multicast_locator_list: multicast_locator_list@,
                highest_sent: SequenceNumber::unknown_spec(),
                requested: Set::empty(),
                acknowledged: Set::empty(),
                last_acknack_count: 0,
                repair_due: None,
            }),
    {
        Self {
            remote_reader_guid,
            remote_group_guid,
            expects_inline_qos,
            unicast_locator_list,
            multicast_locator_list,
            highest_sent: SequenceNumber::unknown(),
            requested: SequenceNumberSet::new(),
            acknowledged: SequenceNumberSet::new(),
            last_acknack_count: 0,
            repair_due: None,
        }
    }

    pub fn remote_reader_guid(&self) -> (r: Guid)
        ensures
            r == self@.remote_reader_guid,
    {
        self.remote_reader_guid
    }

    pub fn remote_group_guid(&self) -> (r: Guid)
        ensures
            r == self@.remote_group_guid,
    {
        self.remote_group_guid
    }

    pub fn expects_inline_qos(&self) -> (r: bool)
        ensures
            r == self@.expects_inline_qos,
    {
        self.expects_inline_qos
    }

    pub fn highest_sent_sequence_number(&self) -> (r: SequenceNumber)
        ensures
            r@ == self@.highest_sent,
    {
        self.highest_sent
    }

    /// Records that the changes of `acked` reached the reader: they become
    /// acknowledged and are no longer requested.
    pub fn acked_changes_set(&mut self, acked: &SequenceNumberSet)
        ensures
            final(self)@ == (ReaderProxyView {
                acknowledged: old(self)@.acknowledged.union(acked@),
                requested: old(self)@.requested.difference(acked@),
                ..old(self)@
            }),
    {
        self.acknowledged.union_with(acked);
        self.requested.subtract(acked);
    }

    /// Records that the reader asked for the changes of `requested`: each of
    /// them is requested, and no longer counts as acknowledged, since the
    /// reader asks for it again.
    pub fn requested_changes_set(&mut self, requested: &SequenceNumberSet)
        ensures
            final(self)@ == (ReaderProxyView {
                requested: old(self)@.requested.union(requested@),
                acknowledged: old(self)@.acknowledged.difference(requested@),
                ..old(self)@
            }),
    {
        self.requested.union_with(requested);
        self.acknowledged.subtract(requested);
    }

    /// The sequence numbers that the reader asked for and has not been sent
    /// again, in increasing order.
    pub fn requested_changes(&self) -> (r: Vec<SequenceNumber>)
        ensures
            ascending(r@),
            set_of(r@) == self@.requested,
    {
        self.requested.to_vec()
    }

    /// The sequence numbers that the reader acknowledged, in increasing
    /// order.
    pub fn acknowledged_changes(&self) -> (r: Vec<SequenceNumber>)
        ensures
            ascending(r@),
            set_of(r@) == self@.acknowledged,
    {
        self.acknowledged.to_vec()
    }

    pub fn is_acked(&self, sequence_number: SequenceNumber) -> (r: bool)
        ensures
            r == self@.acknowledged.contains(sequence_number@),
    {
        self.acknowledged.contains(sequence_number)
    }

    /// The status of change `sequence_number` for this reader.
    pub fn status(&self, sequence_number: SequenceNumber) -> (r: ChangeForReaderStatusKind)
        ensures
            r == reader_status(self@, sequence_number@),
    {
        if self.acknowledged.contains(sequence_number) {
            ChangeForReaderStatusKind::Acknowledged
        } else if self.requested.contains(sequence_number) {
            ChangeForReaderStatusKind::Requested
        } else if sequence_number.to_i64() <= self.highest_sent.to_i64() {
            ChangeForReaderStatusKind::Unacknowledged
        } else {
            ChangeForReaderStatusKind::Unsent
        }
    }

    /// Takes the least requested sequence number out of the requested ones,
    /// or returns `None` where nothing is requested.
    pub fn next_requested_change(&mut self) -> (r: Option<SequenceNumber>)
        ensures
            r.is_none() == (old(self)@.requested == Set::<int>::empty()),
            r.is_none() ==> final(self)@ == old(self)@,
            r matches Some(n) ==> is_least(old(self)@.requested, n@) && final(self)@ == (
            ReaderProxyView { requested: old(self)@.requested.remove(n@), ..old(self)@ }),
    {
        match self.requested.min() {
            Some(n) => {
                self.requested.remove(n);
                Some(n)
            },
            None => None,
        }
    }

    /// The sequence numbers of `cache` that were not sent to this reader yet,
    /// in increasing order.
    pub fn unsent_changes(&self, cache: &HistoryCache) -> (r: Vec<SequenceNumber>)
        ensures
            ascending(r@),
            set_of(r@) == seqs_above(cache@, self@.highest_sent),
    {
        cache.sequence_numbers_above(self.highest_sent)
    }

    /// The least sequence number of `cache` not sent to this reader yet,
    /// which then counts as sent; `None` where everything was sent.
    pub fn next_unsent_change(&mut self, cache: &HistoryCache) -> (r: Option<SequenceNumber>)
        ensures
            r.is_none() == none_above(cache@, old(self)@.highest_sent),
            r.is_none() ==> final(self)@ == old(self)@,
            r matches Some(n) ==> is_least_above(cache@, old(self)@.highest_sent, n@)
                && final(self)@ == (ReaderProxyView { highest_sent: n@, ..old(self)@ }),
    {
        match cache.least_above(self.highest_sent) {
            Some(n) => {
                self.highest_sent = n;
                Some(n)
            },
            None => None,
        }
    }

    /// The sequence numbers of `cache` that were sent to this reader and that
    /// it has not acknowledged, in increasing order.
    pub fn unacked_changes(&self, cache: &HistoryCache) -> (r: Vec<SequenceNumber>)
        ensures
            ascending(r@),
            set_of(r@) == Set::new(
                |n: int|
                    has_seq(cache@, n) && n <= self@.highest_sent && !self@.acknowledged.contains(n),
            ),
    {
        let all = cache.sequence_numbers();
        let bound = self.highest_sent.to_i64();
        let mut r: Vec<SequenceNumber> = Vec::new();
        let mut i: usize = 0;
        while i < all.len()
            invariant
                i <= all@.len(),
                ascending(all@),
                set_of(all@) == Set::new(|k: int| has_seq(cache@, k)),
                bound == self@.highest_sent,
                ascending(r@),
                i > 0 ==> forall|j: int| 0 <= j < r@.len() ==> #[trigger] r@[j]@ <= all@[i - 1]@,
                i == 0 ==> r@.len() == 0,
                forall|n: int| set_of(r@).contains(n) <==> (exists|k: int|
                    0 <= k < i && #[trigger] all@[k]@ == n) && n <= bound
                    && !self@.acknowledged.contains(n),
            decreases all@.len() - i,
        {
            let ghost before = r@;
            let s = all[i];
            if s.to_i64() <= bound && !self.acknowledged.contains(s) {
                r.push(s);
            }
            proof {
                assert forall|j: int| 0 <= j < r@.len() implies #[trigger] r@[j]@ <= all@[i as int]@ by {
                    if j < before.len() {
                        assert(all@[i - 1]@ < all@[i as int]@);
                    }
                }
                assert forall|n: int| set_of(r@).contains(n) <==> (exists|k: int|
                    0 <= k < i + 1 && #[trigger] all@[k]@ == n) && n <= bound
                    && !self@.acknowledged.contains(n) by {
                    if set_of(r@).contains(n) {
                        let j = choose|j: int| 0 <= j < r@.len() && #[trigger] r@[j]@ == n;
                        if j < before.len() {
                            assert(before[j]@ == n);
                            assert(set_of(before).contains(n));
                        } else {
                            assert(all@[i as int]@ == n);
                        }
                    }
                    if (exists|k: int| 0 <= k < i + 1 && #[trigger] all@[k]@ == n) && n <= bound
                        && !self@.acknowledged.contains(n) {
                        let k = choose|k: int| 0 <= k < i + 1 && #[trigger] all@[k]@ == n;
                        if k < i {
                            assert(set_of(before).contains(n));
                            let j = choose|j: int| 0 <= j < before.len() && #[trigger] before[j]@ == n;
                            assert(r@[j]@ == n);
                        } else {
                            assert(r@[r@.len() - 1]@ == n);
                        }
                    }
                }
            }
            i = i + 1;
        }
        proof {
            assert forall|n: int| #[trigger] set_of(r@).contains(n) <==> (has_seq(cache@, n) && n
                <= self@.highest_sent && !self@.acknowledged.contains(n)) by {
                if has_seq(cache@, n) {
                    assert(Set::new(|k: int| has_seq(cache@, k)).contains(n));
                    assert(set_of(all@).contains(n));
                    let k = choose|k: int| 0 <= k < all@.len() && #[trigger] all@[k]@ == n;
                }
                if (exists|k: int| 0 <= k < all@.len() && #[trigger] all@[k]@ == n) {
                    let k = choose|k: int| 0 <= k < all@.len() && #[trigger] all@[k]@ == n;
                    assert(set_of(all@).contains(n));
                }
            }
            assert(set_of(r@) =~= Set::new(
                |n: int| has_seq(cache@, n) && n <= self@.highest_sent && !self@.acknowledged.contains(n),
            ));
        }
        r
    }

    /// Records that everything up to `sequence_number` was sent.
    pub(crate) fn set_highest_sent(&mut self, sequence_number: SequenceNumber)
        ensures
            final(self)@ == (ReaderProxyView { highest_sent: sequence_number@, ..old(self)@ }),
    {
        self.highest_sent = sequence_number;
    }

    pub(crate) fn set_last_acknack_count(&mut self, count: Count)
        ensures
            final(self)@ == (ReaderProxyView { last_acknack_count: count, ..old(self)@ }),
    {
        self.last_acknack_count = count;
    }

    pub(crate) fn set_repair_due(&mut self, due: Option<u64>)
        ensures
            final(self)@ == (ReaderProxyView { repair_due: due, ..old(self)@ }),
    {
        self.repair_due = due;
    }

    pub fn last_acknack_count(&self) -> (r: Count)
        ensures
            r == self@.last_acknack_count,
    {
        self.last_acknack_count
    }

    pub fn repair_due(&self) -> (r: Option<u64>)
        ensures
            r == self@.repair_due,
    {
        self.repair_due
    }

    pub fn has_requests(&self) -> (r: bool)
        ensures
            r == (self@.requested != Set::<int>::empty()),
    {
        !self.requested.is_empty()
    }
}

} // verus!
