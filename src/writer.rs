//! Writers: the state common to every writer, and the reliable (stateful)
//! writer that keeps a proxy for each matched reader and drives push,
//! retransmission and heartbeats.

use vstd::prelude::*;
use crate::error::ErrorKind;
use crate::history_cache::{
    has_seq, is_least_above, is_max_seq, is_min_seq, lemma_after_add_subset, none_above,
    seq_index, CacheChange, Data, HistoryCache, ParameterList,
};
use crate::messages::{AckNack, Count, Gap, Heartbeat, WriterAction};
use crate::qos::HistoryKind;
use crate::reader_proxy::{
    is_fresh, reader_status, ChangeForReaderStatusKind, ReaderProxy, ReaderProxyView,
};
use crate::sequence_set::is_least;
use crate::structure::{
    ChangeKind, Duration, Entity, Guid, InstanceHandle, Locator, ReliabilityKind, SequenceNumber,
    TopicKind,
};

verus! {

/// `a + b`, held at `u64::MAX`.
pub open spec fn saturating_sum(a: u64, b: u64) -> u64 {
    if a + b > u64::MAX {
        u64::MAX
    } else {
        (a + b) as u64
    }
}

/// The count that follows `c`; counts wrap around.
pub open spec fn next_count(c: Count) -> Count {
    if c == u32::MAX {
        0
    } else {
        (c + 1) as Count
    }
}

pub(crate) fn following_count(c: Count) -> (r: Count)
    ensures
        r == next_count(c),
{
    if c == u32::MAX {
        0
    } else {
        c + 1
    }
}

pub(crate) fn saturating_add(a: u64, b: u64) -> (r: u64)
    ensures
        r == saturating_sum(a, b),
{
    if a <= u64::MAX - b {
        a + b
    } else {
        u64::MAX
    }
}

/// Every sequence number held in `s` lies between 1 and `last`.
pub open spec fn seqs_within(s: Seq<CacheChange>, last: int) -> bool {
    forall|i: int| 0 <= i < s.len() ==> 1 <= #[trigger] s[i].sn() <= last
}

/// The state that every writer has: its identity and locators, its timing
/// parameters, the last sequence number it allocated and its history cache.
#[derive(Debug)]
pub struct Writer {
    guid: Guid,
    topic_kind: TopicKind,
    reliability_level: ReliabilityKind,
    unicast_locator_list: Vec<Locator>,
    multicast_locator_list: Vec<Locator>,
    push_mode: bool,
    heartbeat_period: Duration,
    nack_response_delay: Duration,
    nack_suppression_delay: Duration,
    last_change_sequence_number: SequenceNumber,
    data_max_size_serialized: i32,
    heartbeat_count: Count,
    writer_cache: HistoryCache,
}

impl Writer {
    pub closed spec fn guid_spec(&self) -> Guid {
        self.guid
    }

    pub closed spec fn push_mode_spec(&self) -> bool {
        self.push_mode
    }

    pub closed spec fn heartbeat_period_spec(&self) -> Duration {
        self.heartbeat_period
    }

    pub closed spec fn nack_suppression_delay_spec(&self) -> Duration {
        self.nack_suppression_delay
    }

    pub closed spec fn topic_kind_spec(&self) -> TopicKind {
        self.topic_kind
    }

    pub closed spec fn reliability_level_spec(&self) -> ReliabilityKind {
        self.reliability_level
    }

    pub closed spec fn unicast_locators(&self) -> Seq<Locator> {
        self.unicast_locator_list@
    }

    pub closed spec fn multicast_locators(&self) -> Seq<Locator> {
        self.multicast_locator_list@
    }

    /// `self` and `other` have the same identity, locators and timing
    /// parameters.
    pub open spec fn same_settings(&self, other: &Writer) -> bool {
        &&& self.guid_spec() == other.guid_spec()
        &&& self.push_mode_spec() == other.push_mode_spec()
        &&& self.heartbeat_period_spec() == other.heartbeat_period_spec()
        &&& self.nack_response_delay_spec() == other.nack_response_delay_spec()
        &&& self.nack_suppression_delay_spec() == other.nack_suppression_delay_spec()
        &&& self.topic_kind_spec() == other.topic_kind_spec()
        &&& self.reliability_level_spec() == other.reliability_level_spec()
        &&& self.unicast_locators() == other.unicast_locators()
        &&& self.multicast_locators() == other.multicast_locators()
    }

    pub closed spec fn nack_response_delay_spec(&self) -> u64 {
        self.nack_response_delay.nanos
    }

    /// The last sequence number allocated.
    pub closed spec fn last_change(&self) -> int {
        self.last_change_sequence_number@
    }

    pub closed spec fn heartbeat_count_spec(&self) -> Count {
        self.heartbeat_count
    }

    pub closed spec fn cache(&self) -> HistoryCache {
        self.writer_cache
    }

    /// The writer is consistent: its cache is, and the cache holds only
    /// sequence numbers that were allocated.
    pub open spec fn wf(&self) -> bool {
        &&& self.cache().wf()
        &&& self.allocation_wf()
    }

    pub closed spec fn allocation_wf(&self) -> bool {
        &&& 0 <= self.last_change_sequence_number@
        &&& seqs_within(self.writer_cache@, self.last_change_sequence_number@)
    }

    /// A writer that has allocated no sequence number yet, with an empty cache
    /// that keeps all history.
    pub fn new(
        guid: Guid,
        unicast_locator_list: Vec<Locator>,
        multicast_locator_list: Vec<Locator>,
        reliability_kind: ReliabilityKind,
        topic_kind: TopicKind,
        push_mode: bool,
        heartbeat_period: Duration,
        nack_response_delay: Duration,
        nack_suppression_duration: Duration,
    ) -> (r: Self)
        ensures
            r.wf(),
            r.guid_spec() == guid,
            r.push_mode_spec() == push_mode,
            r.nack_response_delay_spec() == nack_response_delay.nanos,
            r.heartbeat_period_spec() == heartbeat_period,
            r.nack_suppression_delay_spec() == nack_suppression_duration,
            r.topic_kind_spec() == topic_kind,
            r.reliability_level_spec() == reliability_kind,
            r.unicast_locators() == unicast_locator_list@,
            r.multicast_locators() == multicast_locator_list@,
            r.last_change() == 0,
            r.heartbeat_count_spec() == 0,
            r.cache()@ == Seq::<CacheChange>::empty(),
            r.cache().kind_spec() == HistoryKind::KeepAll,
            r.cache().max_samples_spec() == usize::MAX,
            r.cache().max_instances_spec() == usize::MAX,
            r.cache().max_samples_per_instance_spec() == usize::MAX,
    {
        Self {
            guid,
            topic_kind,
            reliability_level: reliability_kind,
            unicast_locator_list,
            multicast_locator_list,
            push_mode,
            heartbeat_period,
            nack_response_delay,
            nack_suppression_delay: nack_suppression_duration,
            last_change_sequence_number: SequenceNumber::new(0, 0),
            data_max_size_serialized: i32::MAX,
            heartbeat_count: 0,
            writer_cache: HistoryCache::new(),
        }
    }

    /// The same writer with `cache`, which must be empty, as its history.
    pub fn with_cache(self, cache: HistoryCache) -> (r: Self)
        requires
            self.wf(),
            cache.wf(),
            cache@.len() == 0,
        ensures
            r.wf(),
            r.guid_spec() == self.guid_spec(),
            r.push_mode_spec() == self.push_mode_spec(),
            r.nack_response_delay_spec() == self.nack_response_delay_spec(),
            r.last_change() == self.last_change(),
            r.heartbeat_count_spec() == self.heartbeat_count_spec(),
            r.same_settings(&self),
            r.cache() == cache,
    {
        Writer { writer_cache: cache, ..self }
    }

    pub fn guid(&self) -> (r: Guid)
        ensures
            r == self.guid_spec(),
    {
        self.guid
    }

    pub fn push_mode(&self) -> (r: bool)
        ensures
            r == self.push_mode_spec(),
    {
        self.push_mode
    }

    pub fn heartbeat_period(&self) -> (r: Duration)
        ensures
            r == self.heartbeat_period_spec(),
    {
        self.heartbeat_period
    }

    pub fn last_change_sequence_number(&self) -> (r: SequenceNumber)
        ensures
            r@ == self.last_change(),
    {
        self.last_change_sequence_number
    }

    pub fn writer_cache(&self) -> (r: &HistoryCache)
        ensures
            *r == self.cache(),
    {
        &self.writer_cache
    }

    /// Allocates the next sequence number and makes a change of this writer
    /// with it. The change is not added to the cache.
    fn allocate_change(
        &mut self,
        kind: ChangeKind,
        data_value: Option<Data>,
        handle: InstanceHandle,
    ) -> (r: CacheChange)
        requires
            old(self).wf(),
            old(self).last_change() < i64::MAX,
        ensures
            final(self).last_change() == old(self).last_change() + 1,
            final(self).guid_spec() == old(self).guid_spec(),
            final(self).push_mode_spec() == old(self).push_mode_spec(),
            final(self).nack_response_delay_spec() == old(self).nack_response_delay_spec(),
            final(self).heartbeat_count_spec() == old(self).heartbeat_count_spec(),
            final(self).same_settings(old(self)),
            final(self).cache() == old(self).cache(),
            r.kind_spec() == kind,
            r.writer_guid_spec() == old(self).guid_spec(),
            r.instance() == handle,
            r.sn() == final(self).last_change(),
            r.data_spec() == data_value,
    {
        self.last_change_sequence_number.increment();
        CacheChange::new(
            kind,
            self.guid,
            handle,
            self.last_change_sequence_number,
            data_value,
            ParameterList,
        )
    }

    /// Allocates the next sequence number, makes a change of this writer with
    /// it and adds the change to the cache. The sequence number is used up
    /// even where a full cache that keeps all history refuses the change.
    pub fn new_change(
        &mut self,
        kind: ChangeKind,
        data_value: Option<Data>,
        handle: InstanceHandle,
    ) -> (r: Result<CacheChange, ErrorKind>)
        requires
            old(self).wf(),
            old(self).last_change() < i64::MAX,
        ensures
            final(self).wf(),
            final(self).last_change() == old(self).last_change() + 1,
            final(self).cache().same_policy(&old(self).cache()),
            final(self).guid_spec() == old(self).guid_spec(),
            final(self).push_mode_spec() == old(self).push_mode_spec(),
            final(self).nack_response_delay_spec() == old(self).nack_response_delay_spec(),
            final(self).heartbeat_count_spec() == old(self).heartbeat_count_spec(),
            final(self).same_settings(old(self)),
            r is Err <==> (old(self).cache().kind_spec() == HistoryKind::KeepAll && old(self).cache().breaks_limits(old(self).cache()@, handle)),
            r is Err ==> r == Err::<CacheChange, ErrorKind>(ErrorKind::ResourceExhausted) && final(self).cache()@ == old(self).cache()@,
            r matches Ok(c) ==> {
                &&& c.kind_spec() == kind
                &&& c.writer_guid_spec() == old(self).guid_spec()
                &&& c.instance() == handle
                &&& c.sn() == final(self).last_change()
                &&& c.data_spec() == data_value
                &&& !has_seq(old(self).cache()@, c.sn())
                &&& final(self).cache()@ == old(self).cache().after_add(old(self).cache()@, c)
            },
    {
        let change = self.allocate_change(kind, data_value, handle);
        let ghost s = self.writer_cache@;
        assert(!has_seq(s, change.sn())) by {
            if has_seq(s, change.sn()) {
                let k = choose|k: int| 0 <= k < s.len() && #[trigger] s[k].sn() == change.sn();
            }
        }
        proof {
            lemma_after_add_subset(self.writer_cache, s, change);
        }
        let added = self.writer_cache.add_change(change);
        assert(seqs_within(self.writer_cache@, self.last_change())) by {
            assert forall|i: int| 0 <= i < self.writer_cache@.len() implies 1
                <= #[trigger] self.writer_cache@[i].sn() <= self.last_change() by {
                let n = self.writer_cache@[i].sn();
                assert(has_seq(self.writer_cache@, n));
                if has_seq(s, n) {
                    let k = choose|k: int| 0 <= k < s.len() && #[trigger] s[k].sn() == n;
                }
            }
        }
        match added {
            Ok(()) => Ok(change),
            Err(e) => Err(e),
        }
    }

    /// The heartbeat that announces what the cache holds: its least and
    /// greatest sequence numbers, or, for an empty cache, the range from one
    /// past the last allocated number to the last allocated number. An empty
    /// cache after the largest sequence number has nothing to announce that
    /// can be written, so it is excluded.
    pub fn heartbeat(&mut self) -> (r: Heartbeat)
        requires
            old(self).wf(),
            old(self).cache()@.len() > 0 || old(self).last_change() < i64::MAX,
        ensures
            final(self).wf(),
            final(self).guid_spec() == old(self).guid_spec(),
            final(self).push_mode_spec() == old(self).push_mode_spec(),
            final(self).nack_response_delay_spec() == old(self).nack_response_delay_spec(),
            final(self).same_settings(old(self)),
            final(self).last_change() == old(self).last_change(),
            final(self).cache() == old(self).cache(),
            final(self).heartbeat_count_spec() == next_count(old(self).heartbeat_count_spec()),
            r.count == final(self).heartbeat_count_spec(),
            r.writer_guid == old(self).guid_spec(),
            old(self).cache()@.len() == 0 ==> r.first_sn@ == old(self).last_change() + 1
                && r.last_sn@ == old(self).last_change(),
            old(self).cache()@.len() > 0 ==> is_min_seq(old(self).cache()@, r.first_sn@)
                && is_max_seq(old(self).cache()@, r.last_sn@),
    {
        self.heartbeat_count = following_count(self.heartbeat_count);
        let (first_sn, last_sn) = match (
            self.writer_cache.get_seq_num_min(),
            self.writer_cache.get_seq_num_max(),
        ) {
            (Some(first), Some(last)) => (first, last),
            _ => {
                let last = self.last_change_sequence_number;
                let mut first = last;
                first.increment();
                (first, last)
            },
        };
        Heartbeat { writer_guid: self.guid, first_sn, last_sn, count: self.heartbeat_count }
    }

    /// What to send reader `g` for the sequence numbers from `start` to
    /// `end`: the change where the cache holds `start`, a gap otherwise.
    fn send_range(&self, g: Guid, start: SequenceNumber, end: SequenceNumber) -> (r: WriterAction)
        requires
            self.wf(),
            has_seq(self.cache()@, start@) ==> start@ == end@,
        ensures
            sends(r, self.cache()@, start@, end@, g, self.guid_spec()),
    {
        match self.writer_cache.lookup(start) {
            Some(change) => WriterAction::Data { reader_guid: g, change },
            None => WriterAction::Gap(
                Gap { reader_guid: g, writer_guid: self.guid, gap_start: start, gap_end: end },
            ),
        }
    }
}

impl Entity for Writer {
    fn entity(&self) -> Guid {
        self.guid
    }
}

impl Entity for StatefulWriter {
    fn entity(&self) -> Guid {
        self.writer.guid
    }
}

/// Proxy `p` speaks of no sequence number beyond `last`: neither what was
/// sent nor what was requested or acknowledged.
pub open spec fn proxy_within(p: ReaderProxyView, last: int) -> bool {
    &&& p.highest_sent <= last
    &&& forall|n: int| #[trigger] p.requested.contains(n) ==> n <= last
    &&& forall|n: int| #[trigger] p.acknowledged.contains(n) ==> n <= last
}

/// Some proxy of `rs` is for the reader `g`.
pub open spec fn has_reader(rs: Seq<ReaderProxyView>, g: Guid) -> bool {
    exists|i: int| 0 <= i < rs.len() && #[trigger] rs[i].remote_reader_guid == g
}

/// The position in `rs` of the proxy for the reader `g`.
pub open spec fn reader_index(rs: Seq<ReaderProxyView>, g: Guid) -> int {
    choose|i: int| 0 <= i < rs.len() && #[trigger] rs[i].remote_reader_guid == g
}

/// No two proxies of `rs` are for the same reader.
pub open spec fn unique_readers(rs: Seq<ReaderProxyView>) -> bool {
    forall|i: int, j: int|
        0 <= i < rs.len() && 0 <= j < rs.len() && i != j ==> #[trigger] rs[i].remote_reader_guid
            != #[trigger] rs[j].remote_reader_guid
}

/// `rs` without the proxy for the reader `g`.
pub open spec fn without_reader(rs: Seq<ReaderProxyView>, g: Guid) -> Seq<ReaderProxyView> {
    if has_reader(rs, g) {
        rs.remove(reader_index(rs, g))
    } else {
        rs
    }
}

/// Every reader of `rs` acknowledged change `n`.
pub open spec fn acked_by_all(rs: Seq<ReaderProxyView>, n: int) -> bool {
    forall|i: int| 0 <= i < rs.len() ==> #[trigger] rs[i].acknowledged.contains(n)
}

/// Every element of `s` lies between 1 and `last`.
pub open spec fn within(s: Set<int>, last: int) -> bool {
    forall|n: int| #[trigger] s.contains(n) ==> 1 <= n <= last
}

/// A proxy after an acknack that acknowledges `acked` and asks for
/// `requested`: what it asks for is requested and not acknowledged, what it
/// acknowledges and does not ask for is acknowledged and not requested, and
/// the rest stays as it was. A repair is scheduled `delay` after `now` when requests are
/// left and none was pending, kept when one was pending, and cancelled when no
/// request is left.
pub open spec fn after_acknack(
    p: ReaderProxyView,
    acked: Set<int>,
    requested: Set<int>,
    count: Count,
    now: u64,
    delay: u64,
) -> ReaderProxyView {
    let acknowledged = p.acknowledged.union(acked).difference(requested);
    let still = p.requested.difference(acked).union(requested);
    ReaderProxyView {
        acknowledged,
        requested: still,
        last_acknack_count: count,
        repair_due: if still == Set::<int>::empty() {
            None
        } else if p.repair_due.is_some() {
            p.repair_due
        } else {
            Some(saturating_sum(now, delay))
        },
        ..p
    }
}

/// The requests of `p` are due to be answered at `now`.
pub open spec fn repair_ready(p: ReaderProxyView, now: u64) -> bool {
    &&& p.requested != Set::<int>::empty()
    &&& p.repair_due matches Some(t) && t <= now
}

/// The first sequence number not yet sent to the reader of `p`.
pub open spec fn first_unsent(p: ReaderProxyView) -> int {
    if p.highest_sent < 1 {
        1
    } else {
        p.highest_sent + 1
    }
}

/// `a` is what the writer `wg` sends to reader `g` for the sequence numbers
/// from `start` to `end`: the change itself where the cache holds it (then
/// `start == end`), a gap over the range otherwise.
pub open spec fn sends(
    a: WriterAction,
    cache: Seq<CacheChange>,
    start: int,
    end: int,
    g: Guid,
    wg: Guid,
) -> bool {
    match a {
        WriterAction::Data { reader_guid, change } => {
            &&& has_seq(cache, start)
            &&& start == end
            &&& reader_guid == g
            &&& change == cache[seq_index(cache, start)]
        },
        WriterAction::Gap(gap) => {
            &&& !has_seq(cache, start)
            &&& gap.gap_start@ == start
            &&& gap.gap_end@ == end
            &&& gap.reader_guid == g
            &&& gap.writer_guid == wg
        },
    }
}

/// One step of the writer `wg` towards reader `g` turns its proxy `p` into
/// `q` and produces `r`. Due requests come first, least first, answered with
/// the change or, where the cache no longer holds it, a gap. Then, in push
/// mode, the first unsent sequence number: the change where the cache holds
/// it, else a gap up to the next change held (or to the last allocated).
pub open spec fn writer_step(
    p: ReaderProxyView,
    q: ReaderProxyView,
    r: Option<WriterAction>,
    now: u64,
    cache: Seq<CacheChange>,
    last: int,
    push_mode: bool,
    g: Guid,
    wg: Guid,
) -> bool {
    if repair_ready(p, now) {
        exists|n: int|
            #![trigger is_least(p.requested, n)]
            {
                &&& is_least(p.requested, n)
                &&& q == ReaderProxyView {
                    requested: p.requested.remove(n),
                    repair_due: if p.requested.remove(n) == Set::<int>::empty() {
                        None
                    } else {
                        p.repair_due
                    },
                    ..p
                }
                &&& r matches Some(a) && sends(a, cache, n, n, g, wg)
            }
    } else if push_mode && first_unsent(p) <= last {
        let lo = first_unsent(p);
        if has_seq(cache, lo) {
            &&& q == ReaderProxyView { highest_sent: lo, ..p }
            &&& r matches Some(a) && sends(a, cache, lo, lo, g, wg)
        } else {
            exists|end: int|
                #![trigger sends(r->0, cache, lo, end, g, wg)]
                {
                    &&& (none_above(cache, p.highest_sent) && end == last) || (exists|m: int|
                        is_least_above(cache, p.highest_sent, m) && end == m - 1)
                    &&& lo <= end <= last
                    &&& q == ReaderProxyView { highest_sent: end, ..p }
                    &&& r is Some
                    &&& sends(r->0, cache, lo, end, g, wg)
                }
        }
    } else {
        &&& q == p
        &&& r.is_none()
    }
}

/// Successive allocations hand out rising sequence numbers: where each state
/// of `writers` follows the one before through one allocation (as
/// `new_change` ensures, the last allocated number goes
/// one further), the numbers allocated never fall and none is handed out
/// twice.
pub proof fn lemma_allocations_never_repeat(writers: Seq<Writer>)
    requires
        forall|i: int|
            0 <= i < writers.len() - 1 ==> #[trigger] writers[i + 1].last_change() == writers[i].last_change()
                + 1,
    ensures
        forall|i: int, j: int|
            0 <= i < j < writers.len() ==> #[trigger] writers[i].last_change()
                < #[trigger] writers[j].last_change(),
        forall|i: int, j: int|
            0 <= i < writers.len() && 0 <= j < writers.len() && i != j ==> #[trigger] writers[i].last_change()
                != #[trigger] writers[j].last_change(),
    decreases writers.len(),
{
    if writers.len() > 1 {
        let p = writers.drop_last();
        assert forall|i: int| 0 <= i < p.len() - 1 implies #[trigger] p[i + 1].last_change() == p[i].last_change() + 1 by {
            assert(writers[i + 1].last_change() == writers[i].last_change() + 1);
        }
        lemma_allocations_never_repeat(p);
        assert forall|i: int, j: int| 0 <= i < j < writers.len() implies #[trigger] writers[i].last_change()
            < #[trigger] writers[j].last_change() by {
            if j < writers.len() - 1 {
                assert(p[i].last_change() < p[j].last_change());
            } else if i < j - 1 {
                assert(p[i].last_change() < p[j - 1].last_change());
                assert(writers[j - 1 + 1].last_change() == writers[j - 1].last_change() + 1);
            } else {
                assert(writers[i + 1].last_change() == writers[i].last_change() + 1);
            }
        }
        assert forall|i: int, j: int|
            0 <= i < writers.len() && 0 <= j < writers.len() && i != j implies #[trigger] writers[i].last_change()
            != #[trigger] writers[j].last_change() by {
            if i < j {
                assert(writers[i].last_change() < writers[j].last_change());
            } else {
                assert(writers[j].last_change() < writers[i].last_change());
            }
        }
    }
}

/// Unmatching a reader never leaves a change waiting on it: where every
/// other matched reader acknowledged change `n`, every reader left after
/// removing `g` has acknowledged it.
pub proof fn lemma_remove_unblocks_acked_by_all(rs: Seq<ReaderProxyView>, g: Guid, n: int)
    requires
        unique_readers(rs),
        forall|i: int|
            0 <= i < rs.len() && #[trigger] rs[i].remote_reader_guid != g ==> rs[i].acknowledged.contains(n),
    ensures
        acked_by_all(without_reader(rs, g), n),
{
    if has_reader(rs, g) {
        let k = reader_index(rs, g);
        let left = rs.remove(k);
        assert forall|i: int| 0 <= i < left.len() implies #[trigger] left[i].acknowledged.contains(n) by {
            if i < k {
                assert(left[i] == rs[i]);
                assert(rs[i].remote_reader_guid != g);
            } else {
                assert(left[i] == rs[i + 1]);
                assert(rs[i + 1].remote_reader_guid != g);
            }
        }
    } else {
        assert forall|i: int| 0 <= i < rs.len() implies #[trigger] rs[i].acknowledged.contains(n) by {
            if rs[i].remote_reader_guid == g {
                assert(has_reader(rs, g));
            }
        }
    }
}

/// A requested change that the cache no longer holds is answered with a gap
/// that covers it, never with data: where the least due request of a reader
/// is `n` and the cache lacks `n`, the writer's next step for that reader is
/// a gap from `n` to `n`.
pub proof fn lemma_evicted_request_gets_gap(
    p: ReaderProxyView,
    q: ReaderProxyView,
    r: Option<WriterAction>,
    now: u64,
    cache: Seq<CacheChange>,
    last: int,
    push_mode: bool,
    g: Guid,
    wg: Guid,
    n: int,
)
    requires
        writer_step(p, q, r, now, cache, last, push_mode, g, wg),
        repair_ready(p, now),
        is_least(p.requested, n),
        !has_seq(cache, n),
    ensures
        r matches Some(WriterAction::Gap(gap)) && gap.gap_start@ == n && gap.gap_end@ == n
            && gap.reader_guid == g,
{
    let m = choose|m: int|
        #![trigger is_least(p.requested, m)]
        {
            &&& is_least(p.requested, m)
            &&& q == ReaderProxyView {
                requested: p.requested.remove(m),
                repair_due: if p.requested.remove(m) == Set::<int>::empty() {
                    None
                } else {
                    p.repair_due
                },
                ..p
            }
            &&& r matches Some(a) && sends(a, cache, m, m, g, wg)
        };
    assert(m <= n && n <= m);
}

/// A reliable writer: a writer with a proxy for each matched reader, which
/// tracks what each reader was sent, asked for and acknowledged.
#[derive(Debug)]
pub struct StatefulWriter {
    writer: Writer,
    matched_readers: Vec<ReaderProxy>,
}

impl StatefulWriter {
    pub closed spec fn writer_spec(&self) -> Writer {
        self.writer
    }

    /// The proxies of the matched readers, in the order they were matched.
    pub closed spec fn readers(&self) -> Seq<ReaderProxyView> {
        self.matched_readers@.map_values(|p: ReaderProxy| p@)
    }

    pub open spec fn last_change(&self) -> int {
        self.writer_spec().last_change()
    }

    pub open spec fn cache(&self) -> HistoryCache {
        self.writer_spec().cache()
    }

    /// The writer is consistent, no two proxies are for the same reader, and
    /// no proxy speaks of a sequence number beyond the last allocated.
    pub open spec fn wf(&self) -> bool {
        &&& self.writer_spec().wf()
        &&& unique_readers(self.readers())
        &&& forall|i: int|
            0 <= i < self.readers().len() ==> proxy_within(
                #[trigger] self.readers()[i],
                self.last_change(),
            )
    }

    /// A reliable writer with no matched reader yet.
    pub fn new(writer: Writer) -> (r: Self)
        requires
            writer.wf(),
        ensures
            r.wf(),
            r.writer_spec() == writer,
            r.readers() == Seq::<ReaderProxyView>::empty(),
    {
        let r = Self { writer, matched_readers: Vec::new() };
        assert(r.readers() =~= Seq::<ReaderProxyView>::empty());
        r
    }

    pub fn writer(&self) -> (r: &Writer)
        ensures
            *r == self.writer_spec(),
    {
        &self.writer
    }

    fn find_reader(&self, g: Guid) -> (r: Option<usize>)
        requires
            self.wf(),
        ensures
            r.is_none() == !has_reader(self.readers(), g),
            r matches Some(i) ==> i == reader_index(self.readers(), g) && i < self.readers().len(),
    {
        let mut i: usize = 0;
        while i < self.matched_readers.len()
            invariant
                i <= self.matched_readers@.len(),
                self.readers().len() == self.matched_readers@.len(),
                forall|k: int| 0 <= k < self.matched_readers@.len() ==> #[trigger] self.readers()[k]
                    == self.matched_readers@[k]@,
                forall|k: int| 0 <= k < i ==> #[trigger] self.readers()[k].remote_reader_guid != g,
                unique_readers(self.readers()),
            decreases self.matched_readers@.len() - i,
        {
            if self.matched_readers[i].remote_reader_guid() == g {
                assert(self.readers()[i as int].remote_reader_guid == g);
                assert(has_reader(self.readers(), g));
                let ghost j = reader_index(self.readers(), g);
                assert(j == i) by {
                    assert(self.readers()[j].remote_reader_guid == g);
                }
                return Some(i);
            }
            i = i + 1;
        }
        None
    }

    /// The proxy of the reader `g`, if it is matched.
    pub fn matched_reader_lookup(&self, g: Guid) -> (r: Option<&ReaderProxy>)
        requires
            self.wf(),
        ensures
            r.is_none() == !has_reader(self.readers(), g),
            r matches Some(p) ==> p@ == self.readers()[reader_index(self.readers(), g)],
    {
        match self.find_reader(g) {
            Some(i) => Some(&self.matched_readers[i]),
            None => None,
        }
    }

    /// Matches a reader with a proxy as `ReaderProxy::new` makes it: nothing
    /// sent, requested or acknowledged, and the highest sequence number sent
    /// unknown. Matching a reader that is already matched is a programming
    /// error.
    pub fn matched_reader_add(&mut self, reader: ReaderProxy)
        requires
            old(self).wf(),
            !has_reader(old(self).readers(), reader@.remote_reader_guid),
            is_fresh(reader@),
        ensures
            final(self).wf(),
            final(self).writer_spec() == old(self).writer_spec(),
            final(self).readers() == old(self).readers().push(reader@),
    {
        let ghost g = reader@.remote_reader_guid;
        self.matched_readers.push(reader);
        assert(self.readers() =~= old(self).readers().push(reader@));
        assert forall|i: int, j: int|
            0 <= i < self.readers().len() && 0 <= j < self.readers().len() && i != j implies #[trigger] self.readers()[i].remote_reader_guid
            != #[trigger] self.readers()[j].remote_reader_guid by {
            if i == self.readers().len() - 1 {
                assert(old(self).readers()[j].remote_reader_guid != g);
            } else if j == self.readers().len() - 1 {
                assert(old(self).readers()[i].remote_reader_guid != g);
            }
        }
    }

    /// Unmatches the reader `g`: its proxy is dropped, and with it only that
    /// reader's bookkeeping. The cache is left as it is.
    pub fn matched_reader_remove(&mut self, g: Guid)
        requires
            old(self).wf(),
        ensures
            final(self).wf(),
            final(self).writer_spec() == old(self).writer_spec(),
            final(self).readers() == without_reader(old(self).readers(), g),
    {
        match self.find_reader(g) {
            Some(i) => {
                self.matched_readers.remove(i);
                assert(self.readers() =~= old(self).readers().remove(i as int));
            },
            None => {},
        }
    }

    /// Whether every matched reader acknowledged change `sequence_number`.
    pub fn is_acked_by_all(&self, sequence_number: SequenceNumber) -> (r: bool)
        ensures
            r == acked_by_all(self.readers(), sequence_number@),
    {
        let mut i: usize = 0;
        while i < self.matched_readers.len()
            invariant
                i <= self.matched_readers@.len(),
                self.readers().len() == self.matched_readers@.len(),
                forall|k: int| 0 <= k < self.matched_readers@.len() ==> #[trigger] self.readers()[k]
                    == self.matched_readers@[k]@,
                forall|k: int| 0 <= k < i ==> #[trigger] self.readers()[k].acknowledged.contains(
                    sequence_number@,
                ),
            decreases self.matched_readers@.len() - i,
        {
            if !self.matched_readers[i].is_acked(sequence_number) {
                assert(!self.readers()[i as int].acknowledged.contains(sequence_number@));
                return false;
            }
            i = i + 1;
        }
        true
    }

    /// Makes a change with the next sequence number and adds it to the cache,
    /// where it is unsent to every matched reader. The sequence number is
    /// used up even where a full cache that keeps all history refuses the
    /// change.
    pub fn new_change(
        &mut self,
        kind: ChangeKind,
        data_value: Option<Data>,
        handle: InstanceHandle,
    ) -> (r: Result<CacheChange, ErrorKind>)
        requires
            old(self).wf(),
            old(self).last_change() < i64::MAX,
        ensures
            final(self).wf(),
            final(self).readers() == old(self).readers(),
            final(self).last_change() == old(self).last_change() + 1,
            final(self).cache().same_policy(&old(self).cache()),
            final(self).writer_spec().same_settings(&old(self).writer_spec()),
            final(self).writer_spec().push_mode_spec() == old(self).writer_spec().push_mode_spec(),
            final(self).writer_spec().nack_response_delay_spec() == old(self).writer_spec().nack_response_delay_spec(),
            final(self).writer_spec().heartbeat_count_spec() == old(self).writer_spec().heartbeat_count_spec(),
            r is Err <==> (old(self).cache().kind_spec() == HistoryKind::KeepAll && old(self).cache().breaks_limits(old(self).cache()@, handle)),
            r is Err ==> r == Err::<CacheChange, ErrorKind>(ErrorKind::ResourceExhausted) && final(self).cache()@ == old(self).cache()@,
            r matches Ok(c) ==> {
                &&& c.kind_spec() == kind
                &&& c.writer_guid_spec() == old(self).writer_spec().guid_spec()
                &&& c.instance() == handle
                &&& c.sn() == final(self).last_change()
                &&& c.data_spec() == data_value
                &&& !has_seq(old(self).cache()@, c.sn())
                &&& final(self).cache()@ == old(self).cache().after_add(old(self).cache()@, c)
                &&& forall|i: int|
                    0 <= i < final(self).readers().len() ==> reader_status(
                        #[trigger] final(self).readers()[i],
                        c.sn(),
                    ) == ChangeForReaderStatusKind::Unsent
            },
    {
        let r = self.writer.new_change(kind, data_value, handle);
        proof {
            assert forall|i: int| 0 <= i < self.readers().len() implies proxy_within(
                #[trigger] self.readers()[i],
                self.last_change(),
            ) by {
                assert(proxy_within(old(self).readers()[i], old(self).last_change()));
            }
            if let Ok(c) = r {
                assert forall|i: int| 0 <= i < self.readers().len() implies reader_status(
                    #[trigger] self.readers()[i],
                    c.sn(),
                ) == ChangeForReaderStatusKind::Unsent by {
                    assert(proxy_within(old(self).readers()[i], old(self).last_change()));
                }
            }
        }
        r
    }

    /// Removes the change with sequence number `sequence_number` from the
    /// cache, where it is held. Readers that ask for it later get a gap.
    pub fn remove_change(&mut self, sequence_number: SequenceNumber) -> (r: Option<CacheChange>)
        requires
            old(self).wf(),
        ensures
            final(self).wf(),
            final(self).readers() == old(self).readers(),
            final(self).last_change() == old(self).last_change(),
            final(self).cache().same_policy(&old(self).cache()),
            final(self).cache()@ == crate::history_cache::removed(old(self).cache()@, sequence_number@),
            r.is_none() == !has_seq(old(self).cache()@, sequence_number@),
            final(self).writer_spec().guid_spec() == old(self).writer_spec().guid_spec(),
            final(self).writer_spec().push_mode_spec() == old(self).writer_spec().push_mode_spec(),
            final(self).writer_spec().nack_response_delay_spec() == old(self).writer_spec().nack_response_delay_spec(),
    {
        let ghost s = self.writer.writer_cache@;
        let r = self.writer.writer_cache.remove_change(sequence_number);
        proof {
            if has_seq(s, sequence_number@) {
                crate::history_cache::lemma_remove_unique(s, seq_index(s, sequence_number@));
                let f = self.writer.writer_cache@;
                assert forall|i: int| 0 <= i < f.len() implies 1 <= #[trigger] f[i].sn()
                    <= self.writer.last_change() by {
                    assert(has_seq(f, f[i].sn()));
                    let k = choose|k: int| 0 <= k < s.len() && #[trigger] s[k].sn() == f[i].sn();
                }
            }
        }
        r
    }

    /// The heartbeat that announces the cache's range to the matched readers.
    pub fn heartbeat(&mut self) -> (r: Heartbeat)
        requires
            old(self).wf(),
            old(self).cache()@.len() > 0 || old(self).last_change() < i64::MAX,
        ensures
            final(self).wf(),
            final(self).readers() == old(self).readers(),
            final(self).last_change() == old(self).last_change(),
            final(self).cache() == old(self).cache(),
            r.writer_guid == old(self).writer_spec().guid_spec(),
            r.count == next_count(old(self).writer_spec().heartbeat_count_spec()),
            old(self).cache()@.len() == 0 ==> r.first_sn@ == old(self).last_change() + 1
                && r.last_sn@ == old(self).last_change(),
            old(self).cache()@.len() > 0 ==> is_min_seq(old(self).cache()@, r.first_sn@)
                && is_max_seq(old(self).cache()@, r.last_sn@),
    {
        self.writer.heartbeat()
    }

    /// Takes an acknack from a matched reader. One addressed to another
    /// writer or from a reader that is not matched is dropped as from an
    /// unknown peer. One whose count is not above the last taken from that
    /// reader is a repeat and is ignored. One that names a sequence number
    /// below 1 or above the last allocated is malformed and dropped. Otherwise
    /// the reader's proxy takes the acknowledged and requested sets, and the
    /// repair of what it asks for is scheduled, kept or cancelled.
    pub fn receive_acknack(&mut self, now: u64, acknack: &AckNack) -> (r: Result<(), ErrorKind>)
        requires
            old(self).wf(),
        ensures
            final(self).wf(),
            final(self).writer_spec() == old(self).writer_spec(),
            ({
                let rs = old(self).readers();
                let g = acknack.reader_guid;
                let i = reader_index(rs, g);
                if acknack.writer_guid != old(self).writer_spec().guid_spec() || !has_reader(rs, g) {
                    r == Err::<(), ErrorKind>(ErrorKind::UnknownPeer) && final(self).readers() == rs
                } else if acknack.count <= rs[i].last_acknack_count {
                    r is Ok && final(self).readers() == rs
                } else if !within(acknack.acknowledged@, old(self).last_change()) || !within(
                    acknack.requested@,
                    old(self).last_change(),
                ) {
                    r == Err::<(), ErrorKind>(ErrorKind::ProtocolViolation) && final(self).readers()
                        == rs
                } else {
                    &&& r is Ok
                    &&& final(self).readers() == rs.update(
                        i,
                        after_acknack(
                            rs[i],
                            acknack.acknowledged@,
                            acknack.requested@,
                            acknack.count,
                            now,
                            old(self).writer_spec().nack_response_delay_spec(),
                        ),
                    )
                }
            }),
    {
        if acknack.writer_guid != self.writer.guid {
            return Err(ErrorKind::UnknownPeer);
        }
        let i = match self.find_reader(acknack.reader_guid) {
            Some(i) => i,
            None => {
                return Err(ErrorKind::UnknownPeer);
            },
        };
        assert(self.readers()[i as int] == self.matched_readers@[i as int]@);
        if acknack.count <= self.matched_readers[i].last_acknack_count() {
            return Ok(());
        }
        let last = self.writer.last_change_sequence_number.to_i64();
        if !Self::names_within(&acknack.acknowledged, last) || !Self::names_within(
            &acknack.requested,
            last,
        ) {
            return Err(ErrorKind::ProtocolViolation);
        }
        let ghost rs = self.readers();
        let mut p = self.matched_readers.remove(i);
        p.acked_changes_set(&acknack.acknowledged);
        p.requested_changes_set(&acknack.requested);
        p.set_last_acknack_count(acknack.count);
        if !p.has_requests() {
            p.set_repair_due(None);
        } else if p.repair_due().is_none() {
            p.set_repair_due(Some(saturating_add(now, self.writer.nack_response_delay.nanos)));
        }
        self.matched_readers.insert(i, p);
        assert(self.readers() =~= rs.update(
            i as int,
            after_acknack(
                rs[i as int],
                acknack.acknowledged@,
                acknack.requested@,
                acknack.count,
                now,
                self.writer.nack_response_delay.nanos,
            ),
        ));
        Ok(())
    }

    fn names_within(s: &crate::sequence_set::SequenceNumberSet, last: i64) -> (r: bool)
        ensures
            r == within(s@, last as int),
    {
        let low_ok = match s.min() {
            Some(m) => m.to_i64() >= 1,
            None => true,
        };
        let high_ok = match s.max() {
            Some(m) => m.to_i64() <= last,
            None => true,
        };
        low_ok && high_ok
    }

    /// The next thing to send to reader `g` at time `now`, if any, and the
    /// step of its proxy that goes with it (see `writer_step`). A reader that
    /// is not matched gets nothing.
    pub fn next_action(&mut self, now: u64, g: Guid) -> (r: Option<WriterAction>)
        requires
            old(self).wf(),
        ensures
            final(self).wf(),
            final(self).writer_spec() == old(self).writer_spec(),
            !has_reader(old(self).readers(), g) ==> r.is_none() && final(self).readers() == old(self).readers(),
            has_reader(old(self).readers(), g) ==> {
                let rs = old(self).readers();
                let i = reader_index(rs, g);
                &&& final(self).readers().len() == rs.len()
                &&& final(self).readers() == rs.update(i, final(self).readers()[i])
                &&& writer_step(
                    rs[i],
                    final(self).readers()[i],
                    r,
                    now,
                    old(self).cache()@,
                    old(self).last_change(),
                    old(self).writer_spec().push_mode_spec(),
                    g,
                    old(self).writer_spec().guid_spec(),
                )
            },
    {
        let i = match self.find_reader(g) {
            Some(i) => i,
            None => {
                return None;
            },
        };
        let ghost rs = self.readers();
        assert(rs[i as int] == self.matched_readers@[i as int]@);
        let mut p = self.matched_readers.remove(i);
        let ready = match p.repair_due() {
            Some(t) => t <= now && p.has_requests(),
            None => false,
        };
        let wg = self.writer.guid;
        let last = self.writer.last_change_sequence_number;
        let action = if ready {
            match p.next_requested_change() {
                Some(n) => {
                    if !p.has_requests() {
                        p.set_repair_due(None);
                    }
                    Some(self.writer.send_range(g, n, n))
                },
                None => None,
            }
        } else if self.writer.push_mode {
            let hs = p.highest_sent_sequence_number();
            if hs.to_i64() < last.to_i64() && last.to_i64() >= 1 {
                let lo = if hs.to_i64() < 1 {
                    SequenceNumber::from_i64(1)
                } else {
                    SequenceNumber::from_i64(hs.to_i64() + 1)
                };
                if self.writer.writer_cache.contains(lo) {
                    p.set_highest_sent(lo);
                    Some(self.writer.send_range(g, lo, lo))
                } else {
                    let end = match self.writer.writer_cache.least_above(hs) {
                        Some(m) => {
                            proof {
                                let k = choose|k: int| 0 <= k < self.writer.writer_cache@.len()
                                    && #[trigger] self.writer.writer_cache@[k].sn() == m@;
                                assert(1 <= self.writer.writer_cache@[k].sn());
                            }
                            SequenceNumber::from_i64(m.to_i64() - 1)
                        },
                        None => last,
                    };
                    p.set_highest_sent(end);
                    let a = self.writer.send_range(g, lo, end);
                    assert(sends(a, self.writer.writer_cache@, lo@, end@, g, wg));
                    Some(a)
                }
            } else {
                None
            }
        } else {
            None
        };
        self.matched_readers.insert(i, p);
        assert(self.readers() =~= rs.update(i as int, p@));
        proof {
            assert forall|a: int, b: int|
                0 <= a < self.readers().len() && 0 <= b < self.readers().len() && a != b implies #[trigger] self.readers()[a].remote_reader_guid
                != #[trigger] self.readers()[b].remote_reader_guid by {
                assert(rs[a].remote_reader_guid != rs[b].remote_reader_guid);
            }
        }
        action
    }
}

} // verus!
