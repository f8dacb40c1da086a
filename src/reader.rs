//! Readers: the state common to every reader, and the reliable (stateful)
//! reader that keeps a proxy for each matched writer and answers its
//! heartbeats with acknacks.

use vstd::prelude::*;
use crate::error::ErrorKind;
use crate::history_cache::{CacheChange, HistoryCache};
use crate::messages::{AckNack, Count, Gap, Heartbeat};
use crate::qos::HistoryKind;
use crate::sequence_set::SequenceNumberSet;
use crate::structure::{Duration, Entity, Guid, Locator, ReliabilityKind, TopicKind};
use crate::writer::{next_count, saturating_add, saturating_sum};
use crate::writer_proxy::{
    gap_set, lost_set, missing_set, proxy_wf, received_set, settled, WriterProxy,
    WriterProxyView,
};

verus! {

/// The state that every reader has: its identity and locators, how long it
/// waits before answering a heartbeat, and its history cache.
#[derive(Debug)]
pub struct Reader {
    guid: Guid,
    topic_kind: TopicKind,
    reliability_level: ReliabilityKind,
    unicast_locator_list: Vec<Locator>,
    multicast_locator_list: Vec<Locator>,
    expects_inline_qos: bool,
    heartbeat_response_delay: Duration,
    reader_cache: HistoryCache,
}

impl Reader {
    pub closed spec fn guid_spec(&self) -> Guid {
        self.guid
    }

    pub closed spec fn heartbeat_response_delay_spec(&self) -> u64 {
        self.heartbeat_response_delay.nanos
    }

    pub closed spec fn cache(&self) -> HistoryCache {
        self.reader_cache
    }

    pub open spec fn wf(&self) -> bool {
        self.cache().wf()
    }

    /// A reader with an empty cache that keeps all history.
    pub fn new(
        guid: Guid,
        unicast_locator_list: Vec<Locator>,
        multicast_locator_list: Vec<Locator>,
        reliability_kind: ReliabilityKind,
        topic_kind: TopicKind,
        expects_inline_qos: bool,
        heartbeat_response_delay: Duration,
    ) -> (r: Self)
        ensures
            r.wf(),
            r.guid_spec() == guid,
            r.heartbeat_response_delay_spec() == heartbeat_response_delay.nanos,
            r.cache()@ == Seq::<CacheChange>::empty(),
            r.cache().kind_spec() == HistoryKind::KeepAll,
    {
        Self {
            guid,
            topic_kind,
            reliability_level: reliability_kind,
            unicast_locator_list,
            multicast_locator_list,
            expects_inline_qos,
            heartbeat_response_delay,
            reader_cache: HistoryCache::new(),
        }
    }

    /// The same reader with `cache` as its history.
    pub fn with_cache(self, cache: HistoryCache) -> (r: Self)
        requires
            cache.wf(),
        ensures
            r.wf(),
            r.guid_spec() == self.guid_spec(),
            r.heartbeat_response_delay_spec() == self.heartbeat_response_delay_spec(),
            r.cache() == cache,
    {
        Reader { reader_cache: cache, ..self }
    }

    pub fn guid(&self) -> (r: Guid)
        ensures
            r == self.guid_spec(),
    {
        self.guid
    }

    pub fn reader_cache(&self) -> (r: &HistoryCache)
        ensures
            *r == self.cache(),
    {
        &self.reader_cache
    }
}

impl Entity for Reader {
    fn entity(&self) -> Guid {
        self.guid
    }
}

impl Entity for StatefulReader {
    fn entity(&self) -> Guid {
        self.reader.guid
    }
}

/// Some proxy of `ws` is for the writer `g`.
pub open spec fn has_writer(ws: Seq<WriterProxyView>, g: Guid) -> bool {
    exists|i: int| 0 <= i < ws.len() && #[trigger] ws[i].remote_writer_guid == g
}

/// The position in `ws` of the proxy for the writer `g`.
pub open spec fn writer_index(ws: Seq<WriterProxyView>, g: Guid) -> int {
    choose|i: int| 0 <= i < ws.len() && #[trigger] ws[i].remote_writer_guid == g
}

/// No two proxies of `ws` are for the same writer.
pub open spec fn unique_writers(ws: Seq<WriterProxyView>) -> bool {
    forall|i: int, j: int|
        0 <= i < ws.len() && 0 <= j < ws.len() && i != j ==> #[trigger] ws[i].remote_writer_guid
            != #[trigger] ws[j].remote_writer_guid
}

/// `ws` without the proxy for the writer `g`.
pub open spec fn without_writer(ws: Seq<WriterProxyView>, g: Guid) -> Seq<WriterProxyView> {
    if has_writer(ws, g) {
        ws.remove(writer_index(ws, g))
    } else {
        ws
    }
}

/// The proxy after a heartbeat that announces `first` to `last`: the range
/// reaches at least to `last`, nothing below `first` will arrive any more,
/// and an acknack is scheduled `delay` after `now` unless one is pending.
pub open spec fn after_heartbeat(
    p: WriterProxyView,
    first: int,
    last: int,
    count: Count,
    now: u64,
    delay: u64,
) -> WriterProxyView {
    let announced = WriterProxyView {
        announced: if last > p.announced {
            last
        } else {
            p.announced
        },
        last_heartbeat_count: count,
        acknack_due: if p.acknack_due.is_some() {
            p.acknack_due
        } else {
            Some(saturating_sum(now, delay))
        },
        ..p
    };
    lost_set(announced, first)
}

/// What became of a change that a reader took from a matched writer.
#[derive(Clone, Copy, Debug, PartialEq, Eq, Hash, Structural)]
pub enum DataOutcome {
    /// New to the reader: it went into the cache, and a sample is available.
    Delivered,
    /// Received before: nothing changed.
    Duplicate,
    /// Known never to come (filtered out or removed): discarded, never
    /// delivered.
    NotAvailable,
}

/// An acknack to the writer of `p` is due at `now`.
pub open spec fn acknack_ready(p: WriterProxyView, now: u64) -> bool {
    p.acknack_due matches Some(t) && t <= now
}

/// A reliable reader: a reader with a proxy for each matched writer.
#[derive(Debug)]
pub struct StatefulReader {
    reader: Reader,
    matched_writers: Vec<WriterProxy>,
}

impl StatefulReader {
    pub closed spec fn reader_spec(&self) -> Reader {
        self.reader
    }

    /// The proxies of the matched writers, in the order they were matched.
    pub closed spec fn writers(&self) -> Seq<WriterProxyView> {
        self.matched_writers@.map_values(|p: WriterProxy| p@)
    }

    pub open spec fn cache(&self) -> HistoryCache {
        self.reader_spec().cache()
    }

    pub open spec fn wf(&self) -> bool {
        &&& self.reader_spec().wf()
        &&& unique_writers(self.writers())
        &&& forall|i: int| 0 <= i < self.writers().len() ==> proxy_wf(#[trigger] self.writers()[i])
    }

    /// A reliable reader with no matched writer yet.
    pub fn new(reader: Reader) -> (r: Self)
        requires
            reader.wf(),
        ensures
            r.wf(),
            r.reader_spec() == reader,
            r.writers() == Seq::<WriterProxyView>::empty(),
    {
        let r = Self { reader, matched_writers: Vec::new() };
        assert(r.writers() =~= Seq::<WriterProxyView>::empty());
        r
    }

    pub fn reader(&self) -> (r: &Reader)
        ensures
            *r == self.reader_spec(),
    {
        &self.reader
    }

    fn find_writer(&self, g: Guid) -> (r: Option<usize>)
        requires
            self.wf(),
        ensures
            r.is_none() == !has_writer(self.writers(), g),
            r matches Some(i) ==> i == writer_index(self.writers(), g) && i < self.writers().len(),
    {
        let mut i: usize = 0;
        while i < self.matched_writers.len()
            invariant
                i <= self.matched_writers@.len(),
                self.writers().len() == self.matched_writers@.len(),
                forall|k: int| 0 <= k < self.matched_writers@.len() ==> #[trigger] self.writers()[k]
                    == self.matched_writers@[k]@,
                forall|k: int| 0 <= k < i ==> #[trigger] self.writers()[k].remote_writer_guid != g,
                unique_writers(self.writers()),
            decreases self.matched_writers@.len() - i,
        {
            if self.matched_writers[i].remote_writer_guid() == g {
                assert(self.writers()[i as int].remote_writer_guid == g);
                assert(has_writer(self.writers(), g));
                let ghost j = writer_index(self.writers(), g);
                assert(j == i) by {
                    assert(self.writers()[j].remote_writer_guid == g);
                }
                return Some(i);
            }
            i = i + 1;
        }
        None
    }

    /// The proxy of the writer `g`, if it is matched.
    pub fn matched_writer_lookup(&self, g: Guid) -> (r: Option<&WriterProxy>)
        requires
            self.wf(),
        ensures
            r.is_none() == !has_writer(self.writers(), g),
            r matches Some(p) ==> p@ == self.writers()[writer_index(self.writers(), g)],
    {
        match self.find_writer(g) {
            Some(i) => Some(&self.matched_writers[i]),
            None => None,
        }
    }

    /// Matches a writer. Matching one that is already matched is a
    /// programming error.
    pub fn matched_writer_add(&mut self, writer: WriterProxy)
        requires
            old(self).wf(),
            writer.wf(),
            !has_writer(old(self).writers(), writer@.remote_writer_guid),
        ensures
            final(self).wf(),
            final(self).reader_spec() == old(self).reader_spec(),
            final(self).writers() == old(self).writers().push(writer@),
    {
        let ghost g = writer@.remote_writer_guid;
        self.matched_writers.push(writer);
        assert(self.writers() =~= old(self).writers().push(writer@));
        assert forall|i: int, j: int|
            0 <= i < self.writers().len() && 0 <= j < self.writers().len() && i != j implies #[trigger] self.writers()[i].remote_writer_guid
            != #[trigger] self.writers()[j].remote_writer_guid by {
            if i == self.writers().len() - 1 {
                assert(old(self).writers()[j].remote_writer_guid != g);
            } else if j == self.writers().len() - 1 {
                assert(old(self).writers()[i].remote_writer_guid != g);
            }
        }
    }

    /// Unmatches the writer `g`: its proxy is dropped. The cache is left as
    /// it is.
    pub fn matched_writer_remove(&mut self, g: Guid)
        requires
            old(self).wf(),
        ensures
            final(self).wf(),
            final(self).reader_spec() == old(self).reader_spec(),
            final(self).writers() == without_writer(old(self).writers(), g),
    {
        match self.find_writer(g) {
            Some(i) => {
                self.matched_writers.remove(i);
                assert(self.writers() =~= old(self).writers().remove(i as int));
            },
            None => {},
        }
    }

    /// Puts the proxy `p` back at `i` after it was taken out.
    proof fn lemma_put_back(
        old_ws: Seq<WriterProxyView>,
        ws: Seq<WriterProxyView>,
        i: int,
        p: WriterProxyView,
    )
        requires
            unique_writers(old_ws),
            forall|k: int| 0 <= k < old_ws.len() ==> proxy_wf(#[trigger] old_ws[k]),
            0 <= i < old_ws.len(),
            ws == old_ws.update(i, p),
            p.remote_writer_guid == old_ws[i].remote_writer_guid,
            proxy_wf(p),
        ensures
            unique_writers(ws),
            forall|k: int| 0 <= k < ws.len() ==> proxy_wf(#[trigger] ws[k]),
    {
        assert forall|a: int, b: int|
            0 <= a < ws.len() && 0 <= b < ws.len() && a != b implies #[trigger] ws[a].remote_writer_guid
            != #[trigger] ws[b].remote_writer_guid by {
            assert(old_ws[a].remote_writer_guid != old_ws[b].remote_writer_guid);
        }
        assert forall|k: int| 0 <= k < ws.len() implies proxy_wf(#[trigger] ws[k]) by {
            if k != i {
                assert(proxy_wf(old_ws[k]));
            }
        }
    }

    /// Takes a change from a matched writer. One from a writer that is not
    /// matched is dropped as from an unknown peer, and one whose sequence
    /// number is below 1 as malformed. One that was received already is a
    /// duplicate, and one known never to come is discarded; neither changes
    /// anything. One that a full cache that keeps all history refuses is not
    /// taken, so that it is asked for again. Otherwise the change goes into
    /// the cache and is marked received: a new sample is available.
    pub fn receive_data(&mut self, change: CacheChange) -> (r: Result<DataOutcome, ErrorKind>)
        requires
            old(self).wf(),
        ensures
            final(self).wf(),
            ({
                let ws = old(self).writers();
                let g = change.writer_guid_spec();
                let i = writer_index(ws, g);
                let cache = old(self).cache();
                if !has_writer(ws, g) {
                    r == Err::<DataOutcome, ErrorKind>(ErrorKind::UnknownPeer) && *final(self) == *old(self)
                } else if change.sn() < 1 {
                    r == Err::<DataOutcome, ErrorKind>(ErrorKind::ProtocolViolation) && *final(self) == *old(self)
                } else if ws[i].received.contains(change.sn()) {
                    r == Ok::<DataOutcome, ErrorKind>(DataOutcome::Duplicate) && *final(self) == *old(self)
                } else if settled(ws[i], change.sn()) {
                    r == Ok::<DataOutcome, ErrorKind>(DataOutcome::NotAvailable) && *final(self) == *old(self)
                } else if cache.refuses(cache@, change) {
                    r == Err::<DataOutcome, ErrorKind>(ErrorKind::ResourceExhausted) && *final(self) == *old(self)
                } else {
                    &&& r == Ok::<DataOutcome, ErrorKind>(DataOutcome::Delivered)
                    &&& final(self).writers() == ws.update(i, received_set(ws[i], change.sn()))
                    &&& final(self).cache()@ == cache.after_add(cache@, change)
                    &&& final(self).cache().same_policy(&cache)
                    &&& final(self).reader_spec().guid_spec() == old(self).reader_spec().guid_spec()
                    &&& final(self).reader_spec().heartbeat_response_delay_spec() == old(self).reader_spec().heartbeat_response_delay_spec()
                }
            }),
    {
        let g = change.writer_guid();
        let i = match self.find_writer(g) {
            Some(i) => i,
            None => {
                return Err(ErrorKind::UnknownPeer);
            },
        };
        let n = change.sequence_number();
        if n.to_i64() < 1 {
            return Err(ErrorKind::ProtocolViolation);
        }
        assert(self.writers()[i as int] == self.matched_writers@[i as int]@);
        if self.matched_writers[i].is_received(n) {
            return Ok(DataOutcome::Duplicate);
        }
        if self.matched_writers[i].is_settled(n) {
            return Ok(DataOutcome::NotAvailable);
        }
        if self.reader.reader_cache.refuses_change(&change) {
            return Err(ErrorKind::ResourceExhausted);
        }
        let _ = self.reader.reader_cache.add_change(change);
        let ghost ws = self.writers();
        assert(proxy_wf(ws[i as int]));
        let mut p = self.matched_writers.remove(i);
        p.received_change_set(n);
        self.matched_writers.insert(i, p);
        assert(self.writers() =~= ws.update(i as int, p@));
        proof {
            Self::lemma_put_back(ws, self.writers(), i as int, p@);
        }
        Ok(DataOutcome::Delivered)
    }

    /// Takes a heartbeat from a matched writer. One from a writer that is not
    /// matched is dropped as from an unknown peer; one whose range is
    /// malformed (a first sequence number below 1, or a last one below the
    /// first less one) is dropped too. One whose count is not above the last
    /// taken from that writer is a repeat and is ignored. Otherwise the
    /// announced range and the lost changes are brought up to date, and an
    /// acknack is scheduled after the heartbeat response delay unless one is
    /// already pending.
    pub fn receive_heartbeat(&mut self, now: u64, heartbeat: &Heartbeat) -> (r: Result<
        (),
        ErrorKind,
    >)
        requires
            old(self).wf(),
        ensures
            final(self).wf(),
            final(self).reader_spec() == old(self).reader_spec(),
            ({
                let ws = old(self).writers();
                let g = heartbeat.writer_guid;
                let i = writer_index(ws, g);
                if !has_writer(ws, g) {
                    r == Err::<(), ErrorKind>(ErrorKind::UnknownPeer) && final(self).writers() == ws
                } else if heartbeat.first_sn@ < 1 || heartbeat.last_sn@ < heartbeat.first_sn@ - 1 {
                    r == Err::<(), ErrorKind>(ErrorKind::ProtocolViolation) && final(self).writers()
                        == ws
                } else if heartbeat.count <= ws[i].last_heartbeat_count {
                    r is Ok && final(self).writers() == ws
                } else {
                    &&& r is Ok
                    &&& final(self).writers() == ws.update(
                        i,
                        after_heartbeat(
                            ws[i],
                            heartbeat.first_sn@,
                            heartbeat.last_sn@,
                            heartbeat.count,
                            now,
                            old(self).reader_spec().heartbeat_response_delay_spec(),
                        ),
                    )
                }
            }),
    {
        let i = match self.find_writer(heartbeat.writer_guid) {
            Some(i) => i,
            None => {
                return Err(ErrorKind::UnknownPeer);
            },
        };
        let first = heartbeat.first_sn.to_i64();
        let last = heartbeat.last_sn.to_i64();
        if first < 1 || last < first - 1 {
            return Err(ErrorKind::ProtocolViolation);
        }
        assert(self.writers()[i as int] == self.matched_writers@[i as int]@);
        if heartbeat.count <= self.matched_writers[i].last_heartbeat_count() {
            return Ok(());
        }
        let ghost ws = self.writers();
        assert(proxy_wf(ws[i as int]));
        let mut p = self.matched_writers.remove(i);
        p.missing_changes_update(heartbeat.last_sn);
        p.set_last_heartbeat_count(heartbeat.count);
        if p.acknack_due().is_none() {
            p.set_acknack_due(Some(saturating_add(now, self.reader.heartbeat_response_delay.nanos)));
        }
        assert(proxy_wf(p@)) by {
            assert forall|k: int| 1 <= k <= p@.available_max implies #[trigger] settled(p@, k) by {
                assert(settled(ws[i as int], k));
            }
            assert(!settled(ws[i as int], ws[i as int].available_max + 1));
        }
        p.lost_changes_update(heartbeat.first_sn);
        self.matched_writers.insert(i, p);
        assert(self.writers() =~= ws.update(i as int, p@));
        proof {
            Self::lemma_put_back(ws, self.writers(), i as int, p@);
        }
        Ok(())
    }

    /// Takes a gap from a matched writer: the changes it covers that are not
    /// settled will never arrive. One from a writer that is not matched is
    /// dropped as from an unknown peer, and one whose range is malformed (a
    /// start below 1, or an end below the start) is dropped too.
    pub fn receive_gap(&mut self, gap: &Gap) -> (r: Result<(), ErrorKind>)
        requires
            old(self).wf(),
        ensures
            final(self).wf(),
            final(self).reader_spec() == old(self).reader_spec(),
            ({
                let ws = old(self).writers();
                let g = gap.writer_guid;
                let i = writer_index(ws, g);
                if !has_writer(ws, g) {
                    r == Err::<(), ErrorKind>(ErrorKind::UnknownPeer) && final(self).writers() == ws
                } else if gap.gap_start@ < 1 || gap.gap_end@ < gap.gap_start@ || gap.gap_end@
                    == i64::MAX {
                    r == Err::<(), ErrorKind>(ErrorKind::ProtocolViolation) && final(self).writers()
                        == ws
                } else {
                    &&& r is Ok
                    &&& final(self).writers() == ws.update(
                        i,
                        gap_set(ws[i], gap.gap_start@, gap.gap_end@),
                    )
                }
            }),
    {
        let i = match self.find_writer(gap.writer_guid) {
            Some(i) => i,
            None => {
                return Err(ErrorKind::UnknownPeer);
            },
        };
        let start = gap.gap_start.to_i64();
        let end = gap.gap_end.to_i64();
        if start < 1 || end < start || end == i64::MAX {
            return Err(ErrorKind::ProtocolViolation);
        }
        let ghost ws = self.writers();
        assert(ws[i as int] == self.matched_writers@[i as int]@);
        assert(proxy_wf(ws[i as int]));
        let mut p = self.matched_writers.remove(i);
        p.gap_change_set(gap.gap_start, gap.gap_end);
        self.matched_writers.insert(i, p);
        assert(self.writers() =~= ws.update(i as int, p@));
        proof {
            Self::lemma_put_back(ws, self.writers(), i as int, p@);
        }
        Ok(())
    }

    /// The acknack due to writer `g` at time `now`, if one is: it
    /// acknowledges the changes received from the writer and asks for those
    /// missing, and carries the next count. Sending it clears the schedule.
    pub fn next_acknack(&mut self, now: u64, g: Guid) -> (r: Option<AckNack>)
        requires
            old(self).wf(),
        ensures
            final(self).wf(),
            final(self).reader_spec() == old(self).reader_spec(),
            ({
                let ws = old(self).writers();
                let i = writer_index(ws, g);
                if has_writer(ws, g) && acknack_ready(ws[i], now) {
                    &&& r matches Some(a) && a.reader_guid == old(self).reader_spec().guid_spec()
                        && a.writer_guid == g && a.acknowledged@ == ws[i].received && a.requested@
                        == missing_set(ws[i]) && a.count == next_count(ws[i].acknack_count)
                    &&& final(self).writers() == ws.update(
                        i,
                        WriterProxyView {
                            acknack_due: None,
                            acknack_count: next_count(ws[i].acknack_count),
                            ..ws[i]
                        },
                    )
                } else {
                    r.is_none() && final(self).writers() == ws
                }
            }),
    {
        let i = match self.find_writer(g) {
            Some(i) => i,
            None => {
                return None;
            },
        };
        let ghost ws = self.writers();
        assert(ws[i as int] == self.matched_writers@[i as int]@);
        let due = match self.matched_writers[i].acknack_due() {
            Some(t) => t <= now,
            None => false,
        };
        if !due {
            return None;
        }
        assert(proxy_wf(ws[i as int]));
        let mut p = self.matched_writers.remove(i);
        let acknowledged = p.received_set_copy();
        let requested = SequenceNumberSet::from_vec(&p.missing_changes());
        let count = crate::writer::following_count(p.acknack_count());
        p.set_acknack_due(None);
        p.set_acknack_count(count);
        assert(proxy_wf(p@)) by {
            assert forall|k: int| 1 <= k <= p@.available_max implies #[trigger] settled(p@, k) by {
                assert(settled(ws[i as int], k));
            }
            assert(!settled(ws[i as int], ws[i as int].available_max + 1));
        }
        self.matched_writers.insert(i, p);
        assert(self.writers() =~= ws.update(i as int, p@));
        proof {
            Self::lemma_put_back(ws, self.writers(), i as int, p@);
        }
        Some(AckNack { reader_guid: self.reader.guid, writer_guid: g, acknowledged, requested, count })
    }
}

} // verus!
