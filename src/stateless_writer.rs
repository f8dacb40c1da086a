//! The best-effort (stateless) writer: no acknowledgement is tracked. Each
//! reader locator keeps only the highest sequence number sent to it and the
//! changes that fragment requests asked for again.

use vstd::prelude::*;
use crate::history_cache::{has_seq, is_least_above, none_above, seq_index, seqs_above, HistoryCache};
use crate::sequence_set::{ascending, is_least, set_of, SequenceNumberSet};
use crate::structure::{Locator, SequenceNumber};
use crate::writer::Writer;
use crate::error::ErrorKind;
use crate::history_cache::{CacheChange, Data};
use crate::qos::HistoryKind;
use crate::structure::{ChangeKind, InstanceHandle};

verus! {

/// What a reader locator holds, in the terms its contracts use.
pub struct ReaderLocatorView {
    pub locator: Locator,
    pub expects_inline_qos: bool,
    pub highest_sent: int,
    pub requested: Set<int>,
}

/// A destination of a best-effort writer: a locator, the highest sequence
/// number sent to it, and the changes asked for again by fragment requests.
#[derive(Debug)]
pub struct ReaderLocator {
    locator: Locator,
    expects_inline_qos: bool,
    highest_sent: SequenceNumber,
    requested: SequenceNumberSet,
}

impl View for ReaderLocator {
    type V = ReaderLocatorView;

    closed spec fn view(&self) -> ReaderLocatorView {
        ReaderLocatorView {
            locator: self.locator,
            expects_inline_qos: self.expects_inline_qos,
            highest_sent: self.highest_sent@,
            requested: self.requested@,
        }
    }
}

impl ReaderLocator {
    /// A destination to which nothing was sent yet.
    pub fn new(locator: Locator, expects_inline_qos: bool) -> (r: Self)
        ensures
            r@ == (ReaderLocatorView {
                locator,
                expects_inline_qos,
                highest_sent: SequenceNumber::unknown_spec(),
                requested: Set::empty(),
            }),
    {
        Self {
            locator,
            expects_inline_qos,
            highest_sent: SequenceNumber::unknown(),
            requested: SequenceNumberSet::new(),
        }
    }

    pub fn locator(&self) -> (r: Locator)
        ensures
            r == self@.locator,
    {
        self.locator
    }

    pub fn highest_sent_sequence_number(&self) -> (r: SequenceNumber)
        ensures
            r@ == self@.highest_sent,
    {
        self.highest_sent
    }

    /// Records that the changes of `requested` were asked for again.
    pub fn requested_changes_set(&mut self, requested: &SequenceNumberSet)
        ensures
            final(self)@ == (ReaderLocatorView {
                requested: old(self)@.requested.union(requested@),
                ..old(self)@
            }),
    {
        self.requested.union_with(requested);
    }

    /// The sequence numbers asked for again and not sent since, in
    /// increasing order.
    pub fn requested_changes(&self) -> (r: Vec<SequenceNumber>)
        ensures
            ascending(r@),
            set_of(r@) == self@.requested,
    {
        self.requested.to_vec()
    }

    /// Takes the least requested sequence number out of the requested ones,
    /// or returns `None` where nothing is requested.
    pub fn next_requested_change(&mut self) -> (r: Option<SequenceNumber>)
        ensures
            r.is_none() == (old(self)@.requested == Set::<int>::empty()),
            r.is_none() ==> final(self)@ == old(self)@,
            r matches Some(n) ==> is_least(old(self)@.requested, n@) && final(self)@ == (
            ReaderLocatorView { requested: old(self)@.requested.remove(n@), ..old(self)@ }),
    {
        match self.requested.min() {
            Some(n) => {
                self.requested.remove(n);
                Some(n)
            },
            None => None,
        }
    }

    /// The sequence numbers of `cache` not sent to this destination yet, in
    /// increasing order.
    pub fn unsent_changes(&self, cache: &HistoryCache) -> (r: Vec<SequenceNumber>)
        ensures
            ascending(r@),
            set_of(r@) == seqs_above(cache@, self@.highest_sent),
    {
        cache.sequence_numbers_above(self.highest_sent)
    }

    /// The least sequence number of `cache` not sent yet, which then counts
    /// as sent; `None` where everything was sent.
    pub fn next_unsent_change(&mut self, cache: &HistoryCache) -> (r: Option<SequenceNumber>)
        ensures
            r.is_none() == none_above(cache@, old(self)@.highest_sent),
            r.is_none() ==> final(self)@ == old(self)@,
            r matches Some(n) ==> is_least_above(cache@, old(self)@.highest_sent, n@)
                && final(self)@ == (ReaderLocatorView { highest_sent: n@, ..old(self)@ }),
    {
        match cache.least_above(self.highest_sent) {
            Some(n) => {
                self.highest_sent = n;
                Some(n)
            },
            None => None,
        }
    }

    /// Forgets what was sent, so that everything in the cache is sent again.
    pub fn unsent_changes_reset(&mut self)
        ensures
            final(self)@ == (ReaderLocatorView {
                highest_sent: SequenceNumber::unknown_spec(),
                ..old(self)@
            }),
    {
        self.highest_sent = SequenceNumber::unknown();
    }
}

/// Some destination of `ls` has the locator `l`.
pub open spec fn has_locator(ls: Seq<ReaderLocatorView>, l: Locator) -> bool {
    exists|i: int| 0 <= i < ls.len() && #[trigger] ls[i].locator == l
}

/// The position in `ls` of the destination with locator `l`.
pub open spec fn locator_index(ls: Seq<ReaderLocatorView>, l: Locator) -> int {
    choose|i: int| 0 <= i < ls.len() && #[trigger] ls[i].locator == l
}

/// `ls` without the destination with locator `l`.
pub open spec fn without_locator(ls: Seq<ReaderLocatorView>, l: Locator) -> Seq<ReaderLocatorView> {
    if has_locator(ls, l) {
        ls.remove(locator_index(ls, l))
    } else {
        ls
    }
}

/// No two destinations of `ls` share a locator.
pub open spec fn unique_locators(ls: Seq<ReaderLocatorView>) -> bool {
    forall|i: int, j: int|
        0 <= i < ls.len() && 0 <= j < ls.len() && i != j ==> #[trigger] ls[i].locator
            != #[trigger] ls[j].locator
}

/// Sending the least unsent change of `cache` turns destination `p` into `q`
/// and yields `r`; where everything was sent, nothing changes.
pub open spec fn unsent_step(
    p: ReaderLocatorView,
    q: ReaderLocatorView,
    r: Option<CacheChange>,
    cache: Seq<CacheChange>,
) -> bool {
    if none_above(cache, p.highest_sent) {
        q == p && r.is_none()
    } else {
        exists|m: int|
            #![trigger is_least_above(cache, p.highest_sent, m)]
            {
                &&& is_least_above(cache, p.highest_sent, m)
                &&& q == ReaderLocatorView { highest_sent: m, ..p }
                &&& r == Some(cache[seq_index(cache, m)])
            }
    }
}

/// One step of a best-effort writer towards destination `p` turns it into
/// `q` and yields `r`: the least change asked for again, where the cache
/// still holds it, else the least unsent change. A change asked for that the
/// cache no longer holds is dropped from the requests.
pub open spec fn stateless_step(
    p: ReaderLocatorView,
    q: ReaderLocatorView,
    r: Option<CacheChange>,
    cache: Seq<CacheChange>,
) -> bool {
    if p.requested == Set::<int>::empty() {
        unsent_step(p, q, r, cache)
    } else {
        exists|n: int|
            #![trigger is_least(p.requested, n)]
            {
                &&& is_least(p.requested, n)
                &&& if has_seq(cache, n) {
                    &&& q == ReaderLocatorView { requested: p.requested.remove(n), ..p }
                    &&& r == Some(cache[seq_index(cache, n)])
                } else {
                    unsent_step(ReaderLocatorView { requested: p.requested.remove(n), ..p }, q, r, cache)
                }
            }
    }
}

/// A best-effort writer: a writer with a list of destinations and no
/// acknowledgement tracking.
#[derive(Debug)]
pub struct StatelessWriter {
    writer: Writer,
    reader_locators: Vec<ReaderLocator>,
}

impl StatelessWriter {
    pub closed spec fn writer_spec(&self) -> Writer {
        self.writer
    }

    /// The destinations, in the order they were added.
    pub closed spec fn locators(&self) -> Seq<ReaderLocatorView> {
        self.reader_locators@.map_values(|l: ReaderLocator| l@)
    }

    pub open spec fn wf(&self) -> bool {
        &&& self.writer_spec().wf()
        &&& unique_locators(self.locators())
    }

    pub fn new(writer: Writer) -> (r: Self)
        requires
            writer.wf(),
        ensures
            r.wf(),
            r.writer_spec() == writer,
            r.locators() == Seq::<ReaderLocatorView>::empty(),
    {
        let r = Self { writer, reader_locators: Vec::new() };
        assert(r.locators() =~= Seq::<ReaderLocatorView>::empty());
        r
    }

    pub fn writer(&self) -> (r: &Writer)
        ensures
            *r == self.writer_spec(),
    {
        &self.writer
    }

    fn find_locator(&self, l: Locator) -> (r: Option<usize>)
        requires
            unique_locators(self.locators()),
        ensures
            r.is_none() == !has_locator(self.locators(), l),
            r matches Some(i) ==> i == locator_index(self.locators(), l) && i < self.locators().len(),
    {
        let mut i: usize = 0;
        while i < self.reader_locators.len()
            invariant
                i <= self.reader_locators@.len(),
                self.locators().len() == self.reader_locators@.len(),
                forall|k: int| 0 <= k < self.reader_locators@.len() ==> #[trigger] self.locators()[k]
                    == self.reader_locators@[k]@,
                forall|k: int| 0 <= k < i ==> #[trigger] self.locators()[k].locator != l,
                unique_locators(self.locators()),
            decreases self.reader_locators@.len() - i,
        {
            if self.reader_locators[i].locator() == l {
                assert(self.locators()[i as int].locator == l);
                assert(has_locator(self.locators(), l));
                let ghost j = locator_index(self.locators(), l);
                assert(j == i) by {
                    assert(self.locators()[j].locator == l);
                }
                return Some(i);
            }
            i = i + 1;
        }
        None
    }

    /// Makes a change with the next sequence number and adds it to the cache,
    /// where it is unsent to every destination. The sequence number is used
    /// up even where a full cache that keeps all history refuses the change.
    pub fn new_change(
        &mut self,
        kind: ChangeKind,
        data_value: Option<Data>,
        handle: InstanceHandle,
    ) -> (r: Result<CacheChange, ErrorKind>)
        requires
            old(self).wf(),
            old(self).writer_spec().last_change() < i64::MAX,
        ensures
            final(self).wf(),
            final(self).locators() == old(self).locators(),
            final(self).writer_spec().last_change() == old(self).writer_spec().last_change() + 1,
            final(self).writer_spec().cache().same_policy(&old(self).writer_spec().cache()),
            final(self).writer_spec().guid_spec() == old(self).writer_spec().guid_spec(),
            r is Err <==> (old(self).writer_spec().cache().kind_spec() == HistoryKind::KeepAll
                && old(self).writer_spec().cache().breaks_limits(old(self).writer_spec().cache()@, handle)),
            r is Err ==> r == Err::<CacheChange, ErrorKind>(ErrorKind::ResourceExhausted)
                && final(self).writer_spec().cache()@ == old(self).writer_spec().cache()@,
            r matches Ok(c) ==> {
                &&& c.kind_spec() == kind
                &&& c.writer_guid_spec() == old(self).writer_spec().guid_spec()
                &&& c.instance() == handle
                &&& c.sn() == final(self).writer_spec().last_change()
                &&& c.data_spec() == data_value
                &&& !has_seq(old(self).writer_spec().cache()@, c.sn())
                &&& final(self).writer_spec().cache()@ == old(self).writer_spec().cache().after_add(
                    old(self).writer_spec().cache()@,
                    c,
                )
            },
    {
        self.writer.new_change(kind, data_value, handle)
    }

    /// Adds a destination; one whose locator is already a destination is
    /// ignored.
    pub fn reader_locator_add(&mut self, reader: ReaderLocator)
        requires
            old(self).wf(),
        ensures
            final(self).wf(),
            final(self).writer_spec() == old(self).writer_spec(),
            has_locator(old(self).locators(), reader@.locator) ==> final(self).locators() == old(self).locators(),
            !has_locator(old(self).locators(), reader@.locator) ==> final(self).locators() == old(self).locators().push(reader@),
    {
        if self.find_locator(reader.locator()).is_none() {
            let ghost l = reader@.locator;
            self.reader_locators.push(reader);
            assert(self.locators() =~= old(self).locators().push(reader@));
            assert forall|i: int, j: int|
                0 <= i < self.locators().len() && 0 <= j < self.locators().len() && i != j implies #[trigger] self.locators()[i].locator
                != #[trigger] self.locators()[j].locator by {
                if i == self.locators().len() - 1 {
                    assert(old(self).locators()[j].locator != l);
                } else if j == self.locators().len() - 1 {
                    assert(old(self).locators()[i].locator != l);
                }
            }
        }
    }

    /// Removes the destination with locator `l`, where there is one.
    pub fn reader_locator_remove(&mut self, l: Locator)
        requires
            old(self).wf(),
        ensures
            final(self).wf(),
            final(self).writer_spec() == old(self).writer_spec(),
            final(self).locators() == without_locator(old(self).locators(), l),
    {
        match self.find_locator(l) {
            Some(i) => {
                self.reader_locators.remove(i);
                assert(self.locators() =~= old(self).locators().remove(i as int));
            },
            None => {},
        }
    }

    /// Forgets what was sent to every destination, so that the whole cache is
    /// sent again.
    pub fn unsent_changes_reset(&mut self)
        requires
            old(self).wf(),
        ensures
            final(self).wf(),
            final(self).writer_spec() == old(self).writer_spec(),
            final(self).locators().len() == old(self).locators().len(),
            forall|i: int|
                0 <= i < old(self).locators().len() ==> #[trigger] final(self).locators()[i] == (
                ReaderLocatorView {
                    highest_sent: SequenceNumber::unknown_spec(),
                    ..old(self).locators()[i]
                }),
    {
        let mut i: usize = 0;
        while i < self.reader_locators.len()
            invariant
                i <= self.reader_locators@.len(),
                self.writer == old(self).writer,
                self.locators().len() == old(self).locators().len(),
                forall|k: int|
                    0 <= k < i ==> #[trigger] self.locators()[k] == (ReaderLocatorView {
                        highest_sent: SequenceNumber::unknown_spec(),
                        ..old(self).locators()[k]
                    }),
                forall|k: int| i <= k < self.locators().len() ==> #[trigger] self.locators()[k] == old(self).locators()[k],
            decreases self.reader_locators@.len() - i,
        {
            let ghost before = self.locators();
            assert(before[i as int] == self.reader_locators@[i as int]@);
            let mut l = self.reader_locators.remove(i);
            l.unsent_changes_reset();
            self.reader_locators.insert(i, l);
            assert(self.locators() =~= before.update(i as int, l@));
            i = i + 1;
        }
        assert forall|a: int, b: int|
            0 <= a < self.locators().len() && 0 <= b < self.locators().len() && a != b implies #[trigger] self.locators()[a].locator
            != #[trigger] self.locators()[b].locator by {
            assert(old(self).locators()[a].locator != old(self).locators()[b].locator);
        }
    }

    /// The next change to send to the destination `l`, if any: a change asked
    /// for again first (the least; one the cache no longer holds is skipped,
    /// best effort makes no promise of it), then the least unsent one.
    pub fn next_action(&mut self, l: Locator) -> (r: Option<CacheChange>)
        requires
            old(self).wf(),
        ensures
            final(self).wf(),
            final(self).writer_spec() == old(self).writer_spec(),
            !has_locator(old(self).locators(), l) ==> r.is_none() && final(self).locators() == old(self).locators(),
            has_locator(old(self).locators(), l) ==> {
                let ls = old(self).locators();
                let i = locator_index(ls, l);
                &&& final(self).locators().len() == ls.len()
                &&& final(self).locators() == ls.update(i, final(self).locators()[i])
                &&& stateless_step(ls[i], final(self).locators()[i], r, old(self).writer_spec().cache()@)
            },
    {
        let i = match self.find_locator(l) {
            Some(i) => i,
            None => {
                return None;
            },
        };
        let ghost before = self.locators();
        assert(before[i as int] == self.reader_locators@[i as int]@);
        let mut loc = self.reader_locators.remove(i);
        let cache = self.writer.writer_cache();
        let requested = match loc.next_requested_change() {
            Some(n) => cache.lookup(n),
            None => None,
        };
        let action = match requested {
            Some(c) => Some(c),
            None => {
                let ghost mid = loc@;
                let unsent = match loc.next_unsent_change(cache) {
                    Some(m) => cache.lookup(m),
                    None => None,
                };
                assert(unsent_step(mid, loc@, unsent, cache@));
                unsent
            },
        };
        self.reader_locators.insert(i, loc);
        assert(self.locators() =~= before.update(i as int, loc@));
        assert forall|a: int, b: int|
            0 <= a < self.locators().len() && 0 <= b < self.locators().len() && a != b implies #[trigger] self.locators()[a].locator
            != #[trigger] self.locators()[b].locator by {
            assert(before[a].locator != before[b].locator);
        }
        action
    }
}

} // verus!
