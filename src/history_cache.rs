//! The history cache: the store of changes that one endpoint owns, keyed by
//! sequence number, with the history and resource-limit policies that bound
//! it.

use vstd::prelude::*;
use crate::error::ErrorKind;
use crate::qos::{History, HistoryKind, ResourceLimits};
use crate::sequence_set::{ascending, set_of};
use crate::structure::{ChangeKind, Guid, InstanceHandle, SequenceNumber};

verus! {

/// The serialized payload of a change. The core passes it along and never
/// reads it.
#[derive(Clone, Copy, Debug, PartialEq, PartialOrd, Hash, Eq, Ord, Structural)]
pub struct Data;

/// Inline policy parameters that travel with a change.
#[derive(Clone, Copy, Debug, PartialEq, PartialOrd, Hash, Eq, Ord, Structural)]
pub struct ParameterList;

/// One change made to a data-object: its creation, modification, disposal or
/// unregistration. It does not change once made; its identity is the writer's
/// guid and its sequence number.
#[derive(Clone, Copy, Debug, PartialEq, PartialOrd, Hash, Eq, Ord)]
pub struct CacheChange {
    kind: ChangeKind,
    writer_guid: Guid,
    instance_handle: InstanceHandle,
    sequence_number: SequenceNumber,
    data_value: Option<Data>,
    inline_qos: ParameterList,
}

impl CacheChange {
    pub closed spec fn kind_spec(&self) -> ChangeKind {
        self.kind
    }

    pub closed spec fn writer_guid_spec(&self) -> Guid {
        self.writer_guid
    }

    pub closed spec fn instance(&self) -> InstanceHandle {
        self.instance_handle
    }

    pub closed spec fn seq(&self) -> SequenceNumber {
        self.sequence_number
    }

    pub closed spec fn data_spec(&self) -> Option<Data> {
        self.data_value
    }

    /// The number that the change's sequence number stands for.
    pub open spec fn sn(&self) -> int {
        self.seq()@
    }

    pub fn new(
        kind: ChangeKind,
        writer_guid: Guid,
        instance_handle: InstanceHandle,
        sequence_number: SequenceNumber,
        data_value: Option<Data>,
        inline_qos: ParameterList,
    ) -> (r: Self)
        ensures
            r.kind_spec() == kind,
            r.writer_guid_spec() == writer_guid,
            r.instance() == instance_handle,
            r.seq() == sequence_number,
            r.data_spec() == data_value,
    {
        Self { kind, writer_guid, instance_handle, sequence_number, data_value, inline_qos }
    }

    pub fn kind(&self) -> (r: ChangeKind)
        ensures
            r == self.kind_spec(),
    {
        self.kind
    }

    pub fn writer_guid(&self) -> (r: Guid)
        ensures
            r == self.writer_guid_spec(),
    {
        self.writer_guid
    }

    pub fn instance_handle(&self) -> (r: InstanceHandle)
        ensures
            r == self.instance(),
    {
        self.instance_handle
    }

    pub fn sequence_number(&self) -> (r: SequenceNumber)
        ensures
            r == self.seq(),
    {
        self.sequence_number
    }

    pub fn data_value(&self) -> (r: Option<Data>)
        ensures
            r == self.data_spec(),
    {
        self.data_value
    }
}

/// Some change of `s` has the sequence number `n`.
pub open spec fn has_seq(s: Seq<CacheChange>, n: int) -> bool {
    exists|i: int| 0 <= i < s.len() && #[trigger] s[i].sn() == n
}

/// The position in `s` of the change with sequence number `n`.
pub open spec fn seq_index(s: Seq<CacheChange>, n: int) -> int {
    choose|i: int| 0 <= i < s.len() && #[trigger] s[i].sn() == n
}

/// No two changes of `s` share a sequence number.
pub open spec fn unique_seqs(s: Seq<CacheChange>) -> bool {
    forall|i: int, j: int|
        0 <= i < s.len() && 0 <= j < s.len() && i != j ==> #[trigger] s[i].sn() != #[trigger] s[j].sn()
}

/// `n` is the least sequence number held in `s`.
pub open spec fn is_min_seq(s: Seq<CacheChange>, n: int) -> bool {
    &&& has_seq(s, n)
    &&& forall|i: int| 0 <= i < s.len() ==> n <= #[trigger] s[i].sn()
}

/// `n` is the greatest sequence number held in `s`.
pub open spec fn is_max_seq(s: Seq<CacheChange>, n: int) -> bool {
    &&& has_seq(s, n)
    &&& forall|i: int| 0 <= i < s.len() ==> #[trigger] s[i].sn() <= n
}

/// `s` after adding `c`: a change whose sequence number is already held
/// leaves it as it is.
pub open spec fn added(s: Seq<CacheChange>, c: CacheChange) -> Seq<CacheChange> {
    if has_seq(s, c.sn()) {
        s
    } else {
        s.push(c)
    }
}

/// `s` after removing the change with sequence number `n`, if one is held.
pub open spec fn removed(s: Seq<CacheChange>, n: int) -> Seq<CacheChange> {
    if has_seq(s, n) {
        s.remove(seq_index(s, n))
    } else {
        s
    }
}

/// How many changes of `s` belong to instance `h`.
pub open spec fn instance_count(s: Seq<CacheChange>, h: InstanceHandle) -> nat
    decreases s.len(),
{
    if s.len() == 0 {
        0
    } else {
        instance_count(s.drop_last(), h) + if s.last().instance() == h {
            1nat
        } else {
            0nat
        }
    }
}

/// How many distinct instances the changes of `s` belong to.
pub open spec fn distinct_instances(s: Seq<CacheChange>) -> nat
    decreases s.len(),
{
    if s.len() == 0 {
        0
    } else {
        distinct_instances(s.drop_last()) + if instance_count(s.drop_last(), s.last().instance())
            == 0 {
            1nat
        } else {
            0nat
        }
    }
}

/// The change at `j` is the oldest (least sequence number) of instance `h`.
pub open spec fn is_oldest_of(s: Seq<CacheChange>, j: int, h: InstanceHandle) -> bool {
    &&& 0 <= j < s.len()
    &&& s[j].instance() == h
    &&& forall|i: int|
        0 <= i < s.len() && #[trigger] s[i].instance() == h ==> s[j].sn() <= s[i].sn()
}

/// `s` with the oldest change of instance `h` dropped if the instance holds
/// more than `depth` changes.
pub open spec fn kept_last(s: Seq<CacheChange>, h: InstanceHandle, depth: nat) -> Seq<CacheChange> {
    if instance_count(s, h) <= depth {
        s
    } else {
        s.remove(choose|j: int| is_oldest_of(s, j, h))
    }
}

/// The change with sequence number `n` is at `i`, and no other is.
pub proof fn lemma_seq_index(s: Seq<CacheChange>, i: int, n: int)
    requires
        unique_seqs(s),
        0 <= i < s.len(),
        s[i].sn() == n,
    ensures
        has_seq(s, n),
        seq_index(s, n) == i,
{
    assert(has_seq(s, n));
}

/// Removing one change keeps sequence numbers apart.
pub proof fn lemma_remove_unique(s: Seq<CacheChange>, i: int)
    requires
        unique_seqs(s),
        0 <= i < s.len(),
    ensures
        unique_seqs(s.remove(i)),
        forall|n: int| has_seq(s.remove(i), n) <==> (has_seq(s, n) && n != s[i].sn()),
{
    let r = s.remove(i);
    assert forall|n: int| has_seq(r, n) implies (has_seq(s, n) && n != s[i].sn()) by {
        let k = choose|k: int| 0 <= k < r.len() && #[trigger] r[k].sn() == n;
        if k < i {
            assert(s[k].sn() == n);
        } else {
            assert(s[k + 1].sn() == n);
        }
    }
    assert forall|n: int| has_seq(s, n) && n != s[i].sn() implies has_seq(r, n) by {
        let k = choose|k: int| 0 <= k < s.len() && #[trigger] s[k].sn() == n;
        if k < i {
            assert(r[k].sn() == n);
        } else {
            assert(r[k - 1].sn() == n);
        }
    }
}

/// `s` after adding each change of `cs` in turn.
pub open spec fn added_all(s: Seq<CacheChange>, cs: Seq<CacheChange>) -> Seq<CacheChange>
    decreases cs.len(),
{
    if cs.len() == 0 {
        s
    } else {
        added(added_all(s, cs.drop_last()), cs.last())
    }
}

/// `s` after removing each sequence number of `ns` in turn.
pub open spec fn removed_all(s: Seq<CacheChange>, ns: Seq<int>) -> Seq<CacheChange>
    decreases ns.len(),
{
    if ns.len() == 0 {
        s
    } else {
        removed_all(removed(s, ns[0]), ns.drop_first())
    }
}

/// The sequence numbers of `cs` rise strictly from each change to the next.
pub open spec fn strictly_increasing(cs: Seq<CacheChange>) -> bool {
    forall|i: int, j: int| 0 <= i < j < cs.len() ==> #[trigger] cs[i].sn() < #[trigger] cs[j].sn()
}

/// The sequence numbers of `cs`, in order.
pub open spec fn seqs_of(cs: Seq<CacheChange>) -> Seq<int> {
    cs.map_values(|c: CacheChange| c.sn())
}

/// Adding changes with strictly increasing sequence numbers to an empty cache
/// keeps every one of them, in order.
pub proof fn lemma_increasing_adds_keep_all(cs: Seq<CacheChange>)
    requires
        strictly_increasing(cs),
    ensures
        added_all(Seq::empty(), cs) == cs,
    decreases cs.len(),
{
    if cs.len() > 0 {
        let prefix = cs.drop_last();
        assert(strictly_increasing(prefix));
        lemma_increasing_adds_keep_all(prefix);
        if has_seq(prefix, cs.last().sn()) {
            let k = choose|k: int| 0 <= k < prefix.len() && #[trigger] prefix[k].sn() == cs.last().sn();
            assert(cs[k].sn() < cs[cs.len() - 1].sn());
        }
        assert(prefix.push(cs.last()) =~= cs);
    }
}

/// Removing the sequence numbers of a cache's changes in the order they are
/// held empties it.
pub proof fn lemma_remove_in_order_empties(s: Seq<CacheChange>)
    requires
        unique_seqs(s),
    ensures
        removed_all(s, seqs_of(s)).len() == 0,
    decreases s.len(),
{
    if s.len() > 0 {
        lemma_seq_index(s, 0, s[0].sn());
        lemma_remove_unique(s, 0);
        let rest = s.remove(0);
        assert(seqs_of(s).drop_first() =~= seqs_of(rest));
        lemma_remove_in_order_empties(rest);
    }
}

/// Removing every sequence number that a cache holds, in any order and with
/// any others mixed in, empties it.
pub proof fn lemma_remove_all_empties(s: Seq<CacheChange>, ns: Seq<int>)
    requires
        unique_seqs(s),
        forall|n: int| has_seq(s, n) ==> ns.contains(n),
    ensures
        removed_all(s, ns).len() == 0,
    decreases ns.len(),
{
    if ns.len() == 0 {
        if s.len() > 0 {
            assert(has_seq(s, s[0].sn()));
        }
    } else {
        let first = ns[0];
        let rest = ns.drop_first();
        let left = removed(s, first);
        if has_seq(s, first) {
            lemma_seq_index(s, seq_index(s, first), first);
            lemma_remove_unique(s, seq_index(s, first));
        }
        assert forall|n: int| has_seq(left, n) implies rest.contains(n) by {
            assert(has_seq(s, n) && n != first);
            let k = choose|k: int| 0 <= k < ns.len() && ns[k] == n;
            assert(rest[k - 1] == n);
        }
        lemma_remove_all_empties(left, rest);
    }
}

/// Removing every added change's sequence number, in any order, from the
/// cache that adds with strictly increasing sequence numbers build leaves
/// it empty, so that its least and greatest queries report none.
pub proof fn lemma_increasing_adds_then_removals_empty(cs: Seq<CacheChange>, ns: Seq<int>)
    requires
        strictly_increasing(cs),
        forall|i: int| 0 <= i < cs.len() ==> ns.contains(#[trigger] cs[i].sn()),
    ensures
        removed_all(added_all(Seq::empty(), cs), ns).len() == 0,
{
    lemma_increasing_adds_keep_all(cs);
    assert(unique_seqs(cs)) by {
        assert forall|i: int, j: int|
            0 <= i < cs.len() && 0 <= j < cs.len() && i != j implies #[trigger] cs[i].sn()
            != #[trigger] cs[j].sn() by {
            if i < j {
                assert(cs[i].sn() < cs[j].sn());
            } else {
                assert(cs[j].sn() < cs[i].sn());
            }
        }
    }
    assert forall|n: int| has_seq(cs, n) implies ns.contains(n) by {
        let k = choose|k: int| 0 <= k < cs.len() && #[trigger] cs[k].sn() == n;
        assert(ns.contains(cs[k].sn()));
    }
    lemma_remove_all_empties(cs, ns);
}

/// A cache that keeps all history adds a change it accepts just as the plain
/// store does, so the laws above speak of its adds too.
pub proof fn lemma_keep_all_adds_plainly(cache: HistoryCache, s: Seq<CacheChange>, c: CacheChange)
    requires
        cache.kind_spec() == HistoryKind::KeepAll,
    ensures
        cache.after_add(s, c) == added(s, c),
{
}

/// With strictly increasing sequence numbers, the cache that the adds build
/// reports the first change's sequence number as its least and the last
/// change's as its greatest; removing all of them again leaves a cache for
/// which both queries report none.
pub proof fn lemma_increasing_adds_extremes(cs: Seq<CacheChange>)
    requires
        cs.len() > 0,
        strictly_increasing(cs),
    ensures
        is_min_seq(added_all(Seq::empty(), cs), cs[0].sn()),
        is_max_seq(added_all(Seq::empty(), cs), cs.last().sn()),
        removed_all(added_all(Seq::empty(), cs), seqs_of(cs)).len() == 0,
{
    lemma_increasing_adds_keep_all(cs);
    assert(cs[0].sn() == cs[0].sn());
    assert(cs[cs.len() - 1].sn() == cs.last().sn());
    assert forall|i: int| 0 <= i < cs.len() implies cs[0].sn() <= #[trigger] cs[i].sn() by {
        if i > 0 {
            assert(cs[0].sn() < cs[i].sn());
        }
    }
    assert forall|i: int| 0 <= i < cs.len() implies #[trigger] cs[i].sn() <= cs.last().sn() by {
        if i < cs.len() - 1 {
            assert(cs[i].sn() < cs[cs.len() - 1].sn());
        }
    }
    assert(unique_seqs(cs)) by {
        assert forall|i: int, j: int|
            0 <= i < cs.len() && 0 <= j < cs.len() && i != j implies #[trigger] cs[i].sn()
            != #[trigger] cs[j].sn() by {
            if i < j {
                assert(cs[i].sn() < cs[j].sn());
            } else {
                assert(cs[j].sn() < cs[i].sn());
            }
        }
    }
    lemma_remove_in_order_empties(cs);
}

/// `m` is the least sequence number of `s` above `n`.
pub open spec fn is_least_above(s: Seq<CacheChange>, n: int, m: int) -> bool {
    &&& has_seq(s, m)
    &&& n < m
    &&& forall|i: int| 0 <= i < s.len() && n < #[trigger] s[i].sn() ==> m <= s[i].sn()
}

/// No sequence number of `s` lies above `n`.
pub open spec fn none_above(s: Seq<CacheChange>, n: int) -> bool {
    forall|i: int| 0 <= i < s.len() ==> #[trigger] s[i].sn() <= n
}

/// Every sequence number that `kept_last` leaves was in `s`.
pub proof fn lemma_kept_last_subset(s: Seq<CacheChange>, h: InstanceHandle, depth: nat)
    requires
        unique_seqs(s),
    ensures
        unique_seqs(kept_last(s, h, depth)),
        forall|n: int| has_seq(kept_last(s, h, depth), n) ==> has_seq(s, n),
{
    if instance_count(s, h) > depth {
        let j = choose|j: int| is_oldest_of(s, j, h);
        if is_oldest_of(s, j, h) {
            lemma_remove_unique(s, j);
        } else {
            // no oldest change: the instance holds none, against the count
            lemma_instance_count_witness(s, h);
        }
    }
}

/// An instance that holds a change has an oldest one.
pub proof fn lemma_instance_count_witness(s: Seq<CacheChange>, h: InstanceHandle)
    requires
        instance_count(s, h) > 0,
    ensures
        exists|j: int| is_oldest_of(s, j, h),
    decreases s.len(),
{
    let p = s.drop_last();
    if instance_count(p, h) > 0 {
        lemma_instance_count_witness(p, h);
        let j = choose|j: int| is_oldest_of(p, j, h);
        if s.last().instance() == h && s.last().sn() < p[j].sn() {
            assert forall|i: int| 0 <= i < s.len() && #[trigger] s[i].instance() == h implies s[s.len() - 1].sn() <= s[i].sn() by {
                if i < p.len() {
                    assert(p[i].instance() == h);
                }
            }
            assert(is_oldest_of(s, s.len() - 1, h));
        } else {
            assert forall|i: int| 0 <= i < s.len() && #[trigger] s[i].instance() == h implies s[j].sn() <= s[i].sn() by {
                if i < p.len() {
                    assert(p[i].instance() == h);
                }
            }
            assert(is_oldest_of(s, j, h));
        }
    } else {
        assert(s.last().instance() == h);
        assert forall|i: int| 0 <= i < s.len() && #[trigger] s[i].instance() == h implies s[s.len() - 1].sn() <= s[i].sn() by {
            if i < p.len() {
                lemma_instance_count_zero(p, h, i);
            }
        }
        assert(is_oldest_of(s, s.len() - 1, h));
    }
}

/// An instance with no changes has none at any position.
pub proof fn lemma_instance_count_zero(s: Seq<CacheChange>, h: InstanceHandle, i: int)
    requires
        instance_count(s, h) == 0,
        0 <= i < s.len(),
    ensures
        s[i].instance() != h,
    decreases s.len(),
{
    if i < s.len() - 1 {
        lemma_instance_count_zero(s.drop_last(), h, i);
    }
}

/// Adding a change counts it for its own instance only.
pub proof fn lemma_instance_count_push(s: Seq<CacheChange>, c: CacheChange, h: InstanceHandle)
    ensures
        instance_count(s.push(c), h) == instance_count(s, h) + if c.instance() == h {
            1nat
        } else {
            0nat
        },
{
    assert(s.push(c).drop_last() =~= s);
}

/// Removing a change uncounts it for its own instance only.
pub proof fn lemma_instance_count_remove(s: Seq<CacheChange>, j: int, h: InstanceHandle)
    requires
        0 <= j < s.len(),
    ensures
        instance_count(s.remove(j), h) + if s[j].instance() == h {
            1nat
        } else {
            0nat
        } == instance_count(s, h),
    decreases s.len(),
{
    if j == s.len() - 1 {
        assert(s.remove(j) =~= s.drop_last());
    } else {
        let p = s.drop_last();
        lemma_instance_count_remove(p, j, h);
        assert(s.remove(j).drop_last() =~= p.remove(j));
        assert(s.remove(j).last() == s.last());
    }
}

/// Under `KeepLast` no instance ever holds more than `depth` changes: where
/// none did before an add, none does after it.
pub proof fn lemma_keep_last_bounds_instances(
    s: Seq<CacheChange>,
    c: CacheChange,
    depth: nat,
    h: InstanceHandle,
)
    requires
        forall|k: InstanceHandle| #[trigger] instance_count(s, k) <= depth,
    ensures
        instance_count(kept_last(s.push(c), c.instance(), depth), h) <= depth,
{
    let p = s.push(c);
    lemma_instance_count_push(s, c, h);
    assert(instance_count(s, h) <= depth);
    if instance_count(p, c.instance()) > depth {
        lemma_instance_count_push(s, c, c.instance());
        assert(instance_count(s, c.instance()) <= depth);
        lemma_instance_count_witness(p, c.instance());
        let j = choose|j: int| is_oldest_of(p, j, c.instance());
        lemma_instance_count_remove(p, j, h);
    }
}

/// The sequence numbers of `s` above `lo`.
pub open spec fn seqs_above(s: Seq<CacheChange>, lo: int) -> Set<int> {
    Set::new(|k: int| has_seq(s, k) && lo < k)
}

/// An unbounded store of changes with distinct sequence numbers, kept in the
/// order in which they were added.
#[derive(Debug)]
pub struct VecCache {
    changes: Vec<CacheChange>,
}

impl View for VecCache {
    type V = Seq<CacheChange>;

    closed spec fn view(&self) -> Seq<CacheChange> {
        self.changes@
    }
}

impl Default for VecCache {
    fn default() -> (r: Self)
        ensures
            r@ == Seq::<CacheChange>::empty(),
    {
        Self { changes: Vec::new() }
    }
}

impl VecCache {
    pub open spec fn wf(&self) -> bool {
        unique_seqs(self@)
    }

    pub fn len(&self) -> (r: usize)
        ensures
            r == self@.len(),
    {
        self.changes.len()
    }

    /// The position of the change with sequence number `sequence_number`.
    pub fn position(&self, sequence_number: SequenceNumber) -> (r: Option<usize>)
        requires
            self.wf(),
        ensures
            r.is_none() == !has_seq(self@, sequence_number@),
            r matches Some(i) ==> i == seq_index(self@, sequence_number@) && i < self@.len(),
    {
        let target = sequence_number.to_i64();
        let mut i: usize = 0;
        while i < self.changes.len()
            invariant
                i <= self.changes@.len(),
                unique_seqs(self.changes@),
                target == sequence_number@,
                forall|k: int| 0 <= k < i ==> #[trigger] self.changes@[k].sn() != target,
            decreases self.changes@.len() - i,
        {
            if self.changes[i].sequence_number.to_i64() == target {
                proof {
                    lemma_seq_index(self@, i as int, target as int);
                }
                return Some(i);
            }
            i = i + 1;
        }
        None
    }

    /// Whether a change with sequence number `sequence_number` is held.
    pub fn contains(&self, sequence_number: SequenceNumber) -> (r: bool)
        requires
            self.wf(),
        ensures
            r == has_seq(self@, sequence_number@),
    {
        self.position(sequence_number).is_some()
    }

    /// The change with sequence number `sequence_number`, if one is held.
    pub fn lookup(&self, sequence_number: SequenceNumber) -> (r: Option<CacheChange>)
        requires
            self.wf(),
        ensures
            r.is_none() == !has_seq(self@, sequence_number@),
            r matches Some(c) ==> c == self@[seq_index(self@, sequence_number@)],
    {
        match self.position(sequence_number) {
            Some(i) => Some(self.changes[i]),
            None => None,
        }
    }

    /// Adds `change`; one whose sequence number is already held is ignored.
    pub fn add_change(&mut self, change: CacheChange)
        requires
            old(self).wf(),
        ensures
            final(self).wf(),
            final(self)@ == added(old(self)@, change),
    {
        if !self.contains(change.sequence_number) {
            self.changes.push(change);
        }
    }

    /// Removes the change at `i`.
    pub(crate) fn remove_at(&mut self, i: usize) -> (r: CacheChange)
        requires
            old(self).wf(),
            i < old(self)@.len(),
        ensures
            final(self).wf(),
            final(self)@ == old(self)@.remove(i as int),
            r == old(self)@[i as int],
    {
        proof {
            lemma_remove_unique(self@, i as int);
        }
        self.changes.remove(i)
    }

    /// Removes and returns the change with sequence number `sequence_number`,
    /// or returns `None` where none is held.
    pub fn remove_change(&mut self, sequence_number: SequenceNumber) -> (r: Option<CacheChange>)
        requires
            old(self).wf(),
        ensures
            final(self).wf(),
            final(self)@ == removed(old(self)@, sequence_number@),
            r.is_none() == !has_seq(old(self)@, sequence_number@),
            r matches Some(c) ==> c == old(self)@[seq_index(old(self)@, sequence_number@)],
    {
        match self.position(sequence_number) {
            Some(i) => Some(self.remove_at(i)),
            None => None,
        }
    }

    /// The change that was added first among those held.
    pub fn get_change(&self) -> (r: Option<&CacheChange>)
        ensures
            r.is_none() == (self@.len() == 0),
            r matches Some(c) ==> *c == self@[0],
    {
        if self.changes.len() == 0 {
            None
        } else {
            Some(&self.changes[0])
        }
    }

    /// The least sequence number held, or `None` when nothing is held.
    pub fn get_seq_num_min(&self) -> (r: Option<SequenceNumber>)
        ensures
            r.is_none() == (self@.len() == 0),
            r matches Some(n) ==> is_min_seq(self@, n@),
    {
        if self.changes.len() == 0 {
            return None;
        }
        let mut best = self.changes[0].sequence_number;
        let mut best_value = best.to_i64();
        assert(self.changes@[0].sn() == best@);
        let mut i: usize = 1;
        while i < self.changes.len()
            invariant
                1 <= i <= self.changes@.len(),
                best_value == best@,
                has_seq(self.changes@, best@),
                forall|k: int| 0 <= k < i ==> best@ <= #[trigger] self.changes@[k].sn(),
            decreases self.changes@.len() - i,
        {
            let v = self.changes[i].sequence_number.to_i64();
            if v < best_value {
                best = self.changes[i].sequence_number;
                best_value = v;
                assert(self.changes@[i as int].sn() == best@);
            }
            i = i + 1;
        }
        Some(best)
    }

    /// The greatest sequence number held, or `None` when nothing is held.
    pub fn get_seq_num_max(&self) -> (r: Option<SequenceNumber>)
        ensures
            r.is_none() == (self@.len() == 0),
            r matches Some(n) ==> is_max_seq(self@, n@),
    {
        if self.changes.len() == 0 {
            return None;
        }
        let mut best = self.changes[0].sequence_number;
        let mut best_value = best.to_i64();
        assert(self.changes@[0].sn() == best@);
        let mut i: usize = 1;
        while i < self.changes.len()
            invariant
                1 <= i <= self.changes@.len(),
                best_value == best@,
                has_seq(self.changes@, best@),
                forall|k: int| 0 <= k < i ==> #[trigger] self.changes@[k].sn() <= best@,
            decreases self.changes@.len() - i,
        {
            let v = self.changes[i].sequence_number.to_i64();
            if v > best_value {
                best = self.changes[i].sequence_number;
                best_value = v;
                assert(self.changes@[i as int].sn() == best@);
            }
            i = i + 1;
        }
        Some(best)
    }

    /// The least sequence number held above `n`, or `None` where none is.
    pub fn least_above(&self, n: SequenceNumber) -> (r: Option<SequenceNumber>)
        ensures
            r.is_none() == none_above(self@, n@),
            r matches Some(m) ==> is_least_above(self@, n@, m@),
    {
        let bound = n.to_i64();
        let mut best: Option<SequenceNumber> = None;
        let mut i: usize = 0;
        while i < self.changes.len()
            invariant
                i <= self.changes@.len(),
                bound == n@,
                best.is_none() ==> forall|k: int| 0 <= k < i ==> #[trigger] self.changes@[k].sn() <= bound,
                best matches Some(b) ==> has_seq(self.changes@, b@) && bound < b@ && forall|k: int|
                    0 <= k < i && bound < #[trigger] self.changes@[k].sn() ==> b@ <= self.changes@[k].sn(),
            decreases self.changes@.len() - i,
        {
            let c = self.changes[i].sequence_number;
            let v = c.to_i64();
            if v > bound {
                match best {
                    None => {
                        best = Some(c);
                    },
                    Some(b) => {
                        if v < b.to_i64() {
                            best = Some(c);
                        }
                    },
                }
                assert(self.changes@[i as int].sn() == c@);
            }
            i = i + 1;
        }
        best
    }

    /// Extends `r`, which holds in increasing order the sequence numbers
    /// above `lo` up to `cur`, with the greater ones, in increasing order.
    fn collect_above(&self, r: Vec<SequenceNumber>, cur: SequenceNumber, Ghost(lo): Ghost<int>) -> (res:
        Vec<SequenceNumber>)
        requires
            ascending(r@),
            lo <= cur@,
            forall|j: int| 0 <= j < r@.len() ==> #[trigger] r@[j]@ <= cur@,
            forall|k: int| set_of(r@).contains(k) <==> (has_seq(self@, k) && lo < k <= cur@),
        ensures
            ascending(res@),
            set_of(res@) == seqs_above(self@, lo),
    {
        let mut r = r;
        let mut cur = cur;
        let mut cur_v = cur.to_i64();
        let mut next = self.least_above(cur);
        while next.is_some()
            invariant
                cur_v == cur@,
                lo <= cur@,
                ascending(r@),
                forall|j: int| 0 <= j < r@.len() ==> #[trigger] r@[j]@ <= cur@,
                forall|k: int| set_of(r@).contains(k) <==> (has_seq(self@, k) && lo < k <= cur@),
                next.is_none() == none_above(self@, cur@),
                next matches Some(m) ==> is_least_above(self@, cur@, m@),
            decreases i64::MAX - cur_v,
        {
            let m = match next {
                Some(m) => m,
                None => {
                    return r;
                },
            };
            let ghost before = r@;
            r.push(m);
            proof {
                assert forall|k: int| set_of(r@).contains(k) <==> (has_seq(self@, k) && lo < k <= m@) by {
                    if set_of(r@).contains(k) {
                        let j = choose|j: int| 0 <= j < r@.len() && #[trigger] r@[j]@ == k;
                        if j < before.len() {
                            assert(before[j]@ == k);
                            assert(set_of(before).contains(k));
                        }
                    }
                    if has_seq(self@, k) && lo < k <= m@ {
                        if k <= cur@ {
                            assert(set_of(before).contains(k));
                            let j = choose|j: int| 0 <= j < before.len() && #[trigger] before[j]@ == k;
                            assert(r@[j]@ == k);
                        } else {
                            let i = choose|i: int| 0 <= i < self@.len() && #[trigger] self@[i].sn() == k;
                            assert(m@ <= self@[i].sn());
                            assert(r@[r@.len() - 1]@ == k);
                        }
                    }
                }
            }
            cur = m;
            cur_v = m.to_i64();
            next = self.least_above(cur);
        }
        proof {
            assert forall|k: int| set_of(r@).contains(k) <==> seqs_above(self@, lo).contains(k) by {
                if has_seq(self@, k) && lo < k {
                    let i = choose|i: int| 0 <= i < self@.len() && #[trigger] self@[i].sn() == k;
                }
            }
            assert(set_of(r@) =~= seqs_above(self@, lo));
        }
        r
    }

    /// The sequence numbers held above `n`, in increasing order.
    pub fn sequence_numbers_above(&self, n: SequenceNumber) -> (r: Vec<SequenceNumber>)
        ensures
            ascending(r@),
            set_of(r@) == seqs_above(self@, n@),
    {
        let r: Vec<SequenceNumber> = Vec::new();
        proof {
            assert forall|k: int| set_of(r@).contains(k) <==> (has_seq(self@, k) && n@ < k <= n@) by {
                if set_of(r@).contains(k) {
                    let j = choose|j: int| 0 <= j < r@.len() && #[trigger] r@[j]@ == k;
                }
            }
        }
        self.collect_above(r, n, Ghost(n@))
    }

    /// The sequence numbers held, in increasing order.
    pub fn sequence_numbers(&self) -> (r: Vec<SequenceNumber>)
        ensures
            ascending(r@),
            set_of(r@) == Set::new(|k: int| has_seq(self@, k)),
    {
        match self.get_seq_num_min() {
            None => {
                let r: Vec<SequenceNumber> = Vec::new();
                assert(set_of(r@) =~= Set::new(|k: int| has_seq(self@, k))) by {
                    assert forall|k: int| !#[trigger] has_seq(self@, k) by {
                        if has_seq(self@, k) {
                            let i = choose|i: int| 0 <= i < self@.len() && #[trigger] self@[i].sn() == k;
                        }
                    }
                    assert forall|k: int| !#[trigger] set_of(r@).contains(k) by {
                        if set_of(r@).contains(k) {
                            let j = choose|j: int| 0 <= j < r@.len() && #[trigger] r@[j]@ == k;
                        }
                    }
                }
                r
            },
            Some(m) => {
                let mut r: Vec<SequenceNumber> = Vec::new();
                r.push(m);
                proof {
                    assert forall|k: int| set_of(r@).contains(k) <==> (has_seq(self@, k) && m@ - 1 < k <= m@) by {
                        if set_of(r@).contains(k) {
                            let j = choose|j: int| 0 <= j < r@.len() && #[trigger] r@[j]@ == k;
                        }
                        if has_seq(self@, k) && m@ - 1 < k <= m@ {
                            assert(r@[0]@ == k);
                        }
                    }
                }
                let r = self.collect_above(r, m, Ghost(m@ - 1));
                proof {
                    assert forall|k: int| seqs_above(self@, m@ - 1).contains(k) <==> #[trigger] has_seq(self@, k) by {
                        if has_seq(self@, k) {
                            let i = choose|i: int| 0 <= i < self@.len() && #[trigger] self@[i].sn() == k;
                            assert(m@ <= self@[i].sn());
                        }
                    }
                    assert(seqs_above(self@, m@ - 1) =~= Set::new(|k: int| has_seq(self@, k)));
                }
                r
            },
        }
    }

    /// How many changes of instance `h` are held.
    pub fn instance_count(&self, h: InstanceHandle) -> (r: usize)
        ensures
            r == instance_count(self@, h),
    {
        assert(self.changes@.take(self.changes@.len() as int) =~= self.changes@);
        self.instance_count_upto(h, self.changes.len())
    }

    /// How many of the first `end` changes belong to instance `h`.
    fn instance_count_upto(&self, h: InstanceHandle, end: usize) -> (r: usize)
        requires
            end <= self@.len(),
        ensures
            r == instance_count(self@.take(end as int), h),
    {
        let mut count: usize = 0;
        let mut i: usize = 0;
        while i < end
            invariant
                i <= end <= self.changes@.len(),
                count == instance_count(self.changes@.take(i as int), h),
                count <= i,
            decreases self.changes@.len() - i,
        {
            assert(self.changes@.take(i + 1).drop_last() =~= self.changes@.take(i as int));
            if self.changes[i].instance_handle == h {
                count = count + 1;
            }
            i = i + 1;
        }
        count
    }

    /// How many distinct instances the held changes belong to.
    pub fn distinct_instances(&self) -> (r: usize)
        ensures
            r == distinct_instances(self@),
    {
        let mut total: usize = 0;
        let mut i: usize = 0;
        while i < self.changes.len()
            invariant
                i <= self.changes@.len(),
                total == distinct_instances(self.changes@.take(i as int)),
                total <= i,
            decreases self.changes@.len() - i,
        {
            assert(self.changes@.take(i + 1).drop_last() =~= self.changes@.take(i as int));
            if self.instance_count_upto(self.changes[i].instance_handle, i) == 0 {
                total = total + 1;
            }
            i = i + 1;
        }
        assert(self.changes@.take(i as int) =~= self.changes@);
        total
    }

    /// The position of the oldest change of instance `h`, which must be held.
    pub fn oldest_of(&self, h: InstanceHandle) -> (r: usize)
        requires
            exists|k: int| 0 <= k < self@.len() && #[trigger] self@[k].instance() == h,
        ensures
            is_oldest_of(self@, r as int, h),
    {
        let mut best: Option<usize> = None;
        let mut i: usize = 0;
        while i < self.changes.len()
            invariant
                i <= self.changes@.len(),
                best matches Some(b) ==> b < i && self.changes@[b as int].instance() == h,
                best.is_none() ==> forall|k: int| 0 <= k < i ==> #[trigger] self.changes@[k].instance() != h,
                best matches Some(b) ==> forall|k: int|
                    0 <= k < i && #[trigger] self.changes@[k].instance() == h
                        ==> self.changes@[b as int].sn() <= self.changes@[k].sn(),
            decreases self.changes@.len() - i,
        {
            if self.changes[i].instance_handle == h {
                match best {
                    None => {
                        best = Some(i);
                    },
                    Some(b) => {
                        if self.changes[i].sequence_number.to_i64()
                            < self.changes[b].sequence_number.to_i64() {
                            best = Some(i);
                        }
                    },
                }
            }
            i = i + 1;
        }
        match best {
            Some(b) => b,
            None => {
                proof {
                    let k = choose|k: int| 0 <= k < self@.len() && #[trigger] self@[k].instance() == h;
                    assert(self.changes@[k].instance() == h);
                }
                0
            },
        }
    }
}

/// The oldest change of an instance sits at one position only.
pub proof fn lemma_oldest_unique(s: Seq<CacheChange>, j: int, h: InstanceHandle)
    requires
        unique_seqs(s),
        is_oldest_of(s, j, h),
    ensures
        (choose|k: int| is_oldest_of(s, k, h)) == j,
{
    let k = choose|k: int| is_oldest_of(s, k, h);
    assert(is_oldest_of(s, k, h));
    assert(s[j].sn() <= s[k].sn());
    assert(s[k].sn() <= s[j].sn());
}

/// The bound that a resource limit sets: none (the largest size) for a
/// negative limit.
pub open spec fn limit_of(l: i32) -> nat {
    if l < 0 {
        usize::MAX as nat
    } else {
        l as nat
    }
}

fn limit(l: i32) -> (r: usize)
    ensures
        r == limit_of(l),
{
    if l < 0 {
        usize::MAX
    } else {
        l as usize
    }
}

/// The history cache of one endpoint: changes with distinct sequence numbers
/// under a history policy. Under `KeepLast` it keeps only the newest `depth`
/// changes of each instance and drops the oldest of an instance that holds
/// more; under `KeepAll` it drops nothing and refuses a new change once it
/// holds `max_samples` of them.
#[derive(Debug)]
pub struct HistoryCache {
    store: VecCache,
    kind: HistoryKind,
    depth: usize,
    max_samples: usize,
    max_instances: usize,
    max_samples_per_instance: usize,
}

impl View for HistoryCache {
    type V = Seq<CacheChange>;

    closed spec fn view(&self) -> Seq<CacheChange> {
        self.store@
    }
}

/// Every sequence number that an add leaves was held before or is the added
/// change's.
pub proof fn lemma_after_add_subset(cache: HistoryCache, s: Seq<CacheChange>, c: CacheChange)
    requires
        unique_seqs(s),
    ensures
        unique_seqs(cache.after_add(s, c)),
        forall|n: int| has_seq(cache.after_add(s, c), n) ==> has_seq(s, n) || n == c.sn(),
{
    if !has_seq(s, c.sn()) {
        let p = s.push(c);
        assert(unique_seqs(p));
        assert forall|n: int| has_seq(p, n) implies has_seq(s, n) || n == c.sn() by {
            let k = choose|k: int| 0 <= k < p.len() && #[trigger] p[k].sn() == n;
            if k < s.len() {
                assert(s[k].sn() == n);
            }
        }
        lemma_kept_last_subset(p, c.instance(), cache.depth_spec());
    }
}

impl HistoryCache {
    pub closed spec fn kind_spec(&self) -> HistoryKind {
        self.kind
    }

    pub closed spec fn depth_spec(&self) -> nat {
        self.depth as nat
    }

    pub closed spec fn max_samples_spec(&self) -> nat {
        self.max_samples as nat
    }

    pub closed spec fn max_instances_spec(&self) -> nat {
        self.max_instances as nat
    }

    pub closed spec fn max_samples_per_instance_spec(&self) -> nat {
        self.max_samples_per_instance as nat
    }

    /// Sequence numbers are distinct, and under `KeepLast` no instance holds
    /// more than `depth` changes.
    pub open spec fn wf(&self) -> bool {
        &&& unique_seqs(self@)
        &&& self.depth_spec() >= 1
        &&& self.kind_spec() == HistoryKind::KeepLast ==> forall|h: InstanceHandle|
            #[trigger] instance_count(self@, h) <= self.depth_spec()
    }

    /// The same policy as `other`.
    pub open spec fn same_policy(&self, other: &HistoryCache) -> bool {
        &&& self.kind_spec() == other.kind_spec()
        &&& self.depth_spec() == other.depth_spec()
        &&& self.max_samples_spec() == other.max_samples_spec()
        &&& self.max_instances_spec() == other.max_instances_spec()
        &&& self.max_samples_per_instance_spec() == other.max_samples_per_instance_spec()
    }

    /// What `add_change` makes of the changes `s` under this policy, where it
    /// accepts the change.
    pub open spec fn after_add(&self, s: Seq<CacheChange>, c: CacheChange) -> Seq<CacheChange> {
        if has_seq(s, c.sn()) {
            s
        } else if self.kind_spec() == HistoryKind::KeepAll {
            s.push(c)
        } else {
            kept_last(s.push(c), c.instance(), self.depth_spec())
        }
    }

    /// Adding a new change of instance `h` to `s` would break a resource
    /// limit of a cache that keeps all history: the number of changes, of
    /// changes of `h`, or of instances.
    pub open spec fn breaks_limits(&self, s: Seq<CacheChange>, h: InstanceHandle) -> bool {
        ||| s.len() >= self.max_samples_spec()
        ||| instance_count(s, h) >= self.max_samples_per_instance_spec()
        ||| instance_count(s, h) == 0 && distinct_instances(s) >= self.max_instances_spec()
    }

    /// `add_change` refuses `c` when it would hold `s`: a new change that
    /// would break a resource limit of a cache that keeps all history.
    pub open spec fn refuses(&self, s: Seq<CacheChange>, c: CacheChange) -> bool {
        &&& !has_seq(s, c.sn())
        &&& self.kind_spec() == HistoryKind::KeepAll
        &&& self.breaks_limits(s, c.instance())
    }

    /// An empty cache that keeps all history, without bound.
    pub fn new() -> (r: Self)
        ensures
            r.wf(),
            r@ == Seq::<CacheChange>::empty(),
            r.kind_spec() == HistoryKind::KeepAll,
            r.max_samples_spec() == usize::MAX,
            r.max_instances_spec() == usize::MAX,
            r.max_samples_per_instance_spec() == usize::MAX,
    {
        Self::with_limits(HistoryKind::KeepAll, 1, usize::MAX, usize::MAX, usize::MAX)
    }

    /// An empty cache with the given history kind, depth (for `KeepLast`) and
    /// bound on the number of changes (for `KeepAll`); instances are not
    /// bounded.
    pub fn with_policy(kind: HistoryKind, depth: usize, max_samples: usize) -> (r: Self)
        requires
            depth >= 1,
        ensures
            r.wf(),
            r@ == Seq::<CacheChange>::empty(),
            r.kind_spec() == kind,
            r.depth_spec() == depth,
            r.max_samples_spec() == max_samples,
            r.max_instances_spec() == usize::MAX,
            r.max_samples_per_instance_spec() == usize::MAX,
    {
        Self::with_limits(kind, depth, max_samples, usize::MAX, usize::MAX)
    }

    /// An empty cache with the given history kind, depth (for `KeepLast`) and
    /// resource limits (for `KeepAll`): the number of changes, of instances,
    /// and of changes of one instance.
    pub fn with_limits(
        kind: HistoryKind,
        depth: usize,
        max_samples: usize,
        max_instances: usize,
        max_samples_per_instance: usize,
    ) -> (r: Self)
        requires
            depth >= 1,
        ensures
            r.wf(),
            r@ == Seq::<CacheChange>::empty(),
            r.kind_spec() == kind,
            r.depth_spec() == depth,
            r.max_samples_spec() == max_samples,
            r.max_instances_spec() == max_instances,
            r.max_samples_per_instance_spec() == max_samples_per_instance,
    {
        let r = Self {
            store: VecCache::default(),
            kind,
            depth,
            max_samples,
            max_instances,
            max_samples_per_instance,
        };
        assert forall|h: InstanceHandle| #[trigger] instance_count(r@, h) <= r.depth_spec() by {
            assert(r@.len() == 0);
        }
        r
    }

    /// An empty cache under the history and resource-limit policies. A
    /// `KeepLast` history without a depth, or with depth 0, keeps one change
    /// per instance; a negative limit sets no bound.
    pub fn from_qos(history: &History, limits: &ResourceLimits) -> (r: Self)
        ensures
            r.wf(),
            r@ == Seq::<CacheChange>::empty(),
            r.kind_spec() == history.kind,
            r.depth_spec() == match history.depth {
                Some(d) => if d >= 1 {
                    d as nat
                } else {
                    1
                },
                None => 1,
            },
            r.max_samples_spec() == limit_of(limits.max_samples),
            r.max_instances_spec() == limit_of(limits.max_instances),
            r.max_samples_per_instance_spec() == limit_of(limits.max_samples_per_instance),
    {
        let depth = match history.depth {
            Some(d) => if d >= 1 {
                d
            } else {
                1
            },
            None => 1,
        };
        Self::with_limits(
            history.kind,
            depth,
            limit(limits.max_samples),
            limit(limits.max_instances),
            limit(limits.max_samples_per_instance),
        )
    }

    pub fn len(&self) -> (r: usize)
        ensures
            r == self@.len(),
    {
        self.store.len()
    }

    /// Adds `change` under the cache's policy. A change whose sequence number
    /// is already held is ignored, and that is no error. A cache that keeps all
    /// history and is full refuses a new change and stays as it was.
    pub fn add_change(&mut self, change: CacheChange) -> (r: Result<(), ErrorKind>)
        requires
            old(self).wf(),
        ensures
            final(self).wf(),
            final(self).same_policy(old(self)),
            old(self).refuses(old(self)@, change) ==> r == Err::<(), ErrorKind>(
                ErrorKind::ResourceExhausted,
            ) && final(self)@ == old(self)@,
            !old(self).refuses(old(self)@, change) ==> r is Ok && final(self)@ == old(self).after_add(
                old(self)@,
                change,
            ),
    {
        if self.store.contains(change.sequence_number) {
            return Ok(());
        }
        match self.kind {
            HistoryKind::KeepAll => {
                if self.breaks_limits_now(&change) {
                    Err(ErrorKind::ResourceExhausted)
                } else {
                    self.store.add_change(change);
                    Ok(())
                }
            },
            HistoryKind::KeepLast => {
                let ghost before = self.store@;
                self.store.add_change(change);
                let h = change.instance_handle;
                let ghost pushed = self.store@;
                assert(pushed[pushed.len() - 1].instance() == h);
                let count = self.store.instance_count(h);
                if count > self.depth {
                    let j = self.store.oldest_of(h);
                    proof {
                        lemma_oldest_unique(pushed, j as int, h);
                    }
                    self.store.remove_at(j);
                }
                proof {
                    assert forall|k: InstanceHandle| #[trigger] instance_count(self@, k)
                        <= self.depth_spec() by {
                        lemma_keep_last_bounds_instances(before, change, self.depth_spec(), k);
                    }
                }
                Ok(())
            },
        }
    }

    /// Whether `add_change` would refuse `change`.
    pub fn refuses_change(&self, change: &CacheChange) -> (r: bool)
        requires
            self.wf(),
        ensures
            r == self.refuses(self@, *change),
    {
        match self.kind {
            HistoryKind::KeepAll => {
                !self.store.contains(change.sequence_number) && self.breaks_limits_now(change)
            },
            HistoryKind::KeepLast => false,
        }
    }

    /// Whether adding `change` would break a resource limit.
    fn breaks_limits_now(&self, change: &CacheChange) -> (r: bool)
        ensures
            r == self.breaks_limits(self@, change.instance()),
    {
        if self.store.len() >= self.max_samples {
            return true;
        }
        let count = self.store.instance_count(change.instance_handle);
        if count >= self.max_samples_per_instance {
            return true;
        }
        count == 0 && self.store.distinct_instances() >= self.max_instances
    }

    /// Removes and returns the change with sequence number `sequence_number`,
    /// or returns `None` where none is held.
    pub fn remove_change(&mut self, sequence_number: SequenceNumber) -> (r: Option<CacheChange>)
        requires
            old(self).wf(),
        ensures
            final(self).wf(),
            final(self).same_policy(old(self)),
            final(self)@ == removed(old(self)@, sequence_number@),
            r.is_none() == !has_seq(old(self)@, sequence_number@),
            r matches Some(c) ==> c == old(self)@[seq_index(old(self)@, sequence_number@)],
    {
        let ghost before = self.store@;
        let r = self.store.remove_change(sequence_number);
        proof {
            if has_seq(before, sequence_number@) {
                assert forall|k: InstanceHandle| #[trigger] instance_count(self@, k)
                    <= instance_count(before, k) by {
                    lemma_instance_count_remove(before, seq_index(before, sequence_number@), k);
                }
            }
        }
        r
    }

    /// The change that was added first among those held.
    pub fn get_change(&self) -> (r: Option<&CacheChange>)
        ensures
            r.is_none() == (self@.len() == 0),
            r matches Some(c) ==> *c == self@[0],
    {
        self.store.get_change()
    }

    /// Whether a change with sequence number `sequence_number` is held.
    pub fn contains(&self, sequence_number: SequenceNumber) -> (r: bool)
        requires
            self.wf(),
        ensures
            r == has_seq(self@, sequence_number@),
    {
        self.store.contains(sequence_number)
    }

    /// The change with sequence number `sequence_number`, if one is held.
    pub fn lookup(&self, sequence_number: SequenceNumber) -> (r: Option<CacheChange>)
        requires
            self.wf(),
        ensures
            r.is_none() == !has_seq(self@, sequence_number@),
            r matches Some(c) ==> c == self@[seq_index(self@, sequence_number@)],
    {
        self.store.lookup(sequence_number)
    }

    /// The least sequence number held above `n`, or `None` where none is.
    pub fn least_above(&self, n: SequenceNumber) -> (r: Option<SequenceNumber>)
        ensures
            r.is_none() == none_above(self@, n@),
            r matches Some(m) ==> is_least_above(self@, n@, m@),
    {
        self.store.least_above(n)
    }

    /// The sequence numbers held, in increasing order.
    pub fn sequence_numbers(&self) -> (r: Vec<SequenceNumber>)
        ensures
            ascending(r@),
            set_of(r@) == Set::new(|k: int| has_seq(self@, k)),
    {
        self.store.sequence_numbers()
    }

    /// The sequence numbers held above `n`, in increasing order.
    pub fn sequence_numbers_above(&self, n: SequenceNumber) -> (r: Vec<SequenceNumber>)
        ensures
            ascending(r@),
            set_of(r@) == seqs_above(self@, n@),
    {
        self.store.sequence_numbers_above(n)
    }

    /// The least sequence number held, or `None` when the cache is empty.
    pub fn get_seq_num_min(&self) -> (r: Option<SequenceNumber>)
        ensures
            r.is_none() == (self@.len() == 0),
            r matches Some(n) ==> is_min_seq(self@, n@),
    {
        self.store.get_seq_num_min()
    }

    /// The greatest sequence number held, or `None` when the cache is empty.
    pub fn get_seq_num_max(&self) -> (r: Option<SequenceNumber>)
        ensures
            r.is_none() == (self@.len() == 0),
            r matches Some(n) ==> is_max_seq(self@, n@),
    {
        self.store.get_seq_num_max()
    }
}

} // verus!
