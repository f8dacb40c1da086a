//! Sets of sequence numbers, as the proxies keep them.

use vstd::prelude::*;
use crate::structure::SequenceNumber;

verus! {

/// The numbers that the sequence numbers of `v` stand for.
pub open spec fn set_of(v: Seq<SequenceNumber>) -> Set<int> {
    Set::new(|n: int| exists|i: int| 0 <= i < v.len() && #[trigger] v[i]@ == n)
}

/// The sequence numbers of `v` rise strictly from each to the next.
pub open spec fn ascending(v: Seq<SequenceNumber>) -> bool {
    forall|i: int, j: int| 0 <= i < j < v.len() ==> #[trigger] v[i]@ < #[trigger] v[j]@
}

/// Taking one more element of `v` adds its number to the set.
pub proof fn lemma_set_of_take_next(v: Seq<SequenceNumber>, i: int)
    requires
        0 <= i < v.len(),
    ensures
        set_of(v.take(i + 1)) == set_of(v.take(i)).insert(v[i]@),
{
    let t = v.take(i);
    let t1 = v.take(i + 1);
    assert forall|n: int| set_of(t1).contains(n) <==> set_of(t).insert(v[i]@).contains(n) by {
        if set_of(t1).contains(n) {
            let k = choose|k: int| 0 <= k < t1.len() && #[trigger] t1[k]@ == n;
            if k < i {
                assert(t[k]@ == n);
            }
        }
        if set_of(t).contains(n) {
            let k = choose|k: int| 0 <= k < t.len() && #[trigger] t[k]@ == n;
            assert(t1[k]@ == n);
        }
        if n == v[i]@ {
            assert(t1[i]@ == n);
        }
    }
    assert(set_of(t1) =~= set_of(t).insert(v[i]@));
}

/// `n` is the least element of `s`.
pub open spec fn is_least(s: Set<int>, n: int) -> bool {
    &&& s.contains(n)
    &&& forall|k: int| #[trigger] s.contains(k) ==> n <= k
}

/// `n` is the greatest element of `s`.
pub open spec fn is_greatest(s: Set<int>, n: int) -> bool {
    &&& s.contains(n)
    &&& forall|k: int| #[trigger] s.contains(k) ==> k <= n
}

/// A finite set of sequence numbers.
#[derive(Debug)]
pub struct SequenceNumberSet {
    items: Vec<SequenceNumber>,
}

impl View for SequenceNumberSet {
    type V = Set<int>;

    closed spec fn view(&self) -> Set<int> {
        set_of(self.items@)
    }
}

impl SequenceNumberSet {
    pub fn new() -> (r: Self)
        ensures
            r@ == Set::<int>::empty(),
    {
        let r = Self { items: Vec::new() };
        assert(r@ =~= Set::<int>::empty());
        r
    }

    /// The set of the sequence numbers of `v`.
    pub fn from_vec(v: &Vec<SequenceNumber>) -> (r: Self)
        ensures
            r@ == set_of(v@),
    {
        let mut r = Self::new();
        let mut i: usize = 0;
        while i < v.len()
            invariant
                i <= v@.len(),
                r@ == set_of(v@.take(i as int)),
            decreases v@.len() - i,
        {
            r.insert(v[i]);
            proof {
                lemma_set_of_take_next(v@, i as int);
            }
            i = i + 1;
        }
        assert(v@.take(v@.len() as int) =~= v@);
        r
    }

    pub fn is_empty(&self) -> (r: bool)
        ensures
            r == (self@ == Set::<int>::empty()),
    {
        if self.items.len() == 0 {
            assert(self@ =~= Set::<int>::empty());
            true
        } else {
            assert(self@.contains(self.items@[0]@));
            false
        }
    }

    pub fn contains(&self, s: SequenceNumber) -> (r: bool)
        ensures
            r == self@.contains(s@),
    {
        let target = s.to_i64();
        let mut i: usize = 0;
        while i < self.items.len()
            invariant
                i <= self.items@.len(),
                target == s@,
                forall|k: int| 0 <= k < i ==> #[trigger] self.items@[k]@ != target,
            decreases self.items@.len() - i,
        {
            if self.items[i].to_i64() == target {
                assert(self.items@[i as int]@ == s@);
                return true;
            }
            i = i + 1;
        }
        false
    }

    pub fn insert(&mut self, s: SequenceNumber)
        ensures
            final(self)@ == old(self)@.insert(s@),
    {
        if !self.contains(s) {
            self.items.push(s);
            proof {
                let o = old(self).items@;
                let f = self.items@;
                assert forall|n: int| set_of(f).contains(n) <==> set_of(o).insert(s@).contains(n) by {
                    if set_of(f).contains(n) {
                        let k = choose|k: int| 0 <= k < f.len() && #[trigger] f[k]@ == n;
                        if k < o.len() {
                            assert(o[k]@ == n);
                        }
                    }
                    if set_of(o).contains(n) {
                        let k = choose|k: int| 0 <= k < o.len() && #[trigger] o[k]@ == n;
                        assert(f[k]@ == n);
                    }
                    if n == s@ {
                        assert(f[o.len() as int]@ == n);
                    }
                }
                assert(set_of(f) =~= set_of(o).insert(s@));
            }
        } else {
            assert(old(self)@.insert(s@) =~= old(self)@);
        }
    }

    pub fn remove(&mut self, s: SequenceNumber)
        ensures
            final(self)@ == old(self)@.remove(s@),
    {
        let target = s.to_i64();
        let mut kept: Vec<SequenceNumber> = Vec::new();
        let mut i: usize = 0;
        while i < self.items.len()
            invariant
                i <= self.items@.len(),
                target == s@,
                self.items@ == old(self).items@,
                forall|n: int| set_of(kept@).contains(n) <==> (set_of(self.items@.take(i as int)).contains(n) && n != target),
            decreases self.items@.len() - i,
        {
            let x = self.items[i];
            let ghost before = kept@;
            if x.to_i64() != target {
                kept.push(x);
            }
            proof {
                let t = self.items@.take(i as int);
                let t1 = self.items@.take(i + 1);
                assert forall|n: int| set_of(kept@).contains(n) <==> (set_of(t1).contains(n) && n != target) by {
                    if set_of(t1).contains(n) && n != target {
                        let k = choose|k: int| 0 <= k < t1.len() && #[trigger] t1[k]@ == n;
                        if k < i {
                            assert(t[k]@ == n);
                            assert(set_of(before).contains(n));
                            let j = choose|j: int| 0 <= j < before.len() && #[trigger] before[j]@ == n;
                            assert(kept@[j]@ == n);
                        } else {
                            assert(kept@[kept@.len() - 1]@ == n);
                        }
                    }
                    if set_of(kept@).contains(n) {
                        let j = choose|j: int| 0 <= j < kept@.len() && #[trigger] kept@[j]@ == n;
                        if j < before.len() {
                            assert(before[j]@ == n);
                            assert(set_of(before).contains(n));
                            let k = choose|k: int| 0 <= k < t.len() && #[trigger] t[k]@ == n;
                            assert(t1[k]@ == n);
                        } else {
                            assert(t1[i as int]@ == n);
                        }
                    }
                }
            }
            i = i + 1;
        }
        assert(self.items@.take(i as int) =~= self.items@);
        self.items = kept;
        assert(self@ =~= old(self)@.remove(s@));
    }

    /// The least element, or `None` for the empty set.
    pub fn min(&self) -> (r: Option<SequenceNumber>)
        ensures
            r.is_none() == (self@ == Set::<int>::empty()),
            r matches Some(m) ==> is_least(self@, m@),
    {
        if self.items.len() == 0 {
            assert(self@ =~= Set::<int>::empty());
            return None;
        }
        let mut best = self.items[0];
        let mut best_value = best.to_i64();
        let mut i: usize = 1;
        while i < self.items.len()
            invariant
                1 <= i <= self.items@.len(),
                best_value == best@,
                set_of(self.items@).contains(best@),
                forall|k: int| 0 <= k < i ==> best@ <= #[trigger] self.items@[k]@,
            decreases self.items@.len() - i,
        {
            let v = self.items[i].to_i64();
            if v < best_value {
                best = self.items[i];
                best_value = v;
            }
            i = i + 1;
        }
        assert forall|k: int| #[trigger] self@.contains(k) implies best@ <= k by {
            let j = choose|j: int| 0 <= j < self.items@.len() && #[trigger] self.items@[j]@ == k;
        }
        assert(self@.contains(best@));
        Some(best)
    }

    /// The greatest element, or `None` for the empty set.
    pub fn max(&self) -> (r: Option<SequenceNumber>)
        ensures
            r.is_none() == (self@ == Set::<int>::empty()),
            r matches Some(m) ==> is_greatest(self@, m@),
    {
        if self.items.len() == 0 {
            assert(self@ =~= Set::<int>::empty());
            return None;
        }
        let mut best = self.items[0];
        let mut best_value = best.to_i64();
        let mut i: usize = 1;
        while i < self.items.len()
            invariant
                1 <= i <= self.items@.len(),
                best_value == best@,
                set_of(self.items@).contains(best@),
                forall|k: int| 0 <= k < i ==> #[trigger] self.items@[k]@ <= best@,
            decreases self.items@.len() - i,
        {
            let v = self.items[i].to_i64();
            if v > best_value {
                best = self.items[i];
                best_value = v;
            }
            i = i + 1;
        }
        assert forall|k: int| #[trigger] self@.contains(k) implies k <= best@ by {
            let j = choose|j: int| 0 <= j < self.items@.len() && #[trigger] self.items@[j]@ == k;
        }
        assert(self@.contains(best@));
        Some(best)
    }

    /// Adds every element of `other`.
    pub fn union_with(&mut self, other: &SequenceNumberSet)
        ensures
            final(self)@ == old(self)@.union(other@),
    {
        let mut i: usize = 0;
        while i < other.items.len()
            invariant
                i <= other.items@.len(),
                self@ == old(self)@.union(set_of(other.items@.take(i as int))),
            decreases other.items@.len() - i,
        {
            self.insert(other.items[i]);
            proof {
                lemma_set_of_take_next(other.items@, i as int);
                assert(self@ =~= old(self)@.union(set_of(other.items@.take(i + 1))));
            }
            i = i + 1;
        }
        assert(other.items@.take(i as int) =~= other.items@);
    }

    /// Removes every element of `other`.
    pub fn subtract(&mut self, other: &SequenceNumberSet)
        ensures
            final(self)@ == old(self)@.difference(other@),
    {
        let mut i: usize = 0;
        while i < other.items.len()
            invariant
                i <= other.items@.len(),
                self@ == old(self)@.difference(set_of(other.items@.take(i as int))),
            decreases other.items@.len() - i,
        {
            self.remove(other.items[i]);
            proof {
                lemma_set_of_take_next(other.items@, i as int);
                assert(self@ =~= old(self)@.difference(set_of(other.items@.take(i + 1))));
            }
            i = i + 1;
        }
        assert(other.items@.take(i as int) =~= other.items@);
    }

    /// The elements of `a` that are not in `b`.
    pub fn difference_of(a: &SequenceNumberSet, b: &SequenceNumberSet) -> (r: Self)
        ensures
            r@ == a@.difference(b@),
    {
        let mut r = Self::from_vec(&a.items);
        r.subtract(b);
        r
    }

    /// The least element above `n`, or `None` where there is none.
    pub fn least_above(&self, n: SequenceNumber) -> (r: Option<SequenceNumber>)
        ensures
            r.is_none() == (forall|k: int| #[trigger] self@.contains(k) ==> k <= n@),
            r matches Some(m) ==> self@.contains(m@) && n@ < m@ && forall|k: int|
                #[trigger] self@.contains(k) && n@ < k ==> m@ <= k,
    {
        let bound = n.to_i64();
        let mut best: Option<SequenceNumber> = None;
        let mut i: usize = 0;
        while i < self.items.len()
            invariant
                i <= self.items@.len(),
                bound == n@,
                best.is_none() ==> forall|k: int| 0 <= k < i ==> #[trigger] self.items@[k]@ <= bound,
                best matches Some(b) ==> set_of(self.items@).contains(b@) && bound < b@ && forall|k: int|
                    0 <= k < i && bound < #[trigger] self.items@[k]@ ==> b@ <= self.items@[k]@,
            decreases self.items@.len() - i,
        {
            let c = self.items[i];
            let v = c.to_i64();
            if v > bound {
                match best {
                    None => {
                        best = Some(c);
                    },
                    Some(b) => {
                        if v < b.to_i64() {
                            best = Some(c);
                        }
                    },
                }
            }
            i = i + 1;
        }
        proof {
            assert forall|k: int| #[trigger] self@.contains(k) && (best.is_none() || bound < k) implies (
            best matches Some(b) ==> b@ <= k) && (best.is_none() ==> k <= bound) by {
                let j = choose|j: int| 0 <= j < self.items@.len() && #[trigger] self.items@[j]@ == k;
            }
            if best.is_none() {
                assert forall|k: int| #[trigger] self@.contains(k) implies k <= n@ by {
                    let j = choose|j: int| 0 <= j < self.items@.len() && #[trigger] self.items@[j]@ == k;
                }
            } else {
                let b = best->0;
                assert(self@.contains(b@));
                assert(!(b@ <= n@));
            }
        }
        best
    }

    /// The elements, in increasing order.
    pub fn to_vec(&self) -> (r: Vec<SequenceNumber>)
        ensures
            set_of(r@) == self@,
            ascending(r@),
    {
        let mut r: Vec<SequenceNumber> = Vec::new();
        let first = self.min();
        let m = match first {
            None => {
                assert(set_of(r@) =~= self@);
                return r;
            },
            Some(m) => m,
        };
        r.push(m);
        let mut cur = m;
        let mut cur_v = m.to_i64();
        proof {
            assert forall|k: int| set_of(r@).contains(k) <==> (self@.contains(k) && k <= cur@) by {
                if set_of(r@).contains(k) {
                    let j = choose|j: int| 0 <= j < r@.len() && #[trigger] r@[j]@ == k;
                }
                if self@.contains(k) && k <= cur@ {
                    assert(r@[0]@ == k);
                }
            }
        }
        let mut next = self.least_above(cur);
        while next.is_some()
            invariant
                cur_v == cur@,
                ascending(r@),
                forall|j: int| 0 <= j < r@.len() ==> #[trigger] r@[j]@ <= cur@,
                forall|k: int| set_of(r@).contains(k) <==> (self@.contains(k) && k <= cur@),
                next.is_none() == (forall|k: int| #[trigger] self@.contains(k) ==> k <= cur@),
                next matches Some(m) ==> self@.contains(m@) && cur@ < m@ && forall|k: int|
                    #[trigger] self@.contains(k) && cur@ < k ==> m@ <= k,
            decreases i64::MAX - cur_v,
        {
            let m = match next {
                Some(m) => m,
                None => {
                    return r;
                },
            };
            let ghost before = r@;
            r.push(m);
            proof {
                assert forall|k: int| set_of(r@).contains(k) <==> (self@.contains(k) && k <= m@) by {
                    if set_of(r@).contains(k) {
                        let j = choose|j: int| 0 <= j < r@.len() && #[trigger] r@[j]@ == k;
                        if j < before.len() {
                            assert(before[j]@ == k);
                            assert(set_of(before).contains(k));
                        }
                    }
                    if self@.contains(k) && k <= m@ {
                        if k <= cur@ {
                            assert(set_of(before).contains(k));
                            let j = choose|j: int| 0 <= j < before.len() && #[trigger] before[j]@ == k;
                            assert(r@[j]@ == k);
                        } else {
                            assert(r@[r@.len() - 1]@ == k);
                        }
                    }
                }
            }
            cur = m;
            cur_v = m.to_i64();
            next = self.least_above(cur);
        }
        assert(set_of(r@) =~= self@);
        r
    }
}

} // verus!
