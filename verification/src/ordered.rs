//! A map from numbers to values that is kept in ascending order of its
//! keys, so that walking it always visits the same keys in the same order.

use vstd::prelude::*;

verus! {

/// Whether the keys of `s` strictly ascend: then no key occurs twice.
pub open spec fn ascending<T>(s: Seq<(int, T)>) -> bool {
    forall|i: int, j: int| 0 <= i < j < s.len() ==> (#[trigger] s[i]).0 < (#[trigger] s[j]).0
}

/// The value that `s` holds for the key `k`, if it holds one.
pub open spec fn lookup<T>(s: Seq<(int, T)>, k: int) -> Option<T>
    decreases s.len(),
{
    if s.len() == 0 {
        None
    } else if s.last().0 == k {
        Some(s.last().1)
    } else {
        lookup(s.drop_last(), k)
    }
}

/// `s` with the value `v` for the key `k`, in place of what it held for `k`
/// before.
pub open spec fn put<T>(s: Seq<(int, T)>, k: int, v: T) -> Seq<(int, T)>
    decreases s.len(),
{
    if s.len() == 0 {
        seq![(k, v)]
    } else if s.last().0 < k {
        s.push((k, v))
    } else if s.last().0 == k {
        s.drop_last().push((k, v))
    } else {
        put(s.drop_last(), k, v).push(s.last())
    }
}

/// How many of the entries of `s` that come first have a key below `k`.
pub open spec fn rank<T>(s: Seq<(int, T)>, k: int) -> int
    decreases s.len(),
{
    if s.len() == 0 {
        0
    } else if s.last().0 < k {
        s.len() as int
    } else {
        rank(s.drop_last(), k)
    }
}

/// In an ascending sequence the entries before `rank` have keys below `k`,
/// and the others do not.
pub proof fn lemma_rank<T>(s: Seq<(int, T)>, k: int)
    requires
        ascending(s),
    ensures
        0 <= rank(s, k) <= s.len(),
        forall|i: int| 0 <= i < rank(s, k) ==> (#[trigger] s[i]).0 < k,
        forall|i: int| rank(s, k) <= i < s.len() ==> (#[trigger] s[i]).0 >= k,
    decreases s.len(),
{
    if s.len() > 0 {
        if s.last().0 < k {
            assert forall|i: int| 0 <= i < s.len() implies (#[trigger] s[i]).0 < k by {
                if i < s.len() - 1 {
                    assert(s[i].0 < s[s.len() - 1].0);
                }
            }
        } else {
            let t = s.drop_last();
            assert(ascending(t)) by {
                assert forall|i: int, j: int| 0 <= i < j < t.len() implies (#[trigger] t[i]).0 < (
                #[trigger] t[j]).0 by {
                    assert(s[i].0 < s[j].0);
                }
            }
            lemma_rank(t, k);
            assert forall|i: int| 0 <= i < rank(s, k) implies (#[trigger] s[i]).0 < k by {
                assert(t[i].0 < k);
            }
            assert forall|i: int| rank(s, k) <= i < s.len() implies (#[trigger] s[i]).0 >= k by {
                if i < s.len() - 1 {
                    assert(t[i].0 >= k);
                }
            }
        }
    }
}

/// The index that splits the keys below `k` from the others is the rank.
pub proof fn lemma_rank_is<T>(s: Seq<(int, T)>, k: int, p: int)
    requires
        0 <= p <= s.len(),
        forall|i: int| 0 <= i < p ==> (#[trigger] s[i]).0 < k,
        forall|i: int| p <= i < s.len() ==> (#[trigger] s[i]).0 >= k,
    ensures
        rank(s, k) == p,
    decreases s.len(),
{
    if s.len() > 0 {
        if s.last().0 < k {
            if p < s.len() {
                assert(s[s.len() - 1].0 >= k);
            }
        } else {
            let t = s.drop_last();
            if p == s.len() {
                assert(s[p - 1].0 < k);
            }
            assert forall|i: int| 0 <= i < p implies (#[trigger] t[i]).0 < k by {
                assert(s[i].0 < k);
            }
            assert forall|i: int| p <= i < t.len() implies (#[trigger] t[i]).0 >= k by {
                assert(s[i].0 >= k);
            }
            lemma_rank_is(t, k, p);
        }
    }
}

/// What `put` gives for an ascending sequence, by the rank of the key: the
/// entry stands at the rank, in place of the entry with that key if there is
/// one.
pub open spec fn put_at_rank<T>(s: Seq<(int, T)>, k: int, v: T) -> Seq<(int, T)> {
    let p = rank(s, k);
    if p < s.len() && s[p].0 == k {
        s.update(p, (k, v))
    } else {
        s.insert(p, (k, v))
    }
}

/// Leaving the last entry out of an ascending sequence keeps it ascending.
pub proof fn lemma_drop_last_ascending<T>(s: Seq<(int, T)>)
    requires
        ascending(s),
        s.len() > 0,
    ensures
        ascending(s.drop_last()),
{
    let t = s.drop_last();
    assert forall|i: int, j: int| 0 <= i < j < t.len() implies (#[trigger] t[i]).0 < (
    #[trigger] t[j]).0 by {
        assert(s[i].0 < s[j].0);
    }
}

/// Where `put` places the entry: at the rank of its key.
pub proof fn lemma_put_at_rank<T>(s: Seq<(int, T)>, k: int, v: T)
    requires
        ascending(s),
    ensures
        put(s, k, v) == put_at_rank(s, k, v),
        ascending(put(s, k, v)),
    decreases s.len(),
{
    lemma_rank(s, k);
    let p = rank(s, k);
    let r = put_at_rank(s, k, v);
    if s.len() == 0 {
        assert(put(s, k, v) =~= r);
    } else if s.last().0 < k {
        assert(put(s, k, v) =~= r);
    } else if s.last().0 == k {
        assert(p == s.len() - 1) by {
            if p < s.len() - 1 {
                assert(s[p].0 < s[s.len() - 1].0);
            }
        }
        assert(put(s, k, v) =~= r);
    } else {
        let t = s.drop_last();
        lemma_drop_last_ascending(s);
        lemma_put_at_rank(t, k, v);
        lemma_rank(t, k);
        assert(rank(t, k) == p);
        if p < t.len() {
            assert(t[p] == s[p]);
        }
        assert(put(s, k, v) =~= r);
    }
    lemma_put_at_rank_ascending(s, k, v);
}

/// Placing an entry at the rank of its key keeps the keys ascending.
pub proof fn lemma_put_at_rank_ascending<T>(s: Seq<(int, T)>, k: int, v: T)
    requires
        ascending(s),
    ensures
        ascending(put_at_rank(s, k, v)),
{
    lemma_rank(s, k);
    let p = rank(s, k);
    let r = put_at_rank(s, k, v);
    if p < s.len() && s[p].0 == k {
        assert forall|i: int, j: int| 0 <= i < j < r.len() implies (#[trigger] r[i]).0 < (
        #[trigger] r[j]).0 by {
            assert(s[i].0 < s[j].0);
        }
    } else {
        assert forall|i: int, j: int| 0 <= i < j < r.len() implies (#[trigger] r[i]).0 < (
        #[trigger] r[j]).0 by {
            let x = if i < p {
                i
            } else {
                i - 1
            };
            let y = if j < p {
                j
            } else {
                j - 1
            };
            if i == p {
                assert(r[j] == s[y]);
                assert(s[y].0 >= k);
            } else if j == p {
                assert(r[i] == s[x]);
                assert(s[x].0 < k);
            } else {
                assert(r[i] == s[x]);
                assert(r[j] == s[y]);
                assert(s[x].0 < s[y].0);
            }
        }
    }
}

/// After `put`, the key holds the new value and every other key holds what
/// it held before.
pub proof fn lemma_lookup_put<T>(s: Seq<(int, T)>, k: int, v: T, other: int)
    ensures
        lookup(put(s, k, v), other) == if other == k {
            Some(v)
        } else {
            lookup(s, other)
        },
    decreases s.len(),
{
    let r = put(s, k, v);
    if s.len() == 0 {
        assert(r.drop_last() =~= s);
    } else if s.last().0 < k {
        assert(r.drop_last() =~= s);
    } else if s.last().0 == k {
        assert(r.drop_last() =~= s.drop_last());
    } else {
        lemma_lookup_put(s.drop_last(), k, v, other);
        assert(r.drop_last() =~= put(s.drop_last(), k, v));
        assert(r.last() == s.last());
    }
}

/// In an ascending sequence, `lookup` finds the entry with the key.
pub proof fn lemma_lookup_at<T>(s: Seq<(int, T)>, i: int)
    requires
        ascending(s),
        0 <= i < s.len(),
    ensures
        lookup(s, s[i].0) == Some(s[i].1),
    decreases s.len(),
{
    if i < s.len() - 1 {
        let t = s.drop_last();
        assert(s[i].0 < s[s.len() - 1].0);
        assert(ascending(t)) by {
            assert forall|a: int, b: int| 0 <= a < b < t.len() implies (#[trigger] t[a]).0 < (
            #[trigger] t[b]).0 by {
                assert(s[a].0 < s[b].0);
            }
        }
        lemma_lookup_at(t, i);
    }
}

/// `lookup` finds a value exactly for the keys that occur.
pub proof fn lemma_lookup_some<T>(s: Seq<(int, T)>, k: int)
    ensures
        lookup(s, k) is Some <==> exists|i: int| 0 <= i < s.len() && (#[trigger] s[i]).0 == k,
    decreases s.len(),
{
    if s.len() > 0 {
        if s.last().0 == k {
            assert(s[s.len() - 1].0 == k);
        } else {
            let t = s.drop_last();
            lemma_lookup_some(t, k);
            if lookup(t, k) is Some {
                let i = choose|i: int| 0 <= i < t.len() && (#[trigger] t[i]).0 == k;
                assert(s[i].0 == k);
            }
            if exists|i: int| 0 <= i < s.len() && (#[trigger] s[i]).0 == k {
                let i = choose|i: int| 0 <= i < s.len() && (#[trigger] s[i]).0 == k;
                assert(t[i].0 == k);
            }
        }
    }
}

/// Taking the entry of a key out before `put` changes nothing.
pub proof fn lemma_put_after_remove<T>(s: Seq<(int, T)>, i: int, v: T)
    requires
        ascending(s),
        0 <= i < s.len(),
    ensures
        put(s.remove(i), s[i].0, v) == put(s, s[i].0, v),
        put(s, s[i].0, v) == s.update(i, (s[i].0, v)),
{
    let k = s[i].0;
    let t = s.remove(i);
    assert forall|j: int| 0 <= j < i implies (#[trigger] s[j]).0 < k by {}
    assert forall|j: int| i <= j < s.len() implies (#[trigger] s[j]).0 >= k by {
        if j > i {
            assert(s[i].0 < s[j].0);
        }
    }
    lemma_rank_is(s, k, i);
    assert forall|j: int| 0 <= j < i implies (#[trigger] t[j]).0 < k by {
        assert(t[j] == s[j]);
    }
    assert forall|j: int| i <= j < t.len() implies (#[trigger] t[j]).0 >= k by {
        assert(t[j] == s[j + 1]);
        assert(s[i].0 < s[j + 1].0);
    }
    lemma_rank_is(t, k, i);
    assert(ascending(t)) by {
        assert forall|a: int, b: int| 0 <= a < b < t.len() implies (#[trigger] t[a]).0 < (
        #[trigger] t[b]).0 by {
            let x = if a < i {
                a
            } else {
                a + 1
            };
            let y = if b < i {
                b
            } else {
                b + 1
            };
            assert(s[x].0 < s[y].0);
        }
    }
    lemma_put_at_rank(s, k, v);
    lemma_put_at_rank(t, k, v);
    if i < t.len() {
        assert(t[i] == s[i + 1]);
        assert(s[i].0 < s[i + 1].0);
    }
    assert(t.insert(i, (k, v)) =~= s.update(i, (k, v)));
}

/// A map from `i32` keys to values, held in ascending order of the keys.
#[derive(Debug)]
pub struct OrderedMap<V> {
    entries: Vec<(i32, V)>,
}

impl<V: View> View for OrderedMap<V> {
    type V = Seq<(int, V::V)>;

    /// The entries in the order in which they are held: each key with the view
    /// of its value.
    closed spec fn view(&self) -> Seq<(int, V::V)> {
        Seq::new(self.entries@.len(), |i: int| (self.entries@[i].0 as int, self.entries@[i].1@))
    }
}

impl<V: View> OrderedMap<V> {
    /// The keys strictly ascend.
    pub open spec fn wf(&self) -> bool {
        ascending(self@)
    }

    /// An empty map.
    pub fn new() -> (r: Self)
        ensures
            r@ == Seq::<(int, V::V)>::empty(),
            r.wf(),
    {
        let r = OrderedMap { entries: Vec::new() };
        assert(r@ =~= Seq::<(int, V::V)>::empty());
        r
    }

    /// The number of keys.
    pub fn len(&self) -> (r: usize)
        ensures
            r == self@.len(),
    {
        self.entries.len()
    }

    /// The key at place `i`, counted in ascending order.
    pub fn key_at(&self, i: usize) -> (r: i32)
        requires
            i < self@.len(),
        ensures
            r == self@[i as int].0,
    {
        self.entries[i].0
    }

    /// The value at place `i`, counted in ascending order of the keys.
    pub fn value_at(&self, i: usize) -> (r: &V)
        requires
            i < self@.len(),
        ensures
            r@ == self@[i as int].1,
    {
        &self.entries[i].1
    }

    /// The place of the key `k`, if the map holds it.
    pub fn find(&self, k: i32) -> (r: Option<usize>)
        ensures
            r matches Some(i) ==> i < self@.len() && self@[i as int].0 == k,
            r is None ==> forall|i: int| 0 <= i < self@.len() ==> (#[trigger] self@[i]).0 != k,
            r is Some <==> lookup(self@, k as int) is Some,
    {
        let mut i: usize = 0;
        while i < self.entries.len()
            invariant
                i <= self@.len(),
                self@.len() == self.entries@.len(),
                forall|j: int| 0 <= j < i ==> (#[trigger] self@[j]).0 != k,
            decreases self@.len() - i,
        {
            if self.entries[i].0 == k {
                proof {
                    assert(self@[i as int].0 == k);
                    lemma_lookup_some(self@, k as int);
                }
                return Some(i);
            }
            i += 1;
        }
        proof {
            lemma_lookup_some(self@, k as int);
        }
        None
    }

    /// Whether the map holds the key `k`.
    pub fn contains(&self, k: i32) -> (r: bool)
        ensures
            r == lookup(self@, k as int) is Some,
    {
        self.find(k).is_some()
    }

    /// The value for the key `k`, if the map holds it.
    pub fn get(&self, k: i32) -> (r: Option<&V>)
        requires
            self.wf(),
        ensures
            r matches Some(v) ==> lookup(self@, k as int) == Some(v@),
            r is None ==> lookup(self@, k as int) is None,
    {
        match self.find(k) {
            Some(i) => {
                proof {
                    lemma_lookup_at(self@, i as int);
                }
                Some(&self.entries[i].1)
            },
            None => None,
        }
    }

    /// Sets the value for the key `k`, in place of the one that the map held
    /// for it, if any.
    pub fn put(&mut self, k: i32, v: V)
        requires
            old(self).wf(),
        ensures
            final(self).wf(),
            final(self)@ == put(old(self)@, k as int, v@),
    {
        let ghost before = self@;
        let n = self.entries.len();
        let mut p: usize = n;
        while p > 0 && self.entries[p - 1].0 >= k
            invariant
                p <= n,
                n == self.entries@.len(),
                self@ == before,
                forall|i: int| p <= i < n ==> (#[trigger] before[i]).0 >= k,
            decreases p,
        {
            proof {
                assert(before[p - 1].0 >= k);
            }
            p -= 1;
        }
        proof {
            assert forall|i: int| 0 <= i < p implies (#[trigger] before[i]).0 < k by {
                assert(before[p - 1].0 < k);
                if i < p - 1 {
                    assert(before[i].0 < before[p - 1].0);
                }
            }
            lemma_rank_is(before, k as int, p as int);
            lemma_put_at_rank(before, k as int, v@);
        }
        if p < n && self.entries[p].0 == k {
            self.entries.set(p, (k, v));
            proof {
                assert(self@ =~= before.update(p as int, (k as int, v@)));
            }
        } else {
            self.entries.insert(p, (k, v));
            proof {
                assert(self@ =~= before.insert(p as int, (k as int, v@)));
            }
        }
    }

    /// Takes the entry at place `i` out of the map.
    pub fn remove_at(&mut self, i: usize) -> (r: (i32, V))
        requires
            old(self).wf(),
            i < old(self)@.len(),
        ensures
            final(self).wf(),
            final(self)@ == old(self)@.remove(i as int),
            (r.0 as int, r.1@) == old(self)@[i as int],
    {
        let ghost before = self@;
        let r = self.entries.remove(i);
        proof {
            assert(self@ =~= before.remove(i as int));
            assert forall|a: int, b: int| 0 <= a < b < self@.len() implies (#[trigger] self@[a]).0
                < (#[trigger] self@[b]).0 by {
                let x = if a < i {
                    a
                } else {
                    a + 1
                };
                let y = if b < i {
                    b
                } else {
                    b + 1
                };
                assert(before[x].0 < before[y].0);
            }
        }
        r
    }
}

} // verus!
