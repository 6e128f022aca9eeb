//! Small insertion-ordered collections over keys that are compared by view.
//!
//! Both keep their keys in the order in which they were first inserted, so
//! everything computed from them is a function of their history alone.

use crate::primitives::{Key, Valid};
use vstd::prelude::*;

verus! {

/// A set that remembers the order of insertion.
pub struct VecSet<T: Key> {
    items: Vec<T>,
}

impl<T: Key> View for VecSet<T> {
    type V = Set<T::V>;

    open spec fn view(&self) -> Set<T::V> {
        self.elements().to_set()
    }
}

impl<T: Key> VecSet<T> {
    /// The elements, oldest first.
    pub closed spec fn elements(&self) -> Seq<T::V> {
        Seq::new(self.items.len() as nat, |i: int| self.items[i]@)
    }

    /// No element occurs twice.
    pub open spec fn wf(&self) -> bool {
        self.elements().no_duplicates()
    }

    pub fn new() -> (s: Self)
        ensures
            s.wf(),
            s.elements() == Seq::<T::V>::empty(),
            s@ == Set::<T::V>::empty(),
    {
        let s = VecSet { items: Vec::new() };
        s
    }

    pub fn len(&self) -> (n: usize)
        ensures
            n == self.elements().len(),
    {
        self.items.len()
    }

    /// The element at position `i`.
    pub fn get(&self, i: usize) -> (t: &T)
        requires
            i < self.elements().len(),
        ensures
            t@ == self.elements()[i as int],
    {
        &self.items[i]
    }

    pub fn contains(&self, t: &T) -> (r: bool)
        ensures
            r == self@.contains(t@),
    {
        let mut i: usize = 0;
        while i < self.items.len()
            invariant
                i <= self.items.len(),
                forall|j: int| 0 <= j < i ==> self.elements()[j] != t@,
            decreases self.items.len() - i,
        {
            if self.items[i].same(t) {
                assert(self.elements()[i as int] == t@);
                return true;
            }
            i = i + 1;
        }
        false
    }

    /// Adds `t` unless it is there already; says whether it was added.
    pub fn insert(&mut self, t: T) -> (r: bool)
        requires
            old(self).wf(),
        ensures
            final(self).wf(),
            r == !old(self)@.contains(t@),
            final(self)@ == old(self)@.insert(t@),
            final(self).elements() == if r {
                old(self).elements().push(t@)
            } else {
                old(self).elements()
            },
    {
        if self.contains(&t) {
            false
        } else {
            self.items.push(t);
            proof {
                assert(self.elements() =~= old(self).elements().push(t@));
                old(self).elements().lemma_push_to_set_commute(t@);
            }
            true
        }
    }
}

/// A map that remembers the order in which its keys were inserted.
pub struct VecMap<K: Key, V: Valid> {
    keys: Vec<K>,
    values: Vec<V>,
}

impl<K: Key, V: Valid> View for VecMap<K, V> {
    type V = Map<K::V, V::V>;

    /// The map from keys to the content of their values, without the order.
    open spec fn view(&self) -> Map<K::V, V::V> {
        assoc_map(self.order(), self.contents())
    }
}

impl<K: Key, V: Valid> VecMap<K, V> {
    /// The keys, oldest first.
    pub closed spec fn order(&self) -> Seq<K::V> {
        Seq::new(self.keys.len() as nat, |i: int| self.keys[i]@)
    }

    /// The values, each at the position of its key.
    pub closed spec fn values(&self) -> Seq<V> {
        self.values@
    }

    /// The content of the values, each at the position of its key.
    pub open spec fn contents(&self) -> Seq<V::V> {
        self.values().map_values(|v: V| v@)
    }

    /// Every key has one value, no key occurs twice, and every value is
    /// valid.
    pub open spec fn wf(&self) -> bool {
        &&& self.order().len() == self.values().len()
        &&& self.order().no_duplicates()
        &&& forall|i: int| 0 <= i < self.values().len() ==> (#[trigger] self.values()[i]).valid()
    }

    /// In a well-formed map the keys are the domain, and the value of the
    /// key at position `i` is the value at position `i`.
    pub proof fn lemma_entry(&self, i: int)
        requires
            self.wf(),
            0 <= i < self.order().len(),
        ensures
            self@.contains_key(self.order()[i]),
            self@[self.order()[i]] == self.values()[i]@,
    {
    }

    /// The keys of a well-formed map are exactly the keys in `order`.
    pub proof fn lemma_domain(&self)
        ensures
            forall|k: K::V| self@.contains_key(k) <==> self.order().contains(k),
            self@.dom().finite(),
    {
        vstd::seq_lib::seq_to_set_is_finite(self.order());
    }

    pub fn new() -> (m: Self)
        ensures
            m.wf(),
            m.order() == Seq::<K::V>::empty(),
            m@ == Map::<K::V, V::V>::empty(),
    {
        let m = VecMap { keys: Vec::new(), values: Vec::new() };
        m
    }

    pub fn len(&self) -> (n: usize)
        ensures
            n == self.order().len(),
    {
        self.keys.len()
    }

    /// The position of `k` among the keys.
    pub fn index_of(&self, k: &K) -> (r: Option<usize>)
        ensures
            match r {
                Some(i) => i < self.order().len() && self.order()[i as int] == k@
                    && self@.contains_key(k@),
                None => !self.order().contains(k@) && !self@.contains_key(k@),
            },
    {
        let mut i: usize = 0;
        while i < self.keys.len()
            invariant
                i <= self.keys.len(),
                forall|j: int| 0 <= j < i ==> self.order()[j] != k@,
            decreases self.keys.len() - i,
        {
            if self.keys[i].same(k) {
                assert(self.order()[i as int] == k@);
                return Some(i);
            }
            i = i + 1;
        }
        None
    }

    pub fn contains_key(&self, k: &K) -> (r: bool)
        ensures
            r == self@.contains_key(k@),
    {
        self.index_of(k).is_some()
    }

    /// The key at position `i`.
    pub fn key_at(&self, i: usize) -> (k: &K)
        requires
            i < self.order().len(),
        ensures
            k@ == self.order()[i as int],
    {
        &self.keys[i]
    }

    /// The value at position `i`.
    pub fn value_at(&self, i: usize) -> (v: &V)
        requires
            self.wf(),
            i < self.order().len(),
        ensures
            v.valid(),
            *v == self.values()[i as int],
            v@ == self@[self.order()[i as int]],
    {
        &self.values[i]
    }

    /// The value at position `i`, to be changed in place. The map stays
    /// well-formed if the value stays valid.
    pub fn value_mut(&mut self, i: usize) -> (v: &mut V)
        requires
            old(self).wf(),
            i < old(self).order().len(),
        ensures
            v.valid(),
            *v == old(self).values()[i as int],
            v@ == old(self)@[old(self).order()[i as int]],
            final(self).order() == old(self).order(),
            final(self).values() == old(self).values().update(i as int, *final(v)),
            final(self)@ == old(self)@.insert(old(self).order()[i as int], final(v)@),
            final(v).valid() ==> final(self).wf(),
    {
        let v = &mut self.values[i];
        v
    }

    /// The value stored under `k`, if there is one.
    pub fn get(&self, k: &K) -> (r: Option<&V>)
        requires
            self.wf(),
        ensures
            match r {
                Some(v) => self@.contains_key(k@) && v@ == self@[k@] && v.valid(),
                None => !self@.contains_key(k@),
            },
    {
        match self.index_of(k) {
            Some(i) => Some(self.value_at(i)),
            None => None,
        }
    }

    /// Adds a key that the map does not hold yet, after all others.
    pub fn push(&mut self, k: K, v: V)
        requires
            old(self).wf(),
            !old(self)@.contains_key(k@),
            v.valid(),
        ensures
            final(self).wf(),
            final(self).order() == old(self).order().push(k@),
            final(self).values() == old(self).values().push(v),
            final(self)@ == old(self)@.insert(k@, v@),
    {
        proof {
            lemma_assoc_push(self.order(), self.contents(), k@, v@);
        }
        self.keys.push(k);
        self.values.push(v);
        assert(self.order() =~= old(self).order().push(k@));
    }

    /// Stores `v` under `k`: in place of the value that was there, or after
    /// all others where there was none.
    pub fn insert(&mut self, k: K, v: V)
        requires
            old(self).wf(),
            v.valid(),
        ensures
            final(self).wf(),
            final(self).order() == if old(self)@.contains_key(k@) {
                old(self).order()
            } else {
                old(self).order().push(k@)
            },
            final(self)@ == old(self)@.insert(k@, v@),
    {
        match self.index_of(&k) {
            Some(i) => {
                let slot = self.value_mut(i);
                *slot = v;
            },
            None => {
                self.push(k, v);
            },
        }
    }

    /// Takes out the entry at position `i`; the others keep their order.
    pub fn remove_at(&mut self, i: usize) -> (r: (K, V))
        requires
            old(self).wf(),
            i < old(self).order().len(),
        ensures
            final(self).wf(),
            r.0@ == old(self).order()[i as int],
            r.1 == old(self).values()[i as int],
            r.1.valid(),
            final(self).order() == old(self).order().remove(i as int),
            final(self).values() == old(self).values().remove(i as int),
            final(self)@ == old(self)@.remove(old(self).order()[i as int]),
    {
        proof {
            lemma_assoc_remove(self.order(), self.contents(), i as int);
        }
        let k = self.keys.remove(i);
        let v = self.values.remove(i);
        assert(self.order() =~= old(self).order().remove(i as int));
        (k, v)
    }

    /// Takes out the entry of `k`, if there is one.
    pub fn remove(&mut self, k: &K) -> (r: Option<V>)
        requires
            old(self).wf(),
        ensures
            final(self).wf(),
            final(self)@ == old(self)@.remove(k@),
            r is Some == old(self)@.contains_key(k@),
            r matches Some(v) ==> v@ == old(self)@[k@] && v.valid(),
            final(self).order() == without(old(self).order(), k@),
    {
        match self.index_of(k) {
            Some(i) => {
                proof {
                    lemma_remove_is_filter(self.order(), i as int);
                }
                let (_, v) = self.remove_at(i);
                Some(v)
            },
            None => {
                proof {
                    lemma_filter_all(self.order(), |x: K::V| x != k@);
                }
                None
            },
        }
    }
}

/// The map that a list of distinct keys and the list of their values
/// stand for.
pub open spec fn assoc_map<K, V>(order: Seq<K>, values: Seq<V>) -> Map<K, V> {
    Map::new(|k: K| order.contains(k), |k: K| values[order.index_of(k)])
}

/// Appending a new key with its value inserts the pair.
pub proof fn lemma_assoc_push<K, V>(order: Seq<K>, values: Seq<V>, k: K, v: V)
    requires
        order.no_duplicates(),
        order.len() == values.len(),
        !order.contains(k),
    ensures
        order.push(k).no_duplicates(),
        assoc_map(order.push(k), values.push(v)) == assoc_map(order, values).insert(k, v),
{
    lemma_with(order, k);
}

/// Removing position `i` from both lists removes the key at `i`.
pub proof fn lemma_assoc_remove<K, V>(order: Seq<K>, values: Seq<V>, i: int)
    requires
        order.no_duplicates(),
        order.len() == values.len(),
        0 <= i < order.len(),
    ensures
        order.remove(i).no_duplicates(),
        !order.remove(i).contains(order[i]),
        assoc_map(order.remove(i), values.remove(i)) == assoc_map(order, values).remove(
            order[i],
        ),
{
    let order2 = order.remove(i);
    assert forall|x: K| order2.contains(x) <==> (x != order[i] && order.contains(x)) by {
        if order2.contains(x) {
            let j = order2.index_of(x);
            assert(order2[j] == x);
            if j < i {
                assert(order[j] == x);
            } else {
                assert(order[j + 1] == x);
            }
        }
        if x != order[i] && order.contains(x) {
            let j = order.index_of(x);
            assert(order[j] == x);
            if j < i {
                assert(order2[j] == x);
            } else {
                assert(order2[j - 1] == x);
            }
        }
    }
}

/// Filtering a sequence with one more element filters the sequence and then
/// keeps or drops the element.
pub proof fn lemma_filter_push<A>(s: Seq<A>, a: A, pred: spec_fn(A) -> bool)
    ensures
        s.push(a).filter(pred) == if pred(a) {
            s.filter(pred).push(a)
        } else {
            s.filter(pred)
        },
{
    reveal(Seq::filter);
    assert(s.push(a).drop_last() =~= s);
}

/// The sequence without the occurrences of `a`.
pub open spec fn without<A>(s: Seq<A>, a: A) -> Seq<A> {
    s.filter(|x: A| x != a)
}

/// Distinct elements with a new one after them are distinct, and are the
/// elements and the new one.
pub proof fn lemma_with<A>(s: Seq<A>, a: A)
    requires
        s.no_duplicates(),
        !s.contains(a),
    ensures
        s.push(a).no_duplicates(),
        forall|x: A| s.push(a).contains(x) <==> (x == a || s.contains(x)),
{
    let pushed = s.push(a);
    assert forall|x: A| pushed.contains(x) <==> (x == a || s.contains(x)) by {
        if pushed.contains(x) {
            let i = pushed.index_of(x);
            assert(pushed[i] == x);
            if i < s.len() {
                assert(s[i] == x);
            }
        }
        if s.contains(x) {
            let i = s.index_of(x);
            assert(s[i] == x);
            assert(pushed[i] == x);
        }
        if x == a {
            assert(pushed[s.len() as int] == x);
        }
    }
}

/// Among distinct elements, those without `a` are distinct, and are the
/// others.
pub proof fn lemma_without<A>(s: Seq<A>, a: A)
    requires
        s.no_duplicates(),
    ensures
        without(s, a).no_duplicates(),
        forall|x: A| without(s, a).contains(x) <==> (x != a && s.contains(x)),
{
    if s.contains(a) {
        let i = s.index_of(a);
        lemma_remove_is_filter(s, i);
    } else {
        lemma_filter_all(s, |x: A| x != a);
    }
}

/// A filter that every element passes keeps the sequence as it is.
pub proof fn lemma_filter_all<A>(s: Seq<A>, pred: spec_fn(A) -> bool)
    requires
        forall|i: int| 0 <= i < s.len() ==> pred(#[trigger] s[i]),
    ensures
        s.filter(pred) == s,
    decreases s.len(),
{
    reveal(Seq::filter);
    if s.len() > 0 {
        lemma_filter_all(s.drop_last(), pred);
    }
}

/// Among distinct elements, removing the one at position `i` is filtering
/// it out.
pub proof fn lemma_remove_is_filter<A>(s: Seq<A>, i: int)
    requires
        s.no_duplicates(),
        0 <= i < s.len(),
    ensures
        s.remove(i) == without(s, s[i]),
    decreases s.len(),
{
    reveal(Seq::filter);
    if i == s.len() - 1 {
        lemma_filter_all(s.drop_last(), |x: A| x != s[i]);
    } else {
        let front = s.drop_last();
        lemma_remove_is_filter(front, i);
    }
}

} // verus!
