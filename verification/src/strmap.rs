//! `StringMap`: a map keyed by strings that keeps its entries in ascending key
//! order, so that walking it always lists the keys sorted.

use vstd::prelude::*;
use crate::text::{chars_of, chars_eq, str_less, str_lt, lemma_str_lt_irreflexive,
    lemma_str_lt_transitive, lemma_str_lt_total};

verus! {

/// The keys are strictly ascending (and so pairwise distinct).
pub open spec fn keys_ascending(ks: Seq<Seq<char>>) -> bool {
    forall|i: int, j: int| 0 <= i < j < ks.len() ==> str_lt(#[trigger] ks[i], #[trigger] ks[j])
}

/// The pairs are strictly ascending by key.
pub open spec fn pairs_ascending<W>(ps: Seq<(Seq<char>, W)>) -> bool {
    forall|i: int, j: int|
        0 <= i < j < ps.len() ==> str_lt(#[trigger] ps[i].0, #[trigger] ps[j].0)
}

/// The map that a list of key/value pairs describes (a later pair wins).
pub open spec fn map_of<W>(ps: Seq<(Seq<char>, W)>) -> Map<Seq<char>, W>
    decreases ps.len(),
{
    if ps.len() == 0 {
        Map::empty()
    } else {
        map_of(ps.drop_last()).insert(ps.last().0, ps.last().1)
    }
}

/// A key is in the described map exactly when some pair carries it.
pub proof fn lemma_map_of_dom<W>(ps: Seq<(Seq<char>, W)>, k: Seq<char>)
    ensures
        map_of(ps).contains_key(k) <==> exists|i: int| 0 <= i < ps.len() && ps[i].0 == k,
    decreases ps.len(),
{
    if ps.len() > 0 {
        lemma_map_of_dom(ps.drop_last(), k);
        if map_of(ps).contains_key(k) {
            if k == ps.last().0 {
                assert(ps[ps.len() - 1].0 == k);
            } else {
                let i = choose|i: int| 0 <= i < ps.drop_last().len() && ps.drop_last()[i].0 == k;
                assert(ps[i].0 == k);
            }
        }
        if exists|i: int| 0 <= i < ps.len() && ps[i].0 == k {
            let i = choose|i: int| 0 <= i < ps.len() && ps[i].0 == k;
            if i < ps.len() - 1 {
                assert(ps.drop_last()[i].0 == k);
            }
        }
    }
}

/// In an ascending list, each pair's value is what the map holds for its key.
pub proof fn lemma_map_of_value<W>(ps: Seq<(Seq<char>, W)>, i: int)
    requires
        pairs_ascending(ps),
        0 <= i < ps.len(),
    ensures
        map_of(ps).contains_key(ps[i].0),
        map_of(ps)[ps[i].0] == ps[i].1,
    decreases ps.len(),
{
    if i < ps.len() - 1 {
        let q = ps.drop_last();
        assert(pairs_ascending(q));
        lemma_map_of_value(q, i);
        assert(str_lt(ps[i].0, ps[ps.len() - 1].0));
        lemma_str_lt_irreflexive(ps[i].0);
    }
}

/// An ascending list describes the map that agrees with it key by key.
pub proof fn lemma_map_of_char<W>(ps: Seq<(Seq<char>, W)>, m: Map<Seq<char>, W>)
    requires
        pairs_ascending(ps),
        forall|k: Seq<char>|
            m.contains_key(k) <==> exists|i: int| 0 <= i < ps.len() && ps[i].0 == k,
        forall|i: int| 0 <= i < ps.len() ==> m[#[trigger] ps[i].0] == ps[i].1,
    ensures
        map_of(ps) == m,
{
    assert forall|k: Seq<char>| map_of(ps).contains_key(k) <==> m.contains_key(k) by {
        lemma_map_of_dom(ps, k);
    }
    assert forall|k: Seq<char>| #[trigger] map_of(ps).contains_key(k) implies map_of(ps)[k]
        == m[k] by {
        lemma_map_of_dom(ps, k);
        let i = choose|i: int| 0 <= i < ps.len() && ps[i].0 == k;
        lemma_map_of_value(ps, i);
    }
    assert(map_of(ps) =~= m);
}

/// Inserting a new key at its place keeps the list ascending and adds the key.
pub proof fn lemma_insert_pair<W>(ps: Seq<(Seq<char>, W)>, pos: int, k: Seq<char>, v: W)
    requires
        pairs_ascending(ps),
        0 <= pos <= ps.len(),
        forall|j: int| 0 <= j < pos ==> str_lt(#[trigger] ps[j].0, k),
        forall|j: int| pos <= j < ps.len() ==> str_lt(k, #[trigger] ps[j].0),
    ensures
        pairs_ascending(ps.insert(pos, (k, v))),
        map_of(ps.insert(pos, (k, v))) == map_of(ps).insert(k, v),
{
    let q = ps.insert(pos, (k, v));
    assert(pairs_ascending(q));
    let m = map_of(ps).insert(k, v);
    assert forall|key: Seq<char>| m.contains_key(key) <==> exists|i: int|
        0 <= i < q.len() && q[i].0 == key by {
        lemma_map_of_dom(ps, key);
        if m.contains_key(key) {
            if key == k {
                assert(q[pos].0 == key);
            } else {
                let i = choose|i: int| 0 <= i < ps.len() && ps[i].0 == key;
                if i < pos {
                    assert(q[i].0 == key);
                } else {
                    assert(q[i + 1].0 == key);
                }
            }
        }
        if exists|i: int| 0 <= i < q.len() && q[i].0 == key {
            let i = choose|i: int| 0 <= i < q.len() && q[i].0 == key;
            if i < pos {
                assert(ps[i].0 == key);
            } else if i > pos {
                assert(ps[i - 1].0 == key);
            }
        }
    }
    assert forall|i: int| 0 <= i < q.len() implies m[#[trigger] q[i].0] == q[i].1 by {
        if i < pos {
            lemma_map_of_value(ps, i);
            lemma_str_lt_irreflexive(k);
        } else if i > pos {
            lemma_map_of_value(ps, i - 1);
            lemma_str_lt_irreflexive(k);
        }
    }
    lemma_map_of_char(q, m);
}

/// Replacing the value of a present key keeps the list ascending and updates
/// the map.
pub proof fn lemma_update_pair<W>(ps: Seq<(Seq<char>, W)>, pos: int, v: W)
    requires
        pairs_ascending(ps),
        0 <= pos < ps.len(),
    ensures
        pairs_ascending(ps.update(pos, (ps[pos].0, v))),
        map_of(ps.update(pos, (ps[pos].0, v))) == map_of(ps).insert(ps[pos].0, v),
{
    let k = ps[pos].0;
    let q = ps.update(pos, (k, v));
    assert(pairs_ascending(q));
    let m = map_of(ps).insert(k, v);
    assert forall|key: Seq<char>| m.contains_key(key) <==> exists|i: int|
        0 <= i < q.len() && q[i].0 == key by {
        lemma_map_of_dom(ps, key);
        if m.contains_key(key) {
            if key == k {
                assert(q[pos].0 == key);
            } else {
                let i = choose|i: int| 0 <= i < ps.len() && ps[i].0 == key;
                assert(q[i].0 == key);
            }
        }
        if exists|i: int| 0 <= i < q.len() && q[i].0 == key {
            let i = choose|i: int| 0 <= i < q.len() && q[i].0 == key;
            assert(ps[i].0 == key);
        }
    }
    assert forall|i: int| 0 <= i < q.len() implies m[#[trigger] q[i].0] == q[i].1 by {
        if i != pos {
            lemma_map_of_value(ps, i);
            if i < pos {
                assert(str_lt(ps[i].0, k));
            } else {
                assert(str_lt(k, ps[i].0));
            }
            lemma_str_lt_irreflexive(k);
        }
    }
    lemma_map_of_char(q, m);
}

/// Two ascending lists that describe the same map are the same list: the
/// sorted listing of a map is unique.
pub proof fn lemma_canonical<W>(p1: Seq<(Seq<char>, W)>, p2: Seq<(Seq<char>, W)>)
    requires
        pairs_ascending(p1),
        pairs_ascending(p2),
        map_of(p1) == map_of(p2),
    ensures
        p1 == p2,
    decreases p1.len() + p2.len(),
{
    if p1.len() == 0 || p2.len() == 0 {
        if p1.len() > 0 {
            lemma_map_of_value(p1, 0);
            lemma_map_of_dom(p2, p1[0].0);
        }
        if p2.len() > 0 {
            lemma_map_of_value(p2, 0);
            lemma_map_of_dom(p1, p2[0].0);
        }
        assert(p1 =~= p2);
    } else {
        let a = p1.last().0;
        let b = p2.last().0;
        lemma_map_of_value(p1, p1.len() - 1);
        lemma_map_of_value(p2, p2.len() - 1);
        lemma_map_of_dom(p2, a);
        lemma_map_of_dom(p1, b);
        let j = choose|i: int| 0 <= i < p2.len() && p2[i].0 == a;
        let l = choose|i: int| 0 <= i < p1.len() && p1[i].0 == b;
        if a != b {
            assert(j < p2.len() - 1);
            assert(str_lt(a, b));
            assert(l < p1.len() - 1);
            assert(str_lt(b, a));
            lemma_str_lt_total(a, b);
        }
        assert(a == b);
        let q1 = p1.drop_last();
        let q2 = p2.drop_last();
        assert(pairs_ascending(q1));
        assert(pairs_ascending(q2));
        assert forall|k: Seq<char>| map_of(q1).contains_key(k) implies k != a by {
            lemma_map_of_dom(q1, k);
            let i = choose|i: int| 0 <= i < q1.len() && q1[i].0 == k;
            assert(str_lt(p1[i].0, p1[p1.len() - 1].0));
            lemma_str_lt_irreflexive(a);
        }
        assert forall|k: Seq<char>| map_of(q2).contains_key(k) implies k != a by {
            lemma_map_of_dom(q2, k);
            let i = choose|i: int| 0 <= i < q2.len() && q2[i].0 == k;
            assert(str_lt(p2[i].0, p2[p2.len() - 1].0));
            lemma_str_lt_irreflexive(a);
        }
        assert(map_of(q1) =~= map_of(p1).remove(a));
        assert(map_of(q2) =~= map_of(p2).remove(a));
        lemma_canonical(q1, q2);
        assert(p1 =~= q1.push(p1.last()));
        assert(p2 =~= q2.push(p2.last()));
    }
}

/// A string-keyed map whose entries are kept in ascending key order; its
/// view is the map it describes.
#[derive(Debug, PartialEq, Eq)]
pub struct StringMap<V> {
    entries: Vec<(String, V)>,
}

impl<V> StringMap<V> {
    /// The keys, in stored order.
    pub closed spec fn keys(self) -> Seq<Seq<char>> {
        Seq::new(self.entries@.len(), |i: int| self.entries@[i].0@)
    }

    /// The values, in the stored order of their keys.
    pub closed spec fn values(self) -> Seq<V> {
        Seq::new(self.entries@.len(), |i: int| self.entries@[i].1)
    }

    /// Entries are kept strictly ascending by key.
    #[verifier::type_invariant]
    pub closed spec fn sorted(self) -> bool {
        keys_ascending(self.keys())
    }

    /// The number of entries.
    pub fn len(&self) -> (n: usize)
        ensures
            n == self.keys().len(),
    {
        self.entries.len()
    }

    /// Whether the map has no entries.
    pub fn is_empty(&self) -> (r: bool)
        ensures
            r == (self.keys().len() == 0),
    {
        self.entries.len() == 0
    }

    /// The key of the `i`-th entry in ascending order.
    pub fn key_at(&self, i: usize) -> (k: &String)
        requires
            i < self.keys().len(),
        ensures
            k@ == self.keys()[i as int],
    {
        &self.entries[i].0
    }

    /// The first index whose key is not below `key`, and whether that key
    /// equals `key`.
    fn position(&self, key: &[char]) -> (r: (usize, bool))
        ensures
            r.0 <= self.keys().len(),
            forall|j: int| 0 <= j < r.0 ==> str_lt(#[trigger] self.keys()[j], key@),
            r.1 ==> r.0 < self.keys().len() && self.keys()[r.0 as int] == key@,
            !r.1 ==> forall|j: int|
                r.0 <= j < self.keys().len() ==> str_lt(key@, #[trigger] self.keys()[j]),
    {
        proof {
            use_type_invariant(self);
        }
        let n = self.entries.len();
        let mut i: usize = 0;
        while i < n
            invariant
                n == self.keys().len(),
                i <= n,
                keys_ascending(self.keys()),
                forall|j: int| 0 <= j < i ==> str_lt(#[trigger] self.keys()[j], key@),
            decreases n - i,
        {
            let ki = chars_of(self.entries[i].0.as_str());
            if !str_less(ki.as_slice(), key) {
                let same = chars_eq(ki.as_slice(), key);
                proof {
                    let k = self.keys()[i as int];
                    lemma_str_lt_total(k, key@);
                    if !same {
                        assert forall|j: int| i <= j < n implies str_lt(
                            key@,
                            #[trigger] self.keys()[j],
                        ) by {
                            if j > i {
                                lemma_str_lt_transitive(key@, k, self.keys()[j]);
                            }
                        }
                    }
                }
                return (i, same);
            }
            i += 1;
        }
        (i, false)
    }
}

impl<V: View> StringMap<V> {
    /// The entries as (key, value view) pairs, in ascending key order.
    pub closed spec fn pairs(self) -> Seq<(Seq<char>, V::V)> {
        Seq::new(self.entries@.len(), |i: int| (self.entries@[i].0@, self.entries@[i].1@))
    }

    /// The listing is ascending and carries the stored keys.
    pub proof fn lemma_pairs(self)
        requires
            self.sorted(),
        ensures
            pairs_ascending(self.pairs()),
            self.pairs().len() == self.keys().len(),
            forall|i: int| 0 <= i < self.keys().len() ==> #[trigger] self.pairs()[i].0 == self.keys()[i],
    {
        assert forall|i: int, j: int| 0 <= i < j < self.pairs().len() implies str_lt(
            #[trigger] self.pairs()[i].0,
            #[trigger] self.pairs()[j].0,
        ) by {
            assert(self.pairs()[i].0 == self.keys()[i]);
            assert(self.pairs()[j].0 == self.keys()[j]);
        }
    }

    /// An empty map.
    pub fn new() -> (r: Self)
        ensures
            r@ == Map::<Seq<char>, V::V>::empty(),
            r.keys().len() == 0,
            r.pairs().len() == 0,
    {
        let r = StringMap { entries: Vec::new() };
        proof {
            assert(r.keys() =~= Seq::<Seq<char>>::empty());
            assert(r.pairs() =~= Seq::<(Seq<char>, V::V)>::empty());
        }
        r
    }

    /// The value view of the `i`-th entry in ascending order.
    pub fn value_at(&self, i: usize) -> (v: &V)
        requires
            i < self.keys().len(),
        ensures
            v@ == self.pairs()[i as int].1,
    {
        &self.entries[i].1
    }

    /// The value stored under `key`, if any.
    pub fn get(&self, key: &str) -> (r: Option<&V>)
        ensures
            r is Some <==> self@.contains_key(key@),
            r matches Some(v) ==> v@ == self@[key@],
    {
        proof {
            use_type_invariant(self);
            self.lemma_pairs();
        }
        let kc = chars_of(key);
        let (i, found) = self.position(kc.as_slice());
        if found {
            proof {
                lemma_map_of_value(self.pairs(), i as int);
            }
            Some(&self.entries[i].1)
        } else {
            proof {
                lemma_map_of_dom(self.pairs(), key@);
                if self@.contains_key(key@) {
                    let j = choose|j: int|
                        0 <= j < self.pairs().len() && self.pairs()[j].0 == key@;
                    assert(self.pairs()[j].0 == self.keys()[j]);
                    lemma_str_lt_irreflexive(key@);
                }
            }
            None
        }
    }

    /// Sets the value stored under `key`, replacing any earlier one.
    pub fn insert(&mut self, key: String, value: V)
        ensures
            final(self)@ == old(self)@.insert(key@, value@),
    {
        proof {
            use_type_invariant(&*self);
            self.lemma_pairs();
        }
        let kc = chars_of(key.as_str());
        let (i, found) = self.position(kc.as_slice());
        let ghost ps = self.pairs();
        let mut entries: Vec<(String, V)> = Vec::new();
        std::mem::swap(&mut entries, &mut self.entries);
        let ghost kv = key@;
        let ghost vv = value@;
        if found {
            entries.set(i, (key, value));
            proof {
                lemma_update_pair(ps, i as int, vv);
            }
        } else {
            entries.insert(i, (key, value));
            proof {
                assert forall|j: int| 0 <= j < i implies str_lt(#[trigger] ps[j].0, kv) by {
                    assert(ps[j].0 == old(self).keys()[j]);
                }
                assert forall|j: int| i <= j < ps.len() implies str_lt(kv, #[trigger] ps[j].0) by {
                    assert(ps[j].0 == old(self).keys()[j]);
                }
                lemma_insert_pair(ps, i as int, kv, vv);
            }
        }
        let ghost newp = Seq::new(entries@.len(), |j: int| (entries@[j].0@, entries@[j].1@));
        proof {
            if found {
                assert(newp =~= ps.update(i as int, (ps[i as int].0, vv)));
            } else {
                assert(newp =~= ps.insert(i as int, (kv, vv)));
            }
            assert forall|a: int, b: int| 0 <= a < b < entries@.len() implies str_lt(
                #[trigger] entries@[a].0@,
                #[trigger] entries@[b].0@,
            ) by {
                assert(newp[a].0 == entries@[a].0@);
                assert(newp[b].0 == entries@[b].0@);
            }
        }
        self.entries = entries;
        proof {
            assert(self.pairs() =~= newp);
        }
    }
}

impl StringMap<String> {
    /// A copy describing the same map, with the same listing.
    pub fn duplicate(&self) -> (r: Self)
        ensures
            r@ == self@,
            r.pairs() == self.pairs(),
    {
        proof {
            use_type_invariant(self);
        }
        let mut entries: Vec<(String, String)> = Vec::new();
        let mut i: usize = 0;
        while i < self.entries.len()
            invariant
                i <= self.entries@.len(),
                entries@.len() == i,
                forall|j: int| 0 <= j < i ==> #[trigger] entries@[j] == self.entries@[j],
            decreases self.entries@.len() - i,
        {
            let k = self.entries[i].0.clone();
            let v = self.entries[i].1.clone();
            entries.push((k, v));
            i += 1;
        }
        proof {
            assert(entries@ =~= self.entries@);
        }
        StringMap { entries }
    }

    /// Adds every entry of `other`, whose values win over this map's.
    pub fn extend_with(&mut self, other: &StringMap<String>)
        ensures
            final(self)@ == old(self)@.union_prefer_right(other@),
    {
        proof {
            use_type_invariant(other);
            other.lemma_pairs();
            assert(other.pairs().take(0) =~= Seq::<(Seq<char>, Seq<char>)>::empty());
            assert(old(self)@.union_prefer_right(Map::empty()) =~= old(self)@);
        }
        let n = other.len();
        let mut i: usize = 0;
        while i < n
            invariant
                n == other.keys().len() == other.pairs().len(),
                i <= n,
                self@ == old(self)@.union_prefer_right(map_of(other.pairs().take(i as int))),
            decreases n - i,
        {
            let k = other.key_at(i).clone();
            let v = other.value_at(i).clone();
            let ghost before = map_of(other.pairs().take(i as int));
            proof {
                assert(k@ == other.pairs()[i as int].0);
            }
            self.insert(k, v);
            proof {
                let t = other.pairs().take(i + 1);
                assert(t.drop_last() =~= other.pairs().take(i as int));
                assert(map_of(t) == before.insert(k@, v@));
                assert(old(self)@.union_prefer_right(before.insert(k@, v@)) =~= old(
                    self,
                )@.union_prefer_right(before).insert(k@, v@));
            }
            i += 1;
        }
        proof {
            assert(other.pairs().take(n as int) =~= other.pairs());
        }
    }

    /// Whether both maps hold the same entries.
    pub fn same_as(&self, other: &StringMap<String>) -> (r: bool)
        ensures
            r == (self@ == other@),
    {
        proof {
            use_type_invariant(self);
            use_type_invariant(other);
            self.lemma_pairs();
            other.lemma_pairs();
        }
        let n = self.entries.len();
        let mut same = n == other.entries.len();
        let mut i: usize = 0;
        while same && i < n
            invariant
                n == self.entries@.len(),
                i <= n,
                same ==> n == other.entries@.len(),
                same ==> forall|j: int| 0 <= j < i ==> #[trigger] self.pairs()[j] == other.pairs()[j],
                !same ==> self.pairs() != other.pairs(),
            decreases n - i,
        {
            let a = &self.entries[i];
            let b = &other.entries[i];
            if !(a.0 == b.0 && a.1 == b.1) {
                same = false;
                proof {
                    assert(self.pairs()[i as int] != other.pairs()[i as int]);
                }
            }
            i += 1;
        }
        proof {
            if same {
                assert(self.pairs() =~= other.pairs());
            } else if self@ == other@ {
                lemma_canonical(self.pairs(), other.pairs());
            }
        }
        same
    }
}

impl<V: Clone> Clone for StringMap<V> {
    /// A copy with the same keys, each value cloned.
    fn clone(&self) -> (r: Self)
        ensures
            r.keys() == self.keys(),
            r.values().len() == self.values().len(),
            forall|i: int| 0 <= i < self.values().len() ==> cloned::<V>(self.values()[i], #[trigger] r.values()[i]),
    {
        proof {
            use_type_invariant(self);
        }
        let mut entries: Vec<(String, V)> = Vec::new();
        let mut i: usize = 0;
        while i < self.entries.len()
            invariant
                i <= self.entries@.len(),
                entries@.len() == i,
                forall|j: int| 0 <= j < i ==> #[trigger] entries@[j].0@ == self.entries@[j].0@,
                forall|j: int| 0 <= j < i ==> cloned::<V>(self.entries@[j].1, #[trigger] entries@[j].1),
            decreases self.entries@.len() - i,
        {
            let k = self.entries[i].0.clone();
            let v = self.entries[i].1.clone();
            entries.push((k, v));
            i += 1;
        }
        proof {
            let ks = Seq::new(entries@.len(), |j: int| entries@[j].0@);
            assert(ks =~= self.keys());
            assert(keys_ascending(ks));
        }
        let r = StringMap { entries };
        proof {
            assert forall|j: int| 0 <= j < self.values().len() implies cloned::<V>(self.values()[j], #[trigger] r.values()[j]) by {
                assert(self.values()[j] == self.entries@[j].1);
                assert(r.values()[j] == r.entries@[j].1);
            }
        }
        r
    }
}

impl<V: View> View for StringMap<V> {
    type V = Map<Seq<char>, V::V>;

    open spec fn view(&self) -> Map<Seq<char>, V::V> {
        map_of(self.pairs())
    }
}

} // verus!
