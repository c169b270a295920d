//! Sets and maps keyed by text, kept in order of their keys.

use crate::text::{
    is_before, lemma_precedes_irreflexive, lemma_precedes_total, lemma_precedes_transitive,
    precedes, same, texts,
};
use vstd::prelude::*;

verus! {

/// Each text comes before all that follow it.
pub open spec fn ordered(keys: Seq<Seq<char>>) -> bool {
    forall|i: int, j: int| 0 <= i < j < keys.len() ==> precedes(#[trigger] keys[i], #[trigger] keys[j])
}

/// An ordered list holds no text twice.
pub proof fn lemma_ordered_distinct(keys: Seq<Seq<char>>)
    requires
        ordered(keys),
    ensures
        keys.no_duplicates(),
{
    assert forall|i: int, j: int| 0 <= i < keys.len() && 0 <= j < keys.len() && i != j implies keys[i]
        != keys[j] by {
        lemma_precedes_irreflexive(keys[i]);
        if i < j {
            assert(precedes(keys[i], keys[j]));
        } else {
            assert(precedes(keys[j], keys[i]));
        }
    }
}

/// There is one ordered list of the same texts.
pub proof fn lemma_ordered_unique(a: Seq<Seq<char>>, b: Seq<Seq<char>>)
    requires
        ordered(a),
        ordered(b),
        forall|k: Seq<char>| #[trigger] a.contains(k) <==> b.contains(k),
    ensures
        a == b,
    decreases a.len(),
{
    lemma_ordered_distinct(a);
    lemma_ordered_distinct(b);
    if a.len() == 0 {
        if b.len() > 0 {
            assert(b.contains(b[0]));
            assert(a.contains(b[0]));
        }
        assert(a =~= b);
    } else {
        assert(a.contains(a.last()));
        assert(b.contains(a.last()));
        let at = choose|i: int| 0 <= i < b.len() && b[i] == a.last();
        assert(b.contains(b.last()));
        assert(a.contains(b.last()));
        let back = choose|i: int| 0 <= i < a.len() && a[i] == b.last();
        if at != b.len() - 1 {
            assert(precedes(b[at], b.last()));
            if back != a.len() - 1 {
                assert(precedes(a[back], a.last()));
                lemma_precedes_transitive(a.last(), b.last(), a.last());
            }
            lemma_precedes_irreflexive(a.last());
        }
        assert(a.last() == b.last());
        let ra = a.drop_last();
        let rb = b.drop_last();
        assert(ordered(ra)) by {
            assert forall|i: int, j: int| 0 <= i < j < ra.len() implies precedes(
                #[trigger] ra[i],
                #[trigger] ra[j],
            ) by {
                assert(precedes(a[i], a[j]));
            }
        }
        assert(ordered(rb)) by {
            assert forall|i: int, j: int| 0 <= i < j < rb.len() implies precedes(
                #[trigger] rb[i],
                #[trigger] rb[j],
            ) by {
                assert(precedes(b[i], b[j]));
            }
        }
        assert forall|k: Seq<char>| #[trigger] ra.contains(k) <==> rb.contains(k) by {
            if ra.contains(k) {
                let i = choose|i: int| 0 <= i < ra.len() && ra[i] == k;
                assert(a[i] == k);
                assert(a.contains(k));
                assert(b.contains(k));
                let j = choose|j: int| 0 <= j < b.len() && b[j] == k;
                assert(j != b.len() - 1);
                assert(rb[j] == k);
            }
            if rb.contains(k) {
                let i = choose|i: int| 0 <= i < rb.len() && rb[i] == k;
                assert(b[i] == k);
                assert(b.contains(k));
                assert(a.contains(k));
                let j = choose|j: int| 0 <= j < a.len() && a[j] == k;
                assert(j != a.len() - 1);
                assert(ra[j] == k);
            }
        }
        lemma_ordered_unique(ra, rb);
        assert(a =~= ra.push(a.last()));
        assert(b =~= rb.push(b.last()));
    }
}

/// A new key put where it belongs leaves the list ordered.
proof fn lemma_ordered_insert(keys: Seq<Seq<char>>, at: int, key: Seq<char>)
    requires
        ordered(keys),
        0 <= at <= keys.len(),
        forall|j: int| 0 <= j < at ==> precedes(#[trigger] keys[j], key),
        forall|j: int| at <= j < keys.len() ==> precedes(key, #[trigger] keys[j]),
    ensures
        ordered(keys.insert(at, key)),
{
    let grown = keys.insert(at, key);
    assert forall|i: int, j: int| 0 <= i < j < grown.len() implies precedes(
        #[trigger] grown[i],
        #[trigger] grown[j],
    ) by {
        let a = if i < at { i } else { i - 1 };
        let b = if j < at { j } else { j - 1 };
        if i != at {
            assert(grown[i] == keys[a]);
        }
        if j != at {
            assert(grown[j] == keys[b]);
        }
    }
}

/// Where the key stands among ordered keys, or where it belongs.
fn locate(keys: &Vec<String>, key: &str) -> (r: (usize, bool))
    requires
        ordered(texts(keys@)),
    ensures
        r.0 <= keys@.len(),
        r.1 ==> r.0 < keys@.len() && keys@[r.0 as int]@ == key@,
        r.1 == texts(keys@).contains(key@),
        !r.1 ==> forall|j: int| 0 <= j < r.0 ==> precedes(#[trigger] texts(keys@)[j], key@),
        !r.1 ==> forall|j: int|
            r.0 <= j < keys@.len() ==> precedes(key@, #[trigger] texts(keys@)[j]),
{
    let mut i: usize = 0;
    while i < keys.len()
        invariant
            i <= keys@.len(),
            ordered(texts(keys@)),
            forall|j: int| 0 <= j < i ==> precedes(#[trigger] texts(keys@)[j], key@),
        decreases keys@.len() - i,
    {
        let ghost all = texts(keys@);
        if same(keys[i].as_str(), key) {
            assert(all[i as int] == key@);
            return (i, true);
        }
        if !is_before(keys[i].as_str(), key) {
            proof {
                lemma_precedes_total(all[i as int], key@);
                assert forall|j: int| i <= j < keys@.len() implies precedes(key@, #[trigger] all[j]) by {
                    if i < j {
                        lemma_precedes_transitive(key@, all[i as int], all[j]);
                    }
                }
                assert forall|j: int| 0 <= j < all.len() implies all[j] != key@ by {
                    lemma_precedes_irreflexive(key@);
                }
            }
            return (i, false);
        }
        i = i + 1;
    }
    proof {
        let all = texts(keys@);
        assert forall|j: int| 0 <= j < all.len() implies all[j] != key@ by {
            lemma_precedes_irreflexive(key@);
        }
    }
    (i, false)
}

/// Every one of the names is in the set.
pub open spec fn within(names: Seq<Seq<char>>, set: NameSet) -> bool {
    forall|n: Seq<char>| #[trigger] names.contains(n) ==> set.has(n)
}

/// A set of texts.
#[derive(Clone, Debug, PartialEq, Eq)]
pub struct NameSet {
    pub items: Vec<String>,
}

impl NameSet {
    /// The items are in order, so none occurs twice.
    pub open spec fn wf(&self) -> bool {
        ordered(texts(self.items@))
    }

    /// The items in order.
    pub open spec fn list(&self) -> Seq<Seq<char>> {
        texts(self.items@)
    }

    /// Whether the set holds `name`.
    pub open spec fn has(&self, name: Seq<char>) -> bool {
        self.list().contains(name)
    }

    /// The names as a mathematical set.
    pub open spec fn set(&self) -> Set<Seq<char>> {
        self.list().to_set()
    }

    /// The empty set.
    pub fn new() -> (r: NameSet)
        ensures
            r.wf(),
            r.list() == Seq::<Seq<char>>::empty(),
    {
        let r = NameSet { items: Vec::new() };
        assert(r.list() =~= Seq::<Seq<char>>::empty());
        r
    }

    /// Whether the set holds `name`.
    pub fn contains(&self, name: &str) -> (r: bool)
        requires
            self.wf(),
        ensures
            r == self.has(name@),
    {
        locate(&self.items, name).1
    }

    /// How many names the set holds.
    pub fn len(&self) -> (r: usize)
        ensures
            r == self.list().len(),
    {
        self.items.len()
    }

    /// Adds a name; tells whether it is new.
    pub fn insert(&mut self, name: &str) -> (r: bool)
        requires
            old(self).wf(),
        ensures
            final(self).wf(),
            r == !old(self).has(name@),
            forall|n: Seq<char>| #[trigger]
                final(self).has(n) <==> (old(self).has(n) || n == name@),
            !r ==> *final(self) == *old(self),
            r ==> final(self).list().len() == old(self).list().len() + 1,
    {
        let (at, found) = locate(&self.items, name);
        if found {
            return false;
        }
        let ghost before = texts(self.items@);
        let ghost items = self.items@;
        self.items.insert(at, name.to_owned());
        proof {
            let after = texts(self.items@);
            assert(after =~= before.insert(at as int, name@));
            lemma_ordered_insert(before, at as int, name@);
            assert forall|n: Seq<char>| #[trigger]
                self.has(n) <==> (before.contains(n) || n == name@) by {
                if before.contains(n) {
                    let k = before.index_of(n);
                    let m = if k < at { k } else { k + 1 };
                    assert(after[m] == n);
                }
                if n == name@ {
                    assert(after[at as int] == n);
                }
                if after.contains(n) && n != name@ {
                    let m = after.index_of(n);
                    let k = if m < at { m } else { m - 1 };
                    assert(before[k] == n);
                }
            }
        }
        true
    }

    /// Takes a name out; tells whether it was there.
    pub fn remove(&mut self, name: &str) -> (r: bool)
        requires
            old(self).wf(),
        ensures
            final(self).wf(),
            r == old(self).has(name@),
            forall|n: Seq<char>| #[trigger]
                final(self).has(n) <==> (old(self).has(n) && n != name@),
            !r ==> *final(self) == *old(self),
    {
        let (at, found) = locate(&self.items, name);
        if !found {
            return false;
        }
        let ghost before = texts(self.items@);
        self.items.remove(at);
        proof {
            let after = texts(self.items@);
            assert(after =~= before.remove(at as int));
            lemma_ordered_distinct(before);
            assert(ordered(after)) by {
                assert forall|i: int, j: int| 0 <= i < j < after.len() implies precedes(
                    #[trigger] after[i],
                    #[trigger] after[j],
                ) by {
                    let a = if i < at { i } else { i + 1 };
                    let b = if j < at { j } else { j + 1 };
                    assert(after[i] == before[a] && after[j] == before[b]);
                }
            }
            assert forall|n: Seq<char>| #[trigger]
                self.has(n) <==> (before.contains(n) && n != name@) by {
                if before.contains(n) && n != name@ {
                    let k = before.index_of(n);
                    let m = if k < at { k } else { k - 1 };
                    assert(after[m] == n);
                }
                if after.contains(n) {
                    let m = after.index_of(n);
                    let k = if m < at { m } else { m + 1 };
                    assert(before[k] == n);
                    assert(before[at as int] == name@);
                }
            }
        }
        true
    }

    /// Adds every name of `other`.
    pub fn extend(&mut self, other: &NameSet)
        requires
            old(self).wf(),
        ensures
            final(self).wf(),
            forall|n: Seq<char>| #[trigger]
                final(self).has(n) <==> (old(self).has(n) || other.has(n)),
            final(self).list().len() >= old(self).list().len(),
            final(self).list().len() == old(self).list().len() <==> within(other.list(), *old(self)),
            final(self).list().len() == old(self).list().len() ==> *final(self) == *old(self),
    {
        self.extend_list(&other.items);
    }

    /// Adds every name of a list.
    pub fn extend_list(&mut self, names: &Vec<String>)
        requires
            old(self).wf(),
        ensures
            final(self).wf(),
            forall|n: Seq<char>| #[trigger]
                final(self).has(n) <==> (old(self).has(n) || texts(names@).contains(n)),
            final(self).list().len() >= old(self).list().len(),
            final(self).list().len() == old(self).list().len() <==> within(
                texts(names@),
                *old(self),
            ),
            final(self).list().len() == old(self).list().len() ==> *final(self) == *old(self),
    {
        let ghost start = *self;
        let ghost all = texts(names@);
        let mut i: usize = 0;
        while i < names.len()
            invariant
                i <= names@.len(),
                all == texts(names@),
                self.wf(),
                start.wf(),
                forall|n: Seq<char>| #[trigger]
                    self.has(n) <==> (start.has(n) || all.take(i as int).contains(n)),
                self.list().len() >= start.list().len(),
                self.list().len() == start.list().len() <==> within(all.take(i as int), start),
                self.list().len() == start.list().len() ==> *self == start,
            decreases names@.len() - i,
        {
            let ghost before = *self;
            let fresh = self.insert(names[i].as_str());
            proof {
                let old_part = all.take(i as int);
                let new_part = all.take(i as int + 1);
                let item = all[i as int];
                assert(new_part =~= old_part.push(item));
                assert(new_part[i as int] == item);
                assert(forall|n: Seq<char>| #[trigger]
                    new_part.contains(n) <==> (old_part.contains(n) || n == item)) by {
                    assert forall|n: Seq<char>| #[trigger]
                        new_part.contains(n) <==> (old_part.contains(n) || n == item) by {
                        if old_part.contains(n) {
                            assert(new_part[old_part.index_of(n)] == n);
                        }
                        if new_part.contains(n) && n != item {
                            assert(old_part[new_part.index_of(n)] == n);
                        }
                    }
                }
                assert(fresh == !before.has(item));
                assert(new_part.contains(item));
                if fresh {
                    assert(!start.has(item));
                    assert(!within(new_part, start));
                } else {
                    if within(old_part, start) {
                        assert forall|n: Seq<char>| #[trigger] new_part.contains(n) implies start.has(
                            n,
                        ) by {
                            assert(before.has(n));
                        }
                    }
                    if within(new_part, start) {
                        assert forall|n: Seq<char>| #[trigger] old_part.contains(n) implies start.has(
                            n,
                        ) by {
                            assert(new_part.contains(n));
                        }
                    }
                }
            }
            i = i + 1;
        }
        assert(all.take(names@.len() as int) =~= all);
    }

    /// The same names in a set of its own.
    pub fn duplicate(&self) -> (r: NameSet)
        ensures
            r.list() == self.list(),
            self.wf() ==> r.wf(),
    {
        let items = duplicate_list(&self.items);
        NameSet { items }
    }
}

/// The same texts in a list of its own.
pub fn duplicate_list(names: &Vec<String>) -> (r: Vec<String>)
    ensures
        texts(r@) == texts(names@),
        r@.len() == names@.len(),
{
    let mut out: Vec<String> = Vec::new();
    let mut i: usize = 0;
    while i < names.len()
        invariant
            i <= names@.len(),
            out@.len() == i,
            forall|j: int| 0 <= j < i ==> out@[j]@ == names@[j]@,
        decreases names@.len() - i,
    {
        out.push(names[i].clone());
        i = i + 1;
    }
    assert(texts(out@) =~= texts(names@));
    out
}

/// Whether a list of texts holds `name`.
pub fn list_contains(names: &Vec<String>, name: &str) -> (r: bool)
    ensures
        r == texts(names@).contains(name@),
{
    let mut i: usize = 0;
    while i < names.len()
        invariant
            i <= names@.len(),
            forall|j: int| 0 <= j < i ==> texts(names@)[j] != name@,
        decreases names@.len() - i,
    {
        if same(names[i].as_str(), name) {
            assert(texts(names@)[i as int] == name@);
            return true;
        }
        i = i + 1;
    }
    false
}

/// A map from texts.
#[derive(Clone, Debug, PartialEq, Eq)]
pub struct NameMap<V> {
    pub keys: Vec<String>,
    pub values: Vec<V>,
}

impl<V> NameMap<V> {
    /// The keys are in order, each with its value.
    pub open spec fn wf(&self) -> bool {
        ordered(texts(self.keys@)) && self.values@.len() == self.keys@.len()
    }

    /// The keys in order.
    pub open spec fn list(&self) -> Seq<Seq<char>> {
        texts(self.keys@)
    }

    /// Whether the map holds the key.
    pub open spec fn has(&self, key: Seq<char>) -> bool {
        self.list().contains(key)
    }

    /// The value of a key that the map holds.
    pub open spec fn at(&self, key: Seq<char>) -> V {
        self.values@[self.list().index_of(key)]
    }

    /// The empty map.
    pub fn new() -> (r: NameMap<V>)
        ensures
            r.wf(),
            r.list() == Seq::<Seq<char>>::empty(),
    {
        let r: NameMap<V> = NameMap { keys: Vec::new(), values: Vec::new() };
        assert(r.list() =~= Seq::<Seq<char>>::empty());
        r
    }

    /// The value of a key.
    pub fn get(&self, key: &str) -> (r: Option<&V>)
        requires
            self.wf(),
        ensures
            r is Some <==> self.has(key@),
            r matches Some(v) ==> *v == self.at(key@),
    {
        let (at, found) = locate(&self.keys, key);
        if found {
            proof {
                lemma_ordered_distinct(self.list());
                assert(self.list()[at as int] == key@);
            }
            Some(&self.values[at])
        } else {
            None
        }
    }

    /// Gives a key its value, in place of the one it had.
    pub fn insert(&mut self, key: &str, value: V)
        requires
            old(self).wf(),
        ensures
            final(self).wf(),
            final(self).has(key@),
            final(self).at(key@) == value,
            forall|k: Seq<char>|
                k != key@ ==> (#[trigger] final(self).has(k) <==> old(self).has(k)),
            forall|k: Seq<char>|
                k != key@ && #[trigger] old(self).has(k) ==> final(self).at(k) == old(self).at(k),
    {
        let (at, found) = locate(&self.keys, key);
        let ghost before = *self;
        let ghost bk = self.list();
        if found {
            self.values.set(at, value);
            proof {
                lemma_ordered_distinct(bk);
                assert(bk[at as int] == key@);
                assert(bk.index_of(key@) == at);
                assert forall|k: Seq<char>| k != key@ && #[trigger] before.has(k) implies self.at(k)
                    == before.at(k) by {
                    assert(bk[bk.index_of(k)] == k);
                }
            }
        } else {
            self.keys.insert(at, key.to_owned());
            self.values.insert(at, value);
            proof {
                let after = texts(self.keys@);
                assert(after =~= bk.insert(at as int, key@));
                lemma_ordered_insert(bk, at as int, key@);
                lemma_ordered_distinct(after);
                lemma_ordered_distinct(bk);
                assert(after[at as int] == key@);
                assert forall|k: Seq<char>| k != key@ implies (#[trigger] self.has(k) <==> before.has(
                    k,
                )) && (before.has(k) ==> self.at(k) == before.at(k)) by {
                    if bk.contains(k) {
                        let x = bk.index_of(k);
                        let m = if x < at { x } else { x + 1 };
                        assert(after[m] == k);
                        assert(after.index_of(k) == m);
                    }
                    if after.contains(k) {
                        let m = after.index_of(k);
                        let x = if m < at { m } else { m - 1 };
                        assert(bk[x] == k);
                    }
                }
                assert forall|k: Seq<char>| k != key@ && #[trigger] before.has(k) implies self.at(k)
                    == before.at(k) by {
                    assert(self.has(k));
                }
            }
        }
    }

    /// Takes a key out; tells whether it was there.
    pub fn remove(&mut self, key: &str) -> (r: bool)
        requires
            old(self).wf(),
        ensures
            final(self).wf(),
            r == old(self).has(key@),
            !final(self).has(key@),
            forall|k: Seq<char>|
                k != key@ ==> (#[trigger] final(self).has(k) <==> old(self).has(k)),
            forall|k: Seq<char>|
                k != key@ && #[trigger] old(self).has(k) ==> final(self).at(k) == old(self).at(k),
            !r ==> *final(self) == *old(self),
    {
        let (at, found) = locate(&self.keys, key);
        if !found {
            return false;
        }
        let ghost before = *self;
        let ghost bk = self.list();
        self.keys.remove(at);
        self.values.remove(at);
        proof {
            let after = texts(self.keys@);
            assert(after =~= bk.remove(at as int));
            lemma_ordered_distinct(bk);
            assert(ordered(after)) by {
                assert forall|i: int, j: int| 0 <= i < j < after.len() implies precedes(
                    #[trigger] after[i],
                    #[trigger] after[j],
                ) by {
                    let a = if i < at { i } else { i + 1 };
                    let b = if j < at { j } else { j + 1 };
                    assert(after[i] == bk[a] && after[j] == bk[b]);
                }
            }
            lemma_ordered_distinct(after);
            assert(bk[at as int] == key@);
            assert forall|k: Seq<char>| k != key@ implies (#[trigger] self.has(k) <==> before.has(k))
                && (before.has(k) ==> self.at(k) == before.at(k)) by {
                if bk.contains(k) {
                    let x = bk.index_of(k);
                    let m = if x < at { x } else { x - 1 };
                    assert(after[m] == k);
                    assert(after.index_of(k) == m);
                }
                if after.contains(k) {
                    let m = after.index_of(k);
                    let x = if m < at { m } else { m + 1 };
                    assert(bk[x] == k);
                }
            }
            assert forall|k: Seq<char>| k != key@ && #[trigger] before.has(k) implies self.at(k)
                == before.at(k) by {
                assert(self.has(k));
            }
            if after.contains(key@) {
                let m = after.index_of(key@);
                let x = if m < at { m } else { m + 1 };
                assert(bk[x] == key@);
            }
        }
        true
    }
}

} // verus!
