use vstd::prelude::*;

use crate::text::{chars_of, chars_starts_with, starts_with};

verus! {

/// The entry at `i` has key `k`.
pub open spec fn key_at<T>(es: Seq<(Seq<char>, T)>, k: Seq<char>, i: int) -> bool {
    0 <= i < es.len() && es[i].0 == k
}

/// No key occurs twice.
pub open spec fn keys_unique<T>(es: Seq<(Seq<char>, T)>) -> bool {
    forall|i: int, j: int| 0 <= i < es.len() && 0 <= j < es.len() && i != j ==> es[i].0 != es[j].0
}

/// The map that a list of entries with distinct keys denotes.
pub open spec fn entries_map<T>(es: Seq<(Seq<char>, T)>) -> Map<Seq<char>, T> {
    Map::new(
        |k: Seq<char>| exists|i: int| key_at(es, k, i),
        |k: Seq<char>| es[choose|i: int| key_at(es, k, i)].1,
    )
}

/// A map keyed by text, kept as a list of entries in insertion order.
#[derive(Debug)]
pub struct StrMap<T> {
    entries: Vec<(String, T)>,
}

impl<T> StrMap<T> {
    /// The entries, each key taken as its text.
    pub closed spec fn entries(&self) -> Seq<(Seq<char>, T)> {
        Seq::new(self.entries@.len(), |i: int| (self.entries@[i].0@, self.entries@[i].1))
    }

    /// Keys are distinct.
    pub open spec fn wf(&self) -> bool {
        keys_unique(self.entries())
    }

    /// The values, in insertion order.
    pub open spec fn values(&self) -> Seq<T> {
        Seq::new(self.entries().len(), |i: int| self.entries()[i].1)
    }

    /// The map denoted.
    pub open spec fn map(&self) -> Map<Seq<char>, T> {
        entries_map(self.entries())
    }
}

impl<T> View for StrMap<T> {
    type V = Map<Seq<char>, T>;

    open spec fn view(&self) -> Map<Seq<char>, T> {
        self.map()
    }
}

/// The value held at the entry with key `k` is the value of `k`.
pub proof fn lemma_entries_lookup<T>(es: Seq<(Seq<char>, T)>, i: int)
    requires
        keys_unique(es),
        0 <= i < es.len(),
    ensures
        entries_map(es).contains_key(es[i].0),
        entries_map(es)[es[i].0] == es[i].1,
{
    assert(key_at(es, es[i].0, i));
    let j = choose|j: int| key_at(es, es[i].0, j);
    assert(i == j);
}

/// A key of the map is the key of some entry.
pub proof fn lemma_entries_find<T>(es: Seq<(Seq<char>, T)>, k: Seq<char>) -> (i: int)
    requires
        entries_map(es).contains_key(k),
    ensures
        0 <= i < es.len(),
        es[i].0 == k,
{
    choose|i: int| key_at(es, k, i)
}

/// A key that no entry has is not in the map.
pub proof fn lemma_entries_absent<T>(es: Seq<(Seq<char>, T)>, k: Seq<char>)
    requires
        forall|i: int| 0 <= i < es.len() ==> es[i].0 != k,
    ensures
        !entries_map(es).contains_key(k),
{
}

proof fn lemma_entries_push<T>(es: Seq<(Seq<char>, T)>, k: Seq<char>, v: T)
    requires
        keys_unique(es),
        !entries_map(es).contains_key(k),
    ensures
        keys_unique(es.push((k, v))),
        entries_map(es.push((k, v))) == entries_map(es).insert(k, v),
{
    let es2 = es.push((k, v));
    assert forall|i: int| 0 <= i < es.len() implies es[i].0 != k by {
        if es[i].0 == k {
            assert(key_at(es, k, i));
        }
    }
    let m1 = entries_map(es2);
    let m2 = entries_map(es).insert(k, v);
    assert forall|x: Seq<char>| m1.contains_key(x) <==> m2.contains_key(x) by {
        if m1.contains_key(x) {
            let i = choose|i: int| key_at(es2, x, i);
            if i < es.len() {
                assert(key_at(es, x, i));
            }
        }
        if m2.contains_key(x) && x != k {
            let i = choose|i: int| key_at(es, x, i);
            assert(key_at(es2, x, i));
        }
        if x == k {
            assert(key_at(es2, x, es.len() as int));
        }
    }
    assert forall|x: Seq<char>| m1.contains_key(x) implies m1[x] == m2[x] by {
        let i = choose|i: int| key_at(es2, x, i);
        lemma_entries_lookup(es2, i);
        if i < es.len() {
            lemma_entries_lookup(es, i);
        }
    }
    assert(m1 =~= m2);
}

proof fn lemma_entries_update<T>(es: Seq<(Seq<char>, T)>, i: int, v: T)
    requires
        keys_unique(es),
        0 <= i < es.len(),
    ensures
        keys_unique(es.update(i, (es[i].0, v))),
        entries_map(es.update(i, (es[i].0, v))) == entries_map(es).insert(es[i].0, v),
{
    let k = es[i].0;
    let es2 = es.update(i, (k, v));
    let m1 = entries_map(es2);
    let m2 = entries_map(es).insert(k, v);
    assert forall|x: Seq<char>| m1.contains_key(x) <==> m2.contains_key(x) by {
        if m1.contains_key(x) {
            let j = choose|j: int| key_at(es2, x, j);
            assert(key_at(es, x, j));
        }
        if m2.contains_key(x) && x != k {
            let j = choose|j: int| key_at(es, x, j);
            assert(key_at(es2, x, j));
        }
        if x == k {
            assert(key_at(es2, x, i));
        }
    }
    assert forall|x: Seq<char>| m1.contains_key(x) implies m1[x] == m2[x] by {
        let j = choose|j: int| key_at(es2, x, j);
        lemma_entries_lookup(es2, j);
        if j != i {
            lemma_entries_lookup(es, j);
        }
    }
    assert(m1 =~= m2);
}

proof fn lemma_entries_remove<T>(es: Seq<(Seq<char>, T)>, i: int)
    requires
        keys_unique(es),
        0 <= i < es.len(),
    ensures
        keys_unique(es.remove(i)),
        entries_map(es.remove(i)) == entries_map(es).remove(es[i].0),
{
    let k = es[i].0;
    let es2 = es.remove(i);
    let m1 = entries_map(es2);
    let m2 = entries_map(es).remove(k);
    assert forall|a: int, b: int|
        0 <= a < es2.len() && 0 <= b < es2.len() && a != b implies es2[a].0 != es2[b].0 by {
        let a1 = if a < i {
            a
        } else {
            a + 1
        };
        let b1 = if b < i {
            b
        } else {
            b + 1
        };
        assert(es2[a] == es[a1]);
        assert(es2[b] == es[b1]);
    }
    assert forall|x: Seq<char>| m1.contains_key(x) <==> m2.contains_key(x) by {
        if m1.contains_key(x) {
            let j = choose|j: int| key_at(es2, x, j);
            let j1 = if j < i {
                j
            } else {
                j + 1
            };
            assert(es2[j] == es[j1]);
            assert(key_at(es, x, j1));
            assert(j1 != i);
        }
        if m2.contains_key(x) {
            let j = choose|j: int| key_at(es, x, j);
            assert(j != i);
            let j2 = if j < i {
                j
            } else {
                j - 1
            };
            assert(es2[j2] == es[j]);
            assert(key_at(es2, x, j2));
        }
    }
    assert forall|x: Seq<char>| m1.contains_key(x) implies m1[x] == m2[x] by {
        let j = choose|j: int| key_at(es2, x, j);
        let j1 = if j < i {
            j
        } else {
            j + 1
        };
        assert(es2[j] == es[j1]);
        lemma_entries_lookup(es2, j);
        lemma_entries_lookup(es, j1);
    }
    assert(m1 =~= m2);
}

/// The map has as many keys as there are entries.
pub proof fn lemma_entries_len<T>(es: Seq<(Seq<char>, T)>)
    requires
        keys_unique(es),
    ensures
        entries_map(es).dom().finite(),
        entries_map(es).dom().len() == es.len(),
    decreases es.len(),
{
    if es.len() == 0 {
        assert(entries_map(es).dom() =~= Set::<Seq<char>>::empty());
    } else {
        let init = es.drop_last();
        let last = es.last();
        assert(keys_unique(init));
        lemma_entries_len(init);
        assert forall|i: int| 0 <= i < init.len() implies init[i].0 != last.0 by {
            assert(es[i] == init[i]);
        }
        lemma_entries_absent(init, last.0);
        lemma_entries_push(init, last.0, last.1);
        assert(init.push((last.0, last.1)) =~= es);
    }
}

impl<T> StrMap<T> {
    /// An empty map.
    pub fn new() -> (m: Self)
        ensures
            m.wf(),
            m@ == Map::<Seq<char>, T>::empty(),
            m.entries().len() == 0,
    {
        let m = StrMap { entries: Vec::new() };
        proof {
            assert(m@ =~= Map::<Seq<char>, T>::empty());
        }
        m
    }

    /// The number of keys.
    pub fn len(&self) -> (n: usize)
        requires
            self.wf(),
        ensures
            n == self@.dom().len(),
            n == self.entries().len(),
            self@.dom().finite(),
    {
        proof {
            lemma_entries_len(self.entries());
        }
        self.entries.len()
    }

    /// The key of the entry at position `i`.
    pub fn key_at(&self, i: usize) -> (k: &String)
        requires
            i < self.entries().len(),
        ensures
            k@ == self.entries()[i as int].0,
    {
        &self.entries[i].0
    }

    /// The value of the entry at position `i`.
    pub fn value_at(&self, i: usize) -> (v: &T)
        requires
            i < self.entries().len(),
        ensures
            *v == self.entries()[i as int].1,
    {
        &self.entries[i].1
    }

    /// The position of the entry with key `k`, if there is one.
    pub fn find(&self, k: &str) -> (r: Option<usize>)
        requires
            self.wf(),
        ensures
            match r {
                Some(i) => i < self.entries().len() && self.entries()[i as int].0 == k@
                    && self@.contains_key(k@) && self@[k@] == self.entries()[i as int].1,
                None => !self@.contains_key(k@),
            },
    {
        let key = k.to_owned();
        let mut i: usize = 0;
        while i < self.entries.len()
            invariant
                i <= self.entries@.len(),
                self.wf(),
                key@ == k@,
                forall|j: int| 0 <= j < i ==> self.entries()[j].0 != k@,
            decreases self.entries@.len() - i,
        {
            if self.entries[i].0 == key {
                proof {
                    lemma_entries_lookup(self.entries(), i as int);
                }
                return Some(i);
            }
            i = i + 1;
        }
        proof {
            lemma_entries_absent(self.entries(), k@);
        }
        None
    }

    /// Whether `k` is a key.
    pub fn contains_key(&self, k: &str) -> (r: bool)
        requires
            self.wf(),
        ensures
            r == self@.contains_key(k@),
    {
        self.find(k).is_some()
    }

    /// The value of `k`, if it is a key.
    pub fn get(&self, k: &str) -> (r: Option<&T>)
        requires
            self.wf(),
        ensures
            match r {
                Some(v) => self@.contains_key(k@) && *v == self@[k@],
                None => !self@.contains_key(k@),
            },
    {
        match self.find(k) {
            Some(i) => Some(&self.entries[i].1),
            None => None,
        }
    }

    /// Sets the value of `k`; a new key goes after all others.
    pub fn insert(&mut self, k: String, v: T)
        requires
            old(self).wf(),
        ensures
            final(self).wf(),
            final(self)@ == old(self)@.insert(k@, v),
            old(self)@.contains_key(k@) ==> final(self).entries().len() == old(self).entries().len(),
            !old(self)@.contains_key(k@) ==> final(self).entries() == old(self).entries().push(
                (k@, v),
            ),
    {
        match self.find(k.as_str()) {
            Some(i) => {
                let ghost es = self.entries();
                self.entries[i] = (k, v);
                proof {
                    assert(self.entries() =~= es.update(i as int, (es[i as int].0, v)));
                    lemma_entries_update(es, i as int, v);
                }
            },
            None => {
                let ghost es = self.entries();
                let ghost kv = k@;
                self.entries.push((k, v));
                proof {
                    assert(self.entries() =~= es.push((kv, v)));
                    lemma_entries_push(es, kv, v);
                }
            },
        }
    }

    /// Adds an entry for a key that is not present; it goes after all others.
    pub fn push_new(&mut self, k: String, v: T)
        requires
            old(self).wf(),
            !old(self)@.contains_key(k@),
        ensures
            final(self).wf(),
            final(self)@ == old(self)@.insert(k@, v),
            final(self).entries() == old(self).entries().push((k@, v)),
    {
        let ghost es = self.entries();
        let ghost kv = k@;
        self.entries.push((k, v));
        proof {
            assert(self.entries() =~= es.push((kv, v)));
            lemma_entries_push(es, kv, v);
        }
    }

    /// Removes the entry at position `i` and returns it.
    pub fn remove_at(&mut self, i: usize) -> (r: (String, T))
        requires
            old(self).wf(),
            i < old(self).entries().len(),
        ensures
            final(self).wf(),
            r.0@ == old(self).entries()[i as int].0,
            r.1 == old(self).entries()[i as int].1,
            final(self).entries() == old(self).entries().remove(i as int),
            final(self)@ == old(self)@.remove(r.0@),
    {
        let ghost es = self.entries();
        let r = self.entries.remove(i);
        proof {
            assert(self.entries() =~= es.remove(i as int));
            lemma_entries_remove(es, i as int);
        }
        r
    }

    /// Removes `k`, returning its value if it was a key.
    pub fn remove(&mut self, k: &str) -> (r: Option<T>)
        requires
            old(self).wf(),
        ensures
            final(self).wf(),
            final(self)@ == old(self)@.remove(k@),
            match r {
                Some(v) => old(self)@.contains_key(k@) && v == old(self)@[k@],
                None => !old(self)@.contains_key(k@),
            },
    {
        match self.find(k) {
            Some(i) => {
                let (_, v) = self.remove_at(i);
                Some(v)
            },
            None => {
                proof {
                    assert(self@.remove(k@) =~= self@);
                }
                None
            },
        }
    }
}

/// The entries of `m` whose value is at least `cutoff`.
pub open spec fn at_least(m: Map<Seq<char>, u64>, cutoff: u64) -> Map<Seq<char>, u64> {
    Map::new(|k: Seq<char>| m.contains_key(k) && m[k] >= cutoff, |k: Seq<char>| m[k])
}

impl StrMap<u64> {
    /// Keeps the entries whose value is at least `cutoff` (`retain(|_, v| *v >= cutoff)`).
    pub fn retain_at_least(&mut self, cutoff: u64)
        requires
            old(self).wf(),
        ensures
            final(self).wf(),
            final(self)@ == at_least(old(self)@, cutoff),
    {
        let ghost es = self.entries();
        let ghost old_map = self@;
        let mut kept: StrMap<u64> = StrMap::new();
        let n = self.len();
        let mut i: usize = 0;
        while i < n
            invariant
                es == self.entries(),
                old_map == self@,
                self.wf(),
                n == es.len(),
                i <= n,
                kept.wf(),
                forall|k: Seq<char>|
                    #[trigger] kept@.contains_key(k) <==> exists|j: int|
                        0 <= j < i && es[j].0 == k && es[j].1 >= cutoff,
                forall|k: Seq<char>| #[trigger] kept@.contains_key(k) ==> kept@[k] == old_map[k],
            decreases n - i,
        {
            let v = *self.value_at(i);
            proof {
                lemma_entries_lookup(es, i as int);
            }
            if v >= cutoff {
                let k = self.key_at(i).clone();
                proof {
                    if kept@.contains_key(k@) {
                        let j = choose|j: int| 0 <= j < i && es[j].0 == k@ && es[j].1 >= cutoff;
                        assert(es[j].0 == es[i as int].0);
                    }
                }
                let ghost old_kept = kept@;
                kept.push_new(k, v);
                proof {
                    assert forall|x: Seq<char>| #[trigger] kept@.contains_key(x) <==> exists|j: int|
                        0 <= j < i + 1 && es[j].0 == x && es[j].1 >= cutoff by {
                        if x == es[i as int].0 {
                            assert(es[i as int].1 >= cutoff);
                        } else if exists|j: int| 0 <= j < i + 1 && es[j].0 == x && es[j].1 >= cutoff {
                            let j = choose|j: int| 0 <= j < i + 1 && es[j].0 == x && es[j].1 >= cutoff;
                            assert(j != i);
                        }
                    }
                    assert forall|x: Seq<char>| #[trigger] kept@.contains_key(x) implies kept@[x]
                        == old_map[x] by {
                        if x != es[i as int].0 {
                            assert(old_kept.contains_key(x));
                        }
                    }
                }
            } else {
                proof {
                    assert forall|x: Seq<char>| #[trigger] kept@.contains_key(x) <==> exists|j: int|
                        0 <= j < i + 1 && es[j].0 == x && es[j].1 >= cutoff by {
                        if exists|j: int| 0 <= j < i + 1 && es[j].0 == x && es[j].1 >= cutoff {
                            let j = choose|j: int| 0 <= j < i + 1 && es[j].0 == x && es[j].1 >= cutoff;
                            assert(j != i);
                        }
                    }
                }
            }
            i = i + 1;
        }
        proof {
            assert forall|x: Seq<char>| kept@.contains_key(x) <==> at_least(old_map, cutoff).contains_key(x) by {
                if old_map.contains_key(x) {
                    let j = choose|j: int| key_at(es, x, j);
                    lemma_entries_lookup(es, j);
                }
                if exists|j: int| 0 <= j < n && es[j].0 == x && es[j].1 >= cutoff {
                    let j = choose|j: int| 0 <= j < n && es[j].0 == x && es[j].1 >= cutoff;
                    lemma_entries_lookup(es, j);
                }
            }
            assert(kept@ =~= at_least(old_map, cutoff));
        }
        *self = kept;
    }
}

/// The entries whose key does not start with `prefix`.
pub open spec fn without_prefix(m: Map<Seq<char>, String>, prefix: Seq<char>) -> Map<Seq<char>, String> {
    Map::new(|k: Seq<char>| m.contains_key(k) && !starts_with(k, prefix), |k: Seq<char>| m[k])
}

impl StrMap<String> {
    /// Drops the entries whose key starts with `prefix` (`retain(|k, _| !k.starts_with(prefix))`).
    pub fn retain_without_prefix(&mut self, prefix: &str)
        requires
            old(self).wf(),
        ensures
            final(self).wf(),
            final(self)@ == without_prefix(old(self)@, prefix@),
    {
        let ghost es = self.entries();
        let ghost old_map = self@;
        let pv = chars_of(prefix);
        let mut kept: StrMap<String> = StrMap::new();
        let n = self.len();
        let mut i: usize = 0;
        while i < n
            invariant
                es == self.entries(),
                old_map == self@,
                self.wf(),
                n == es.len(),
                i <= n,
                pv@ == prefix@,
                kept.wf(),
                forall|k: Seq<char>|
                    #[trigger] kept@.contains_key(k) <==> exists|j: int|
                        0 <= j < i && es[j].0 == k && !starts_with(k, prefix@),
                forall|k: Seq<char>| #[trigger] kept@.contains_key(k) ==> kept@[k] == old_map[k],
            decreases n - i,
        {
            proof {
                lemma_entries_lookup(es, i as int);
            }
            let kv = chars_of(self.key_at(i).as_str());
            if !chars_starts_with(&kv, &pv) {
                let k = self.key_at(i).clone();
                let v = self.value_at(i).clone();
                proof {
                    if kept@.contains_key(k@) {
                        let j = choose|j: int| 0 <= j < i && es[j].0 == k@ && !starts_with(k@, prefix@);
                        assert(es[j].0 == es[i as int].0);
                    }
                }
                let ghost old_kept = kept@;
                kept.push_new(k, v);
                proof {
                    assert forall|x: Seq<char>| #[trigger] kept@.contains_key(x) <==> exists|j: int|
                        0 <= j < i + 1 && es[j].0 == x && !starts_with(x, prefix@) by {
                        if x == es[i as int].0 {
                        } else if exists|j: int| 0 <= j < i + 1 && es[j].0 == x && !starts_with(x, prefix@) {
                            let j = choose|j: int| 0 <= j < i + 1 && es[j].0 == x && !starts_with(x, prefix@);
                            assert(j != i);
                        }
                    }
                    assert forall|x: Seq<char>| #[trigger] kept@.contains_key(x) implies kept@[x]
                        == old_map[x] by {
                        if x != es[i as int].0 {
                            assert(old_kept.contains_key(x));
                        }
                    }
                }
            } else {
                proof {
                    assert forall|x: Seq<char>| #[trigger] kept@.contains_key(x) <==> exists|j: int|
                        0 <= j < i + 1 && es[j].0 == x && !starts_with(x, prefix@) by {
                        if exists|j: int| 0 <= j < i + 1 && es[j].0 == x && !starts_with(x, prefix@) {
                            let j = choose|j: int| 0 <= j < i + 1 && es[j].0 == x && !starts_with(x, prefix@);
                            assert(j != i);
                        }
                    }
                }
            }
            i = i + 1;
        }
        proof {
            assert forall|x: Seq<char>| kept@.contains_key(x) <==> without_prefix(old_map, prefix@).contains_key(x) by {
                if old_map.contains_key(x) {
                    let j = choose|j: int| key_at(es, x, j);
                    lemma_entries_lookup(es, j);
                }
                if exists|j: int| 0 <= j < n && es[j].0 == x && !starts_with(x, prefix@) {
                    let j = choose|j: int| 0 <= j < n && es[j].0 == x && !starts_with(x, prefix@);
                    lemma_entries_lookup(es, j);
                }
            }
            assert(kept@ =~= without_prefix(old_map, prefix@));
        }
        *self = kept;
    }
}

} // verus!
