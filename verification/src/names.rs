//! Finite maps and sets keyed by names, kept as association lists in which no name occurs twice.
use vstd::prelude::*;
use crate::text::same_text;

verus! {

/// Whether some entry of the list has the key `k`.
pub open spec fn has_key<V>(s: Seq<(String, V)>, k: Seq<char>) -> bool {
    exists|i: int| 0 <= i < s.len() && (#[trigger] s[i]).0@ == k
}

/// The position of an entry with the key `k`.
pub open spec fn key_index<V>(s: Seq<(String, V)>, k: Seq<char>) -> int {
    choose|i: int| 0 <= i < s.len() && (#[trigger] s[i]).0@ == k
}

/// Whether no two entries of the list have the same key.
pub open spec fn distinct_keys<V>(s: Seq<(String, V)>) -> bool {
    forall|i: int, j: int|
        0 <= i < s.len() && 0 <= j < s.len() && (#[trigger] s[i]).0@ == (#[trigger] s[j]).0@ ==> i
            == j
}

/// The map that an association list stands for.
pub open spec fn as_map<V: View>(s: Seq<(String, V)>) -> Map<Seq<char>, V::V> {
    Map::new(|k: Seq<char>| has_key(s, k), |k: Seq<char>| s[key_index(s, k)].1@)
}

/// A map from names to values.
pub struct NameMap<V> {
    pub entries: Vec<(String, V)>,
}

impl<V: View> View for NameMap<V> {
    type V = Map<Seq<char>, V::V>;

    open spec fn view(&self) -> Map<Seq<char>, V::V> {
        as_map(self.entries@)
    }
}

pub proof fn lemma_key_at<V: View>(s: Seq<(String, V)>, i: int)
    requires
        distinct_keys(s),
        0 <= i < s.len(),
    ensures
        has_key(s, s[i].0@),
        key_index(s, s[i].0@) == i,
        as_map(s).dom().contains(s[i].0@),
        as_map(s)[s[i].0@] == s[i].1@,
{
    assert(s[i].0@ == s[i].0@);
    let k = s[i].0@;
    assert(has_key(s, k));
    let j = key_index(s, k);
    assert(0 <= j < s.len() && s[j].0@ == k);
}

impl<V: View> NameMap<V> {
    /// No name occurs twice.
    pub open spec fn wf(&self) -> bool {
        distinct_keys(self.entries@)
    }

    /// The empty map.
    pub fn new() -> (r: Self)
        ensures
            r.wf(),
            r@ == Map::<Seq<char>, V::V>::empty(),
            r.entries@.len() == 0,
    {
        let r = NameMap { entries: Vec::new() };
        assert(r@ =~= Map::<Seq<char>, V::V>::empty());
        r
    }

    /// The position of the entry for `name`.
    pub fn position(&self, name: &str) -> (r: Option<usize>)
        requires
            self.wf(),
        ensures
            match r {
                Some(i) => i < self.entries@.len() && self.entries@[i as int].0@ == name@
                    && self@.dom().contains(name@) && self@[name@] == self.entries@[i as int].1@,
                None => !self@.dom().contains(name@),
            },
    {
        let mut i: usize = 0;
        while i < self.entries.len()
            invariant
                self.wf(),
                i <= self.entries@.len(),
                forall|k: int| 0 <= k < i ==> (#[trigger] self.entries@[k]).0@ != name@,
            decreases self.entries@.len() - i,
        {
            if same_text(self.entries[i].0.as_str(), name) {
                proof {
                    lemma_key_at(self.entries@, i as int);
                }
                return Some(i);
            }
            i += 1;
        }
        None
    }

    /// The value of `name`, if it has one.
    pub fn get(&self, name: &str) -> (r: Option<&V>)
        requires
            self.wf(),
        ensures
            match r {
                Some(v) => self@.dom().contains(name@) && self@[name@] == v@,
                None => !self@.dom().contains(name@),
            },
    {
        match self.position(name) {
            Some(i) => Some(&self.entries[i].1),
            None => None,
        }
    }

    /// Whether `name` has a value.
    pub fn contains(&self, name: &str) -> (r: bool)
        requires
            self.wf(),
        ensures
            r == self@.dom().contains(name@),
    {
        match self.position(name) {
            Some(_) => true,
            None => false,
        }
    }

    /// Take the value of `name` out of the map.
    pub fn take(&mut self, name: &str) -> (r: Option<V>)
        requires
            old(self).wf(),
        ensures
            final(self).wf(),
            final(self)@ == old(self)@.remove(name@),
            match r {
                Some(v) => old(self)@.dom().contains(name@) && old(self)@[name@] == v@,
                None => !old(self)@.dom().contains(name@),
            },
    {
        match self.position(name) {
            Some(i) => {
                let ghost before = self.entries@;
                let (_, v) = self.entries.remove(i);
                let ghost after = self.entries@;
                proof {
                    assert(after =~= before.remove(i as int));
                    assert forall|a: int, b: int|
                        0 <= a < after.len() && 0 <= b < after.len() && (#[trigger] after[a]).0@
                            == (#[trigger] after[b]).0@ implies a == b by {
                        let x = if a < i { a } else { a + 1 };
                        let y = if b < i { b } else { b + 1 };
                        assert(before[x].0@ == before[y].0@);
                    }
                    assert forall|k: Seq<char>| #[trigger]
                        as_map(after).dom().contains(k) implies as_map(before).remove(
                        name@,
                    ).dom().contains(k) && as_map(after)[k] == as_map(before)[k] by {
                        let a = key_index(after, k);
                        let x = if a < i { a } else { a + 1 };
                        assert(before[x] == after[a]);
                        lemma_key_at(before, x);
                        lemma_key_at(before, i as int);
                    }
                    assert forall|k: Seq<char>| #[trigger]
                        as_map(before).remove(name@).dom().contains(k) implies as_map(
                        after,
                    ).dom().contains(k) by {
                        let a = key_index(before, k);
                        let x = if a < i { a } else { a - 1 };
                        assert(after[x] == before[a]);
                        lemma_key_at(after, x);
                    }
                    assert(as_map(after) =~= as_map(before).remove(name@));
                }
                Some(v)
            },
            None => {
                assert(self@.remove(name@) =~= self@);
                None
            },
        }
    }

    /// Forget `name`.
    pub fn remove(&mut self, name: &str)
        requires
            old(self).wf(),
        ensures
            final(self).wf(),
            final(self)@ == old(self)@.remove(name@),
    {
        let _ = self.take(name);
    }

    /// Give `name` the value `value`.
    pub fn insert(&mut self, name: &str, value: V)
        requires
            old(self).wf(),
        ensures
            final(self).wf(),
            final(self)@ == old(self)@.insert(name@, value@),
    {
        self.remove(name);
        let ghost before = self.entries@;
        let ghost old_map = old(self)@;
        self.entries.push((name.to_owned(), value));
        let ghost after = self.entries@;
        proof {
            assert forall|a: int, b: int|
                0 <= a < after.len() && 0 <= b < after.len() && (#[trigger] after[a]).0@ == (
                #[trigger] after[b]).0@ implies a == b by {
                if a < before.len() && b < before.len() {
                    assert(before[a].0@ == before[b].0@);
                } else if a < before.len() {
                    lemma_key_at(before, a);
                    assert(as_map(before).dom().contains(name@));
                } else if b < before.len() {
                    lemma_key_at(before, b);
                    assert(as_map(before).dom().contains(name@));
                }
            }
            let expected = old_map.insert(name@, value@);
            assert forall|k: Seq<char>| #[trigger] as_map(after).dom().contains(k) implies expected.dom().contains(k) && as_map(after)[k] == expected[k] by {
                let a = key_index(after, k);
                lemma_key_at(after, a);
                if a < before.len() {
                    assert(before[a] == after[a]);
                    lemma_key_at(before, a);
                    assert(as_map(before).dom().contains(k));
                }
            }
            assert forall|k: Seq<char>| #[trigger] expected.dom().contains(k) implies as_map(after).dom().contains(k) by {
                if k == name@ {
                    lemma_key_at(after, before.len() as int);
                } else {
                    assert(as_map(before).dom().contains(k));
                    let a = key_index(before, k);
                    assert(after[a] == before[a]);
                    lemma_key_at(after, a);
                }
            }
            assert(as_map(after) =~= expected);
        }
    }
}

/// A set of names.
pub struct NameSet {
    pub items: Vec<String>,
}

impl View for NameSet {
    type V = Set<Seq<char>>;

    open spec fn view(&self) -> Set<Seq<char>> {
        Set::new(|k: Seq<char>| exists|i: int| 0 <= i < self.items@.len() && (#[trigger] self.items@[i])@ == k)
    }
}

impl NameSet {
    /// The empty set.
    pub fn new() -> (r: Self)
        ensures
            r@ == Set::<Seq<char>>::empty(),
    {
        let r = NameSet { items: Vec::new() };
        assert(r@ =~= Set::<Seq<char>>::empty());
        r
    }

    /// A copy of the set.
    pub fn copy(&self) -> (r: Self)
        ensures
            r@ == self@,
            r.items@ == self.items@,
    {
        let items: Vec<String> = crate::text::copy_texts(&self.items);
        NameSet { items }
    }

    /// Whether `name` is in the set.
    pub fn contains(&self, name: &str) -> (r: bool)
        ensures
            r == self@.contains(name@),
    {
        let mut i: usize = 0;
        while i < self.items.len()
            invariant
                i <= self.items@.len(),
                forall|k: int| 0 <= k < i ==> (#[trigger] self.items@[k])@ != name@,
            decreases self.items@.len() - i,
        {
            if same_text(self.items[i].as_str(), name) {
                return true;
            }
            i += 1;
        }
        false
    }

    /// The names that are in another set too.
    pub fn meet(&self, other: &NameSet) -> (r: Self)
        ensures
            r@ == self@.intersect(other@),
    {
        let mut kept: NameSet = NameSet::new();
        let mut i: usize = 0;
        while i < self.items.len()
            invariant
                i <= self.items@.len(),
                forall|k: Seq<char>| #[trigger]
                    kept@.contains(k) <==> other@.contains(k) && exists|j: int|
                        0 <= j < i && (#[trigger] self.items@[j])@ == k,
            decreases self.items@.len() - i,
        {
            let ghost before = kept@;
            let name: &str = self.items[i].as_str();
            if other.contains(name) {
                kept.insert(name);
            }
            assert forall|k: Seq<char>| #[trigger] kept@.contains(k) <==> other@.contains(k)
                && exists|j: int| 0 <= j < i + 1 && (#[trigger] self.items@[j])@ == k by {
                if k == name@ {
                    assert(self.items@[i as int]@ == k);
                } else if kept@.contains(k) {
                    assert(before.contains(k));
                    let j = choose|j: int| 0 <= j < i && (#[trigger] self.items@[j])@ == k;
                    assert(self.items@[j]@ == k);
                } else if exists|j: int| 0 <= j < i + 1 && (#[trigger] self.items@[j])@ == k {
                    let j = choose|j: int| 0 <= j < i + 1 && (#[trigger] self.items@[j])@ == k;
                    assert(j < i);
                    assert(!before.contains(k));
                }
            }
            i += 1;
        }
        assert(kept@ =~= self@.intersect(other@));
        kept
    }

    /// Put `name` into the set.
    pub fn insert(&mut self, name: &str)
        ensures
            final(self)@ == old(self)@.insert(name@),
    {
        let ghost before = self.items@;
        self.items.push(name.to_owned());
        proof {
            let after = self.items@;
            assert forall|k: Seq<char>| #[trigger] self@.contains(k) implies old(self)@.insert(name@).contains(k) by {
                let i = choose|i: int| 0 <= i < after.len() && (#[trigger] after[i])@ == k;
                if i < before.len() {
                    assert(before[i]@ == k);
                }
            }
            assert forall|k: Seq<char>| #[trigger] old(self)@.insert(name@).contains(k) implies self@.contains(k) by {
                if k == name@ {
                    assert(after[before.len() as int]@ == k);
                } else {
                    let i = choose|i: int| 0 <= i < before.len() && (#[trigger] before[i])@ == k;
                    assert(after[i]@ == k);
                }
            }
            assert(self@ =~= old(self)@.insert(name@));
        }
    }

    /// Take `name` out of the set.
    pub fn remove(&mut self, name: &str)
        ensures
            final(self)@ == old(self)@.remove(name@),
    {
        let mut kept: Vec<String> = Vec::new();
        let mut i: usize = 0;
        while i < self.items.len()
            invariant
                i <= self.items@.len(),
                forall|k: int| 0 <= k < kept@.len() ==> (#[trigger] kept@[k])@ != name@ && exists|j: int| 0 <= j < i && (#[trigger] self.items@[j])@ == kept@[k]@,
                forall|j: int| 0 <= j < i && (#[trigger] self.items@[j])@ != name@ ==> exists|k: int| 0 <= k < kept@.len() && (#[trigger] kept@[k])@ == self.items@[j]@,
            decreases self.items@.len() - i,
        {
            let ghost before = kept@;
            if !same_text(self.items[i].as_str(), name) {
                kept.push(self.items[i].clone());
                assert(kept@[before.len() as int]@ == self.items@[i as int]@);
            }
            assert forall|j: int| 0 <= j < i + 1 && (#[trigger] self.items@[j])@ != name@ implies exists|k: int| 0 <= k < kept@.len() && (#[trigger] kept@[k])@ == self.items@[j]@ by {
                if j < i {
                    let k = choose|k: int| 0 <= k < before.len() && (#[trigger] before[k])@ == self.items@[j]@;
                    assert(kept@[k] == before[k]);
                }
            }
            i += 1;
        }
        let ghost before = self.items@;
        self.items = kept;
        proof {
            assert forall|k: Seq<char>| #[trigger] old(self)@.remove(name@).contains(k) implies self@.contains(k) by {
                let j = choose|j: int| 0 <= j < before.len() && (#[trigger] before[j])@ == k;
                assert(before[j]@ != name@);
            }
            assert(self@ =~= old(self)@.remove(name@));
        }
    }
}

} // verus!
