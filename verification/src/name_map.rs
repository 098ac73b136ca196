//! A map from names to values, kept in the order of the names.

use crate::name::{lemma_before_excludes, lemma_before_transitive, NameOrder, XorName};
use vstd::prelude::*;

verus! {

/// Whether the names of `s` strictly increase, so that no name occurs twice.
pub open spec fn sorted_by_name<V>(s: Seq<(XorName, V)>) -> bool {
    forall|i: int, j: int| 0 <= i < j < s.len() ==> (#[trigger] s[i]).0.before((#[trigger] s[j]).0)
}

/// Whether some entry of `s` has the name `name`.
pub open spec fn has_name<V>(s: Seq<(XorName, V)>, name: XorName) -> bool {
    exists|i: int| 0 <= i < s.len() && (#[trigger] s[i]).0 == name
}

/// The place of an entry of `s` with the name `name`.
pub open spec fn index_of<V>(s: Seq<(XorName, V)>, name: XorName) -> int {
    choose|i: int| 0 <= i < s.len() && (#[trigger] s[i]).0 == name
}

/// The map that a sequence of entries stands for.
pub open spec fn map_of<V>(s: Seq<(XorName, V)>) -> Map<XorName, V> {
    Map::new(|name: XorName| has_name(s, name), |name: XorName| s[index_of(s, name)].1)
}

/// In a sorted sequence a name stands at one place only, and the map holds what stands
/// there.
pub proof fn lemma_map_of_entry<V>(s: Seq<(XorName, V)>, i: int)
    requires
        sorted_by_name(s),
        0 <= i < s.len(),
    ensures
        map_of(s).contains_key(s[i].0),
        map_of(s)[s[i].0] == s[i].1,
        index_of(s, s[i].0) == i,
{
    let name = s[i].0;
    assert(has_name(s, name));
    let j = index_of(s, name);
    if j < i {
        lemma_before_excludes(s[j].0, s[i].0);
    } else if i < j {
        lemma_before_excludes(s[i].0, s[j].0);
    }
}

/// A map from names to values. Its entries are held in the order of their names, each
/// name once.
#[derive(Debug)]
pub struct NameMap<V> {
    entries: Vec<(XorName, V)>,
}

impl<V> View for NameMap<V> {
    type V = Map<XorName, V>;

    open spec fn view(&self) -> Map<XorName, V> {
        map_of(self.entries())
    }
}

impl<V> NameMap<V> {
    /// The entries in the order of their names.
    pub closed spec fn entries(&self) -> Seq<(XorName, V)> {
        self.entries@
    }

    /// What holds of every map: the names strictly increase.
    pub open spec fn wf(&self) -> bool {
        sorted_by_name(self.entries())
    }

    #[verifier::type_invariant]
    spec fn sorted(&self) -> bool {
        sorted_by_name(self.entries@)
    }

    /// A map without entries.
    pub fn new() -> (m: NameMap<V>)
        ensures
            m.wf(),
            m.entries() == Seq::<(XorName, V)>::empty(),
            m@ == Map::<XorName, V>::empty(),
    {
        let m = NameMap { entries: Vec::new() };
        assert(m@ =~= Map::<XorName, V>::empty());
        m
    }

    /// The number of entries.
    pub fn len(&self) -> (n: usize)
        ensures
            self.wf(),
            n == self.entries().len(),
    {
        proof {
            use_type_invariant(self);
        }
        self.entries.len()
    }

    /// Whether the map has no entry.
    pub fn is_empty(&self) -> (r: bool)
        ensures
            self.wf(),
            r == (self.entries().len() == 0),
    {
        proof {
            use_type_invariant(self);
        }
        self.entries.len() == 0
    }

    /// The name of the entry at place `i` in the order of names.
    pub fn name_at(&self, i: usize) -> (name: XorName)
        requires
            i < self.entries().len(),
        ensures
            self.wf(),
            name == self.entries()[i as int].0,
    {
        proof {
            use_type_invariant(self);
        }
        self.entries[i].0
    }

    /// The value of the entry at place `i` in the order of names.
    pub fn value_at(&self, i: usize) -> (value: &V)
        requires
            i < self.entries().len(),
        ensures
            self.wf(),
            *value == self.entries()[i as int].1,
    {
        proof {
            use_type_invariant(self);
        }
        &self.entries[i].1
    }

    /// The place of the entry named `name`, if there is one.
    pub fn position(&self, name: &XorName) -> (at: Option<usize>)
        ensures
            self.wf(),
            match at {
                Some(i) => i < self.entries().len() && self.entries()[i as int].0 == *name,
                None => !self@.contains_key(*name),
            },
            at.is_some() == self@.contains_key(*name),
    {
        proof {
            use_type_invariant(self);
        }
        let mut i: usize = 0;
        while i < self.entries.len()
            invariant
                0 <= i <= self.entries@.len(),
                sorted_by_name(self.entries@),
                forall|j: int| 0 <= j < i ==> (#[trigger] self.entries@[j]).0 != *name,
            decreases self.entries@.len() - i,
        {
            if self.entries[i].0.same(name) {
                proof {
                    lemma_map_of_entry(self.entries@, i as int);
                }
                return Some(i);
            }
            i = i + 1;
        }
        None
    }

    /// Whether the map has an entry named `name`.
    pub fn contains_key(&self, name: &XorName) -> (r: bool)
        ensures
            self.wf(),
            r == self@.contains_key(*name),
    {
        self.position(name).is_some()
    }

    /// The value that the map holds for `name`.
    pub fn get(&self, name: &XorName) -> (value: Option<&V>)
        ensures
            self.wf(),
            match value {
                Some(v) => self@.contains_key(*name) && *v == self@[*name],
                None => !self@.contains_key(*name),
            },
    {
        match self.position(name) {
            Some(i) => {
                proof {
                    lemma_map_of_entry(self.entries@, i as int);
                }
                Some(&self.entries[i].1)
            },
            None => None,
        }
    }

    /// Sets the value for `name`, and returns the value that the map held for it before.
    pub fn insert(&mut self, name: XorName, value: V) -> (before: Option<V>)
        ensures
            final(self).wf(),
            final(self)@ == old(self)@.insert(name, value),
            match before {
                Some(v) => old(self)@.contains_key(name) && v == old(self)@[name],
                None => !old(self)@.contains_key(name),
            },
            old(self)@.contains_key(name) ==> final(self).entries() == old(self).entries().update(
                index_of(old(self).entries(), name),
                (name, value),
            ),
            !old(self)@.contains_key(name) ==> final(self).entries().len() == old(
                self,
            ).entries().len() + 1,
    {
        proof {
            use_type_invariant(&*self);
        }
        let ghost s0 = self.entries@;
        let mut i: usize = 0;
        let mut found: bool = false;
        while i < self.entries.len()
            invariant_except_break
                !found,
            invariant
                self.entries@ == s0,
                0 <= i <= s0.len(),
                forall|j: int| 0 <= j < i ==> (#[trigger] s0[j]).0.before(name),
            ensures
                found ==> i < s0.len() && s0[i as int].0 == name,
                !found ==> (i == s0.len() || name.before(s0[i as int].0)),
            decreases s0.len() - i,
        {
            match self.entries[i].0.order(&name) {
                NameOrder::Before => {
                    i = i + 1;
                },
                NameOrder::Same => {
                    found = true;
                    break ;
                },
                NameOrder::After => {
                    break ;
                },
            }
        }
        let ghost p = i as int;
        if found {
            proof {
                lemma_map_of_entry(s0, p);
            }
            let mut entries: Vec<(XorName, V)> = Vec::new();
            core::mem::swap(&mut self.entries, &mut entries);
            let gone = entries.remove(i);
            entries.insert(i, (name, value));
            proof {
                let s1 = entries@;
                assert(s1 =~= s0.update(p, (name, value)));
                assert(sorted_by_name(s1)) by {
                    assert forall|a: int, b: int| 0 <= a < b < s1.len() implies
                        (#[trigger] s1[a]).0.before( (#[trigger] s1[b]).0, ) by {
                        assert(s0[a].0.before(s0[b].0));
                    }
                }
                assert(map_of(s1) =~= map_of(s0).insert(name, value)) by {
                    assert forall|k: XorName| map_of(s1).contains_key(k) == map_of(s0).insert(
                        name,
                        value,
                    ).contains_key(k) by {
                        if has_name(s0, k) {
                            assert(s1[index_of(s0, k)].0 == k);
                        }
                        if has_name(s1, k) {
                            assert(s0[index_of(s1, k)].0 == k);
                        }
                    }
                    assert forall|k: XorName| map_of(s1).contains_key(k) implies map_of(s1)[k]
                        == map_of(s0).insert(name, value)[k] by {
                        let n = index_of(s1, k);
                        lemma_map_of_entry(s1, n);
                        lemma_map_of_entry(s0, n);
                    }
                }
            }
            core::mem::swap(&mut self.entries, &mut entries);
            Some(gone.1)
        } else {
            let mut entries: Vec<(XorName, V)> = Vec::new();
            core::mem::swap(&mut self.entries, &mut entries);
            entries.insert(i, (name, value));
            proof {
                let s1 = entries@;
                assert(s1 == s0.insert(p, (name, value)));
                assert forall|j: int| p <= j < s0.len() implies
                    name.before((#[trigger] s0[j]).0) by {
                    if p < j {
                        lemma_before_transitive(name, s0[p].0, s0[j].0);
                    }
                }
                assert forall|j: int| 0 <= j < s0.len() implies (#[trigger] s0[j]).0 != name by {
                    if j < p {
                        lemma_before_excludes(s0[j].0, name);
                    } else {
                        lemma_before_excludes(name, s0[j].0);
                    }
                }
                assert(sorted_by_name(s1)) by {
                    assert forall|a: int, b: int| 0 <= a < b < s1.len() implies
                        (#[trigger] s1[a]).0.before( (#[trigger] s1[b]).0, ) by {
                        let a0 = if a < p { a } else { a - 1 };
                        let b0 = if b < p { b } else { b - 1 };
                        if a != p && b != p {
                            assert(s0[a0].0.before(s0[b0].0));
                        } else if a == p {
                            assert(name.before(s0[b0].0));
                        } else {
                            assert(s0[a0].0.before(name));
                        }
                    }
                }
                assert(map_of(s1) =~= map_of(s0).insert(name, value)) by {
                    assert forall|k: XorName| map_of(s1).contains_key(k) == map_of(s0).insert(
                        name,
                        value,
                    ).contains_key(k) by {
                        if has_name(s0, k) {
                            let n = index_of(s0, k);
                            let m = if n < p { n } else { n + 1 };
                            assert(s1[m].0 == k);
                        }
                        if k == name {
                            assert(s1[p].0 == k);
                        }
                        if has_name(s1, k) && k != name {
                            let m = index_of(s1, k);
                            let n = if m < p { m } else { m - 1 };
                            assert(s0[n].0 == k);
                        }
                    }
                    assert forall|k: XorName| map_of(s1).contains_key(k) implies map_of(s1)[k]
                        == map_of(s0).insert(name, value)[k] by {
                        let m = index_of(s1, k);
                        lemma_map_of_entry(s1, m);
                        if m != p {
                            let n = if m < p { m } else { m - 1 };
                            lemma_map_of_entry(s0, n);
                        }
                    }
                }
            }
            core::mem::swap(&mut self.entries, &mut entries);
            None
        }
    }

    /// Takes the entry named `name` out of the map, and returns its value.
    pub fn remove(&mut self, name: &XorName) -> (before: Option<V>)
        ensures
            final(self).wf(),
            final(self)@ == old(self)@.remove(*name),
            match before {
                Some(v) => old(self)@.contains_key(*name) && v == old(self)@[*name],
                None => !old(self)@.contains_key(*name) && final(self).entries() == old(
                    self,
                ).entries(),
            },
    {
        proof {
            use_type_invariant(&*self);
        }
        let ghost s0 = self.entries@;
        match self.position(name) {
            Some(i) => {
                let ghost p = i as int;
                proof {
                    lemma_map_of_entry(s0, p);
                }
                let mut entries: Vec<(XorName, V)> = Vec::new();
                core::mem::swap(&mut self.entries, &mut entries);
                let gone = entries.remove(i);
                proof {
                    let s1 = entries@;
                    assert(s1 == s0.remove(p));
                    assert(sorted_by_name(s1)) by {
                        assert forall|a: int, b: int| 0 <= a < b < s1.len() implies
                            (#[trigger] s1[a]).0.before( (#[trigger] s1[b]).0, ) by {
                            let a0 = if a < p { a } else { a + 1 };
                            let b0 = if b < p { b } else { b + 1 };
                            assert(s0[a0].0.before(s0[b0].0));
                        }
                    }
                    assert forall|j: int| 0 <= j < s0.len() && j != p implies (#[trigger] s0[j]).0
                        != *name by {
                        lemma_map_of_entry(s0, j);
                    }
                    assert(map_of(s1) =~= map_of(s0).remove(*name)) by {
                        assert forall|k: XorName| map_of(s1).contains_key(k) == map_of(s0).remove(
                            *name,
                        ).contains_key(k) by {
                            if has_name(s0, k) && k != *name {
                                let n = index_of(s0, k);
                                let m = if n < p { n } else { n - 1 };
                                assert(s1[m].0 == k);
                            }
                            if has_name(s1, k) {
                                let m = index_of(s1, k);
                                let n = if m < p { m } else { m + 1 };
                                assert(s0[n].0 == k);
                            }
                        }
                        assert forall|k: XorName| map_of(s1).contains_key(k) implies map_of(s1)[k]
                            == map_of(s0).remove(*name)[k] by {
                            let m = index_of(s1, k);
                            let n = if m < p { m } else { m + 1 };
                            lemma_map_of_entry(s1, m);
                            lemma_map_of_entry(s0, n);
                        }
                    }
                }
                core::mem::swap(&mut self.entries, &mut entries);
                Some(gone.1)
            },
            None => {
                assert(self@ =~= old(self)@.remove(*name));
                None
            },
        }
    }

    /// Adds an entry whose name comes after every name in the map.
    pub(crate) fn push_last(&mut self, name: XorName, value: V)
        requires
            forall|i: int|
                0 <= i < old(self).entries().len() ==> (#[trigger] old(self).entries()[i]).0.before(
                    name,
                ),
        ensures
            final(self).wf(),
            final(self).entries() == old(self).entries().push((name, value)),
    {
        proof {
            use_type_invariant(&*self);
        }
        let mut entries: Vec<(XorName, V)> = Vec::new();
        core::mem::swap(&mut self.entries, &mut entries);
        let ghost s0 = entries@;
        entries.push((name, value));
        proof {
            let s1 = entries@;
            assert(s0 == old(self).entries());
            assert forall|a: int, b: int| 0 <= a < b < s1.len() implies (#[trigger] s1[a]).0.before(
                (#[trigger] s1[b]).0,
            ) by {
                if b < s0.len() {
                    assert(s0[a].0.before(s0[b].0));
                } else {
                    assert(old(self).entries()[a].0.before(name));
                }
            }
        }
        core::mem::swap(&mut self.entries, &mut entries);
    }
}

} // verus!
