//! Maps keyed by domain name.

use vstd::prelude::*;

verus! {

/// A map from domain names to values, at most one value per domain.
pub struct DomainMap<V> {
    entries: Vec<(String, V)>,
    model: Ghost<Map<Seq<char>, V>>,
}

impl<V> View for DomainMap<V> {
    type V = Map<Seq<char>, V>;

    closed spec fn view(&self) -> Map<Seq<char>, V> {
        self.model@
    }
}

/// The entries hold distinct domains, and `model` maps each of them to its value.
spec fn entries_model<V>(entries: Seq<(String, V)>, model: Map<Seq<char>, V>) -> bool {
    &&& forall|i: int, j: int|
        0 <= i < j < entries.len() ==> #[trigger] entries[i].0@ != #[trigger] entries[j].0@
    &&& forall|i: int|
        0 <= i < entries.len() ==> #[trigger] model.contains_key(entries[i].0@) && model[entries[i].0@]
            == entries[i].1
    &&& forall|d: Seq<char>|
        #[trigger] model.contains_key(d) ==> exists|i: int|
            0 <= i < entries.len() && #[trigger] entries[i].0@ == d
}

impl<V> DomainMap<V> {
    #[verifier::type_invariant]
    spec fn well_formed(&self) -> bool {
        entries_model(self.entries@, self.model@)
    }

    /// An empty map.
    pub fn new() -> (r: Self)
        ensures
            r@ == Map::<Seq<char>, V>::empty(),
    {
        DomainMap { entries: Vec::new(), model: Ghost(Map::empty()) }
    }

    /// The position of `domain` among the entries.
    fn position(&self, domain: &str) -> (r: Option<usize>)
        ensures
            match r {
                Some(i) => i < self.entries.len() && self.entries[i as int].0@ == domain@,
                None => !self@.contains_key(domain@),
            },
    {
        proof {
            use_type_invariant(self);
        }
        let key = String::from_str(domain);
        let mut i: usize = 0;
        while i < self.entries.len()
            invariant
                i <= self.entries.len(),
                key@ == domain@,
                forall|k: int| 0 <= k < i ==> #[trigger] self.entries[k].0@ != domain@,
            decreases self.entries.len() - i,
        {
            if self.entries[i].0 == key {
                return Some(i);
            }
            i = i + 1;
        }
        None
    }

    /// The value of `domain`, if it has one.
    pub fn get(&self, domain: &str) -> (r: Option<&V>)
        ensures
            match r {
                Some(c) => self@.contains_key(domain@) && *c == self@[domain@],
                None => !self@.contains_key(domain@),
            },
    {
        proof {
            use_type_invariant(self);
        }
        match self.position(domain) {
            Some(i) => {
                assert(self.model@.contains_key(self.entries[i as int].0@));
                Some(&self.entries[i].1)
            },
            None => None,
        }
    }

    /// Moves the entries out, leaving the map empty.
    fn take_entries(&mut self) -> (r: Vec<(String, V)>)
        ensures
            r@ == old(self).entries@,
            entries_model(r@, old(self)@),
    {
        proof {
            use_type_invariant(&*self);
        }
        let mut taken = DomainMap::<V>::new();
        std::mem::swap(self, &mut taken);
        let DomainMap { entries, model: _ } = taken;
        entries
    }

    /// Maps `domain` to `value`, replacing the value it had.
    pub fn insert(&mut self, domain: String, value: V)
        ensures
            final(self)@ == old(self)@.insert(domain@, value),
    {
        let ghost d = domain@;
        let ghost c = value;
        let ghost model = self@.insert(d, c);
        let found = self.position(domain.as_str());
        let mut entries = self.take_entries();
        let ghost old_entries = entries@;
        let ghost at: int;
        match found {
            Some(i) => {
                entries.set(i, (domain, value));
                proof {
                    at = i as int;
                }
            },
            None => {
                entries.push((domain, value));
                proof {
                    at = old_entries.len() as int;
                }
            },
        }
        assert(entries[at].0@ == d);
        assert forall|e: Seq<char>| #[trigger] model.contains_key(e) implies exists|i: int|
            0 <= i < entries.len() && #[trigger] entries[i].0@ == e by {
            if e != d {
                let i = choose|i: int|
                    0 <= i < old_entries.len() && #[trigger] old_entries[i].0@ == e;
                assert(entries[i].0@ == e);
            }
        }
        assert forall|i: int| 0 <= i < entries.len() implies #[trigger] model.contains_key(
            entries[i].0@,
        ) && model[entries[i].0@] == entries[i].1 by {
            if i != at {
                assert(old_entries[i] == entries[i]);
            }
        }
        assert forall|i: int, j: int|
            0 <= i < j < entries.len() implies #[trigger] entries[i].0@
                != #[trigger] entries[j].0@ by {
            if i != at && j != at {
                assert(old_entries[i] == entries[i] && old_entries[j] == entries[j]);
            } else if i == at {
                assert(old_entries[j] == entries[j]);
                assert(old(self)@.contains_key(old_entries[j].0@));
            } else {
                assert(old_entries[i] == entries[i]);
                assert(old(self)@.contains_key(old_entries[i].0@));
            }
        }
        *self = DomainMap { entries, model: Ghost(model) };
    }

    /// Removes `domain` and its value, if it has one.
    pub fn remove(&mut self, domain: &str)
        ensures
            final(self)@ == old(self)@.remove(domain@),
    {
        proof {
            use_type_invariant(&*self);
        }
        let ghost model = self@.remove(domain@);
        match self.position(domain) {
            Some(i) => {
                let mut entries = self.take_entries();
                let ghost old_entries = entries@;
                entries.remove(i);
                assert forall|e: Seq<char>| #[trigger] model.contains_key(e) implies exists|k: int|
                    0 <= k < entries.len() && #[trigger] entries[k].0@ == e by {
                    let k = choose|k: int|
                        0 <= k < old_entries.len() && #[trigger] old_entries[k].0@ == e;
                    if k < i {
                        assert(entries[k].0@ == e);
                    } else {
                        assert(k != i);
                        assert(entries[k - 1].0@ == e);
                    }
                }
                assert forall|k: int| 0 <= k < entries.len() implies #[trigger] model.contains_key(
                    entries[k].0@,
                ) && model[entries[k].0@] == entries[k].1 by {
                    let k0 = if k < i { k } else { k + 1 };
                    assert(entries[k] == old_entries[k0]);
                    assert(old_entries[i as int].0@ == domain@);
                    if k0 < i {
                        assert(old_entries[k0].0@ != old_entries[i as int].0@);
                    } else {
                        assert(old_entries[i as int].0@ != old_entries[k0].0@);
                    }
                    assert(old(self)@.contains_key(old_entries[k0].0@));
                    assert(old(self)@[old_entries[k0].0@] == old_entries[k0].1);
                }
                assert forall|a: int, b: int|
                    0 <= a < b < entries.len() implies #[trigger] entries[a].0@
                        != #[trigger] entries[b].0@ by {
                    let a0 = if a < i { a } else { a + 1 };
                    let b0 = if b < i { b } else { b + 1 };
                    assert(entries[a] == old_entries[a0]);
                    assert(entries[b] == old_entries[b0]);
                }
                *self = DomainMap { entries, model: Ghost(model) };
            },
            None => {
                assert(model =~= self@);
            },
        }
    }
}

} // verus!
