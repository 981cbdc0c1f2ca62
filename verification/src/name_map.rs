use vstd::prelude::*;

use crate::text::str_eq;

verus! {

/// Whether no name occurs twice.
pub open spec fn names_distinct(names: Seq<Seq<char>>) -> bool {
    forall|i: int, j: int| 0 <= i < names.len() && 0 <= j < names.len() && names[i] == names[j] ==> i == j
}

/// A map from column names to values that remembers the order in which names
/// were first added. A name occurs at most once; adding it again replaces its
/// value in place.
pub struct NameMap<V> {
    names: Vec<String>,
    values: Vec<V>,
}

impl<V> NameMap<V> {
    /// The names, in the order they were first added.
    pub closed spec fn keys(&self) -> Seq<Seq<char>> {
        self.names@.map_values(|s: String| s@)
    }

    /// The values, in the order of their names.
    pub closed spec fn vals(&self) -> Seq<V> {
        self.values@
    }

    /// The lists have the same length and no name occurs twice. Every map
    /// keeps this.
    #[verifier::type_invariant]
    pub closed spec fn wf(&self) -> bool {
        &&& self.names@.len() == self.values@.len()
        &&& names_distinct(self.keys())
    }

    /// The entries as a map from name to value.
    pub closed spec fn as_map(&self) -> Map<Seq<char>, V> {
        Map::new(
            |k: Seq<char>| self.keys().contains(k),
            |k: Seq<char>| self.vals()[choose|i: int| 0 <= i < self.keys().len() && self.keys()[i] == k],
        )
    }

    /// The map is made of the listed names, each with the value at its position.
    pub proof fn lemma_entries(&self)
        requires
            self.wf(),
        ensures
            self.keys().len() == self.vals().len(),
            names_distinct(self.keys()),
            forall|k: Seq<char>| #[trigger] self.as_map().contains_key(k) <==> self.keys().contains(k),
            forall|i: int| 0 <= i < self.keys().len() ==> #[trigger] self.as_map()[self.keys()[i]] == self.vals()[i],
            self.as_map().dom().finite(),
            self.as_map().dom().len() == self.keys().len(),
    {
        assert forall|i: int| 0 <= i < self.keys().len() implies #[trigger] self.as_map()[self.keys()[i]] == self.vals()[i] by {
            let k = self.keys()[i];
            assert(self.keys().contains(k));
            let j = choose|j: int| 0 <= j < self.keys().len() && self.keys()[j] == k;
            assert(j == i);
        }
        vstd::seq_lib::seq_to_set_is_finite(self.keys());
        assert(self.keys().no_duplicates());
        assert(self.as_map().dom() == self.keys().to_set());
        self.keys().unique_seq_to_set();
    }

    /// An empty map.
    pub fn new() -> (m: Self)
        ensures
            m.wf(),
            m.keys() == Seq::<Seq<char>>::empty(),
            m.vals() == Seq::<V>::empty(),
    {
        let m = NameMap { names: Vec::new(), values: Vec::new() };
        assert(m.keys() == Seq::<Seq<char>>::empty());
        m
    }

    /// The number of names.
    pub fn len(&self) -> (n: usize)
        ensures
            n == self.keys().len(),
            n == self.vals().len(),
    {
        proof {
            use_type_invariant(self);
        }
        self.names.len()
    }

    /// The name at a position.
    pub fn name_at(&self, i: usize) -> (s: &String)
        requires
            i < self.keys().len(),
        ensures
            s@ == self.keys()[i as int],
    {
        &self.names[i]
    }

    /// The value at a position.
    pub fn value_at(&self, i: usize) -> (v: &V)
        requires
            i < self.vals().len(),
        ensures
            *v == self.vals()[i as int],
    {
        &self.values[i]
    }

    /// The position of a name, if it is present.
    pub fn position(&self, name: &str) -> (r: Option<usize>)
        ensures
            match r {
                Some(i) => i < self.keys().len() && self.keys()[i as int] == name@,
                None => !self.keys().contains(name@),
            },
    {
        let mut i: usize = 0;
        while i < self.names.len()
            invariant
                0 <= i <= self.names@.len(),
                forall|j: int| 0 <= j < i ==> self.keys()[j] != name@,
            decreases self.names@.len() - i,
        {
            if str_eq(self.names[i].as_str(), name) {
                return Some(i);
            }
            i = i + 1;
        }
        None
    }

    /// A copy of the names, in order.
    pub fn names(&self) -> (r: Vec<String>)
        ensures
            r@.map_values(|s: String| s@) == self.keys(),
            names_distinct(r@.map_values(|s: String| s@)),
    {
        proof {
            use_type_invariant(self);
        }
        let mut r: Vec<String> = Vec::new();
        let mut i: usize = 0;
        while i < self.names.len()
            invariant
                self.wf(),
                0 <= i <= self.keys().len(),
                r@.map_values(|s: String| s@) == self.keys().take(i as int),
            decreases self.keys().len() - i,
        {
            r.push(self.names[i].clone());
            assert(self.keys().take(i + 1) == self.keys().take(i as int).push(self.keys()[i as int]));
            i = i + 1;
        }
        assert(self.keys().take(self.keys().len() as int) == self.keys());
        r
    }

    /// The same names, each with its value transformed by `f`.
    pub fn map_values<W, F: Fn(&V) -> W>(&self, f: F) -> (r: NameMap<W>)
        requires
            forall|i: int| 0 <= i < self.vals().len() ==> f.requires((&self.vals()[i],)),
        ensures
            r.wf(),
            r.keys() == self.keys(),
            r.vals().len() == self.vals().len(),
            forall|i: int| 0 <= i < self.vals().len() ==> f.ensures((&self.vals()[i],), #[trigger] r.vals()[i]),
    {
        proof {
            use_type_invariant(self);
        }
        let names = self.names();
        let mut values: Vec<W> = Vec::new();
        let mut i: usize = 0;
        while i < self.values.len()
            invariant
                self.wf(),
                0 <= i <= self.vals().len(),
                values@.len() == i,
                forall|j: int| 0 <= j < self.vals().len() ==> f.requires((&self.vals()[j],)),
                forall|j: int| 0 <= j < i ==> f.ensures((&self.vals()[j],), #[trigger] values@[j]),
            decreases self.vals().len() - i,
        {
            let w = f(&self.values[i]);
            values.push(w);
            i = i + 1;
        }
        NameMap { names, values }
    }

    /// Adds a name with its value; a name already present keeps its position
    /// and takes the new value.
    pub fn insert(&mut self, name: String, value: V)
        ensures
            final(self).wf(),
            final(self).as_map() == old(self).as_map().insert(name@, value),
            old(self).keys().contains(name@) ==> {
                &&& final(self).keys() == old(self).keys()
                &&& exists|i: int|
                    0 <= i < old(self).keys().len() && old(self).keys()[i] == name@
                    && final(self).vals() == old(self).vals().update(i, value)
            },
            !old(self).keys().contains(name@) ==> {
                &&& final(self).keys() == old(self).keys().push(name@)
                &&& final(self).vals() == old(self).vals().push(value)
            },
    {
        proof {
            use_type_invariant(&*self);
        }
        let ghost before = *self;
        let ghost key = name@;
        let mut taken: NameMap<V> = NameMap::new();
        std::mem::swap(&mut taken, self);
        let pos = taken.position(name.as_str());
        let NameMap { names: mut names, values: mut values } = taken;
        match pos {
            Some(i) => {
                values.set(i, value);
                assert(names@.map_values(|s: String| s@) == before.keys());
            },
            None => {
                names.push(name);
                values.push(value);
                assert(names@.map_values(|s: String| s@) == before.keys().push(key));
            },
        }
        *self = NameMap { names, values };
        proof {
            lemma_insert_as_map(before, *self, key, value);
        }
    }
}

impl<V: Copy> NameMap<V> {
    /// A copy of the values, in the order of their names.
    pub fn values(&self) -> (r: Vec<V>)
        ensures
            r@ == self.vals(),
    {
        let mut r: Vec<V> = Vec::new();
        let mut i: usize = 0;
        while i < self.values.len()
            invariant
                0 <= i <= self.vals().len(),
                r@ == self.vals().take(i as int),
            decreases self.vals().len() - i,
        {
            r.push(self.values[i]);
            assert(self.vals().take(i + 1) == self.vals().take(i as int).push(self.vals()[i as int]));
            i = i + 1;
        }
        assert(self.vals().take(self.vals().len() as int) == self.vals());
        r
    }

    /// The value of a name, if it is present.
    pub fn get(&self, name: &str) -> (r: Option<V>)
        ensures
            match r {
                Some(v) => self.as_map().contains_key(name@) && self.as_map()[name@] == v,
                None => !self.as_map().contains_key(name@),
            },
    {
        proof {
            use_type_invariant(self);
            self.lemma_entries();
        }
        match self.position(name) {
            Some(i) => Some(self.values[i]),
            None => None,
        }
    }
}

/// After an insert, the map holds the new value under the name and is
/// otherwise unchanged.
proof fn lemma_insert_as_map<V>(before: NameMap<V>, after: NameMap<V>, name: Seq<char>, value: V)
    requires
        before.wf(),
        after.wf(),
        before.keys().contains(name) ==> {
            &&& after.keys() == before.keys()
            &&& exists|i: int|
                0 <= i < before.keys().len() && before.keys()[i] == name
                && after.vals() == before.vals().update(i, value)
        },
        !before.keys().contains(name) ==> {
            &&& after.keys() == before.keys().push(name)
            &&& after.vals() == before.vals().push(value)
        },
    ensures
        after.as_map() == before.as_map().insert(name, value),
{
    before.lemma_entries();
    after.lemma_entries();
    let m = before.as_map().insert(name, value);
    assert forall|k: Seq<char>| #[trigger] after.as_map().contains_key(k) <==> m.contains_key(k) by {
        if !before.keys().contains(name) && k == name {
            assert(after.keys()[before.keys().len() as int] == name);
        }
        if after.keys().contains(k) && k != name && !before.keys().contains(name) {
            let j = choose|j: int| 0 <= j < after.keys().len() && after.keys()[j] == k;
            assert(before.keys()[j] == k);
        }
        if before.keys().contains(k) && !before.keys().contains(name) {
            let j = choose|j: int| 0 <= j < before.keys().len() && before.keys()[j] == k;
            assert(after.keys()[j] == k);
        }
    }
    assert forall|k: Seq<char>| #[trigger] after.as_map().contains_key(k) implies after.as_map()[k] == m[k] by {
        let j = choose|j: int| 0 <= j < after.keys().len() && after.keys()[j] == k;
        assert(after.as_map()[after.keys()[j]] == after.vals()[j]);
        if before.keys().contains(name) {
            let i = choose|i: int|
                0 <= i < before.keys().len() && before.keys()[i] == name
                && after.vals() == before.vals().update(i, value);
            if k != name {
                assert(before.as_map()[before.keys()[j]] == before.vals()[j]);
            }
        } else if j < before.keys().len() {
            assert(before.keys()[j] == k);
            assert(before.as_map()[before.keys()[j]] == before.vals()[j]);
        }
    }
    assert(after.as_map() =~= m);
}

} // verus!
