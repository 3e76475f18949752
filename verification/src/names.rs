//! A map from names to values that keeps its entries in the order in which
//! they came.

use vstd::prelude::*;

verus! {

/// The map that parallel lists of names and values stand for. Where a name
/// occurs twice, the later entry counts.
pub open spec fn as_map<V>(names: Seq<String>, values: Seq<V>) -> Map<Seq<char>, V>
    decreases names.len(),
{
    if names.len() == 0 || values.len() == 0 {
        Map::empty()
    } else {
        as_map(names.drop_last(), values.drop_last()).insert(names.last()@, values.last())
    }
}

/// Whether no name occurs twice.
pub open spec fn distinct(names: Seq<String>) -> bool {
    forall|i: int, j: int| 0 <= i < j < names.len() ==> names[i]@ != names[j]@
}

/// The keys of the map are the names listed.
pub proof fn lemma_as_map_keys<V>(names: Seq<String>, values: Seq<V>, name: Seq<char>)
    requires
        names.len() == values.len(),
    ensures
        as_map(names, values).contains_key(name) <==> exists|i: int|
            0 <= i < names.len() && names[i]@ == name,
    decreases names.len(),
{
    if names.len() > 0 {
        lemma_as_map_keys(names.drop_last(), values.drop_last(), name);
        if as_map(names, values).contains_key(name) {
            if names.last()@ == name {
                assert(names[names.len() - 1]@ == name);
            } else {
                let i = choose|i: int| 0 <= i < names.len() - 1 && names.drop_last()[i]@ == name;
                assert(names[i]@ == name);
            }
        }
        if exists|i: int| 0 <= i < names.len() && names[i]@ == name {
            let i = choose|i: int| 0 <= i < names.len() && names[i]@ == name;
            if i < names.len() - 1 {
                assert(names.drop_last()[i]@ == name);
            }
        }
    }
}

/// Among distinct names, each stands for the value listed beside it.
pub proof fn lemma_as_map_at<V>(names: Seq<String>, values: Seq<V>, i: int)
    requires
        names.len() == values.len(),
        distinct(names),
        0 <= i < names.len(),
    ensures
        as_map(names, values).contains_key(names[i]@),
        as_map(names, values)[names[i]@] == values[i],
    decreases names.len(),
{
    if i < names.len() - 1 {
        lemma_as_map_at(names.drop_last(), values.drop_last(), i);
    }
}

/// Among distinct names, striking an entry from the lists removes its name
/// from the map and leaves the rest.
pub proof fn lemma_as_map_remove<V>(names: Seq<String>, values: Seq<V>, i: int)
    requires
        names.len() == values.len(),
        distinct(names),
        0 <= i < names.len(),
    ensures
        distinct(names.remove(i)),
        as_map(names.remove(i), values.remove(i)) == as_map(names, values).remove(names[i]@),
    decreases names.len(),
{
    let last = names.len() - 1;
    if i == last {
        assert(names.remove(i) == names.drop_last());
        assert(values.remove(i) == values.drop_last());
        lemma_as_map_keys(names.drop_last(), values.drop_last(), names[i]@);
        assert(as_map(names.drop_last(), values.drop_last()) =~= as_map(names, values).remove(
            names[i]@,
        ));
    } else {
        lemma_as_map_remove(names.drop_last(), values.drop_last(), i);
        assert(names.remove(i).drop_last() == names.drop_last().remove(i));
        assert(values.remove(i).drop_last() == values.drop_last().remove(i));
        assert(names.remove(i).last() == names.last());
        assert(values.remove(i).last() == values.last());
        assert(as_map(names.remove(i), values.remove(i)) =~= as_map(names, values).remove(
            names[i]@,
        ));
    }
}

/// A map from names to values.
pub struct NameMap<V> {
    names: Vec<String>,
    values: Vec<V>,
}

impl<V> NameMap<V> {
    /// Whether the map is in order: it holds no name twice.
    pub closed spec fn well_formed(&self) -> bool {
        &&& self.names@.len() == self.values@.len()
        &&& distinct(self.names@)
    }

    /// The entries, by name.
    pub closed spec fn view(&self) -> Map<Seq<char>, V> {
        as_map(self.names@, self.values@)
    }

    /// A map without entries.
    pub fn new() -> (map: Self)
        ensures
            map.well_formed(),
            map@ == Map::<Seq<char>, V>::empty(),
    {
        NameMap { names: Vec::new(), values: Vec::new() }
    }

    /// Where `name` stands among the names.
    fn position(&self, name: &str) -> (found: Option<usize>)
        requires
            self.well_formed(),
        ensures
            match found {
                Some(i) => i < self.names@.len() && self.names@[i as int]@ == name@,
                None => !self@.contains_key(name@),
            },
            found is Some <==> self@.contains_key(name@),
    {
        let mut i: usize = 0;
        while i < self.names.len()
            invariant
                self.names@.len() == self.values@.len(),
                i <= self.names@.len(),
                forall|j: int| 0 <= j < i ==> self.names@[j]@ != name@,
            decreases self.names@.len() - i,
        {
            if crate::text::str_is(self.names[i].as_str(), name) {
                proof {
                    lemma_as_map_keys(self.names@, self.values@, name@);
                    assert(self.names@[i as int]@ == name@);
                }
                return Some(i);
            }
            i += 1;
        }
        proof {
            lemma_as_map_keys(self.names@, self.values@, name@);
        }
        None
    }

    /// Whether the map holds an entry of this name.
    pub fn contains(&self, name: &str) -> (held: bool)
        requires
            self.well_formed(),
        ensures
            held == self@.contains_key(name@),
    {
        self.position(name).is_some()
    }

    /// The value held under `name`.
    pub fn get(&self, name: &str) -> (value: Option<&V>)
        requires
            self.well_formed(),
        ensures
            match value {
                Some(v) => self@.contains_key(name@) && self@[name@] == *v,
                None => !self@.contains_key(name@),
            },
    {
        match self.position(name) {
            Some(i) => {
                proof {
                    lemma_as_map_at(self.names@, self.values@, i as int);
                }
                Some(&self.values[i])
            },
            None => None,
        }
    }

    /// Enters `value` under `name` unless the name is taken; then the map
    /// stays as it is and the value comes back.
    pub fn insert(&mut self, name: String, value: V) -> (refused: Option<V>)
        requires
            old(self).well_formed(),
        ensures
            final(self).well_formed(),
            match refused {
                None => !old(self)@.contains_key(name@) && final(self)@ == old(self)@.insert(
                    name@,
                    value,
                ),
                Some(v) => old(self)@.contains_key(name@) && v == value && final(self)@ == old(
                    self,
                )@,
            },
    {
        if self.position(name.as_str()).is_some() {
            return Some(value);
        }
        proof {
            lemma_as_map_keys(self.names@, self.values@, name@);
            assert(self.names@.push(name).drop_last() == self.names@);
            assert(self.values@.push(value).drop_last() == self.values@);
        }
        self.names.push(name);
        self.values.push(value);
        None
    }

    /// Takes out the entry of `name` and gives its value.
    pub fn remove(&mut self, name: &str) -> (value: Option<V>)
        requires
            old(self).well_formed(),
        ensures
            final(self).well_formed(),
            match value {
                Some(v) => old(self)@.contains_key(name@) && old(self)@[name@] == v,
                None => !old(self)@.contains_key(name@),
            },
            final(self)@ == old(self)@.remove(name@),
    {
        match self.position(name) {
            Some(i) => {
                proof {
                            lemma_as_map_at(self.names@, self.values@, i as int);
                    lemma_as_map_remove(self.names@, self.values@, i as int);
                }
                self.names.remove(i);
                Some(self.values.remove(i))
            },
            None => {
                assert(self@.remove(name@) =~= self@);
                None
            },
        }
    }
}

} // verus!
