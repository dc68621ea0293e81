//! A small map keyed by names.

use crate::text::same_text;
use vstd::prelude::*;
use vstd::std_specs::cmp::PartialEqSpec;

verus! {

/// A map from names to values. It is meant for a handful of entries, such as the screens of one
/// desk, and keeps them in the order in which their names came.
#[derive(Debug)]
pub struct NameMap<V> {
    keys: Vec<String>,
    values: Vec<V>,
}

/// Some position of a name, if it is there.
spec fn position(keys: Seq<String>, name: Seq<char>) -> Option<int> {
    if exists|i: int| 0 <= i < keys.len() && (#[trigger] keys[i])@ == name {
        Some(choose|i: int| 0 <= i < keys.len() && (#[trigger] keys[i])@ == name)
    } else {
        None
    }
}

spec fn distinct(keys: Seq<String>) -> bool {
    forall|i: int, j: int|
        0 <= i < j < keys.len() ==> (#[trigger] keys[i])@ != (#[trigger] keys[j])@
}

spec fn as_map<V>(keys: Seq<String>, values: Seq<V>) -> Map<Seq<char>, V> {
    Map::new(
        |name: Seq<char>| position(keys, name) is Some,
        |name: Seq<char>| values[position(keys, name)->0],
    )
}

proof fn lemma_pushed<V>(keys: Seq<String>, values: Seq<V>, key: String, value: V)
    requires
        distinct(keys),
        keys.len() == values.len(),
        position(keys, key@) is None,
    ensures
        distinct(keys.push(key)),
        as_map(keys.push(key), values.push(value)) == as_map(keys, values).insert(key@, value),
{
    let longer = keys.push(key);
    assert(longer[keys.len() as int]@ == key@);
    assert forall|name: Seq<char>| name != key@ implies position(longer, name) == position(
        keys,
        name,
    ) by {
        if position(keys, name) is Some {
            let i = position(keys, name)->0;
            assert(longer[i]@ == name);
        }
        if position(longer, name) is Some {
            let i = position(longer, name)->0;
            assert(keys[i]@ == name);
        }
    }
    assert(as_map(longer, values.push(value)) =~= as_map(keys, values).insert(key@, value));
}

proof fn lemma_removed<V>(keys: Seq<String>, values: Seq<V>, at: int)
    requires
        distinct(keys),
        keys.len() == values.len(),
        0 <= at < keys.len(),
    ensures
        distinct(keys.remove(at)),
        as_map(keys.remove(at), values.remove(at)) == as_map(keys, values).remove(keys[at]@),
{
    let shorter = keys.remove(at);
    assert forall|name: Seq<char>| name != keys[at]@ implies match #[trigger] position(keys, name) {
        Some(i) => position(shorter, name) == Some(
            if i < at {
                i
            } else {
                i - 1
            },
        ),
        None => position(shorter, name) is None,
    } by {
        if position(keys, name) is Some {
            let i = position(keys, name)->0;
            assert(shorter[if i < at { i } else { i - 1 }]@ == name);
        }
        if position(shorter, name) is Some {
            let i = position(shorter, name)->0;
            assert(keys[if i < at { i } else { i + 1 }]@ == name);
        }
    }
    assert(position(shorter, keys[at]@) is None);
    assert(as_map(shorter, values.remove(at)) =~= as_map(keys, values).remove(keys[at]@));
}

impl<V> View for NameMap<V> {
    type V = Map<Seq<char>, V>;

    closed spec fn view(&self) -> Map<Seq<char>, V> {
        as_map(self.keys@, self.values@)
    }
}

impl<V> NameMap<V> {
    #[verifier::type_invariant]
    spec fn inv(self) -> bool {
        &&& distinct(self.keys@)
        &&& self.keys@.len() == self.values@.len()
    }

    /// The names in the order in which they are kept.
    pub closed spec fn names(self) -> Seq<Seq<char>> {
        self.keys@.map_values(|k: String| k@)
    }

    proof fn lemma_at(self, i: int)
        requires
            self.inv(),
            0 <= i < self.keys@.len(),
        ensures
            position(self.keys@, self.keys@[i]@) == Some(i),
            self@.contains_key(self.keys@[i]@),
            self@[self.keys@[i]@] == self.values@[i],
            self.names()[i] == self.keys@[i]@,
    {
    }

    proof fn lemma_names(self)
        requires
            self.inv(),
        ensures
            self.names().no_duplicates(),
            forall|name: Seq<char>| self.names().contains(name) <==> self@.contains_key(name),
    {
        assert forall|name: Seq<char>| self.names().contains(name) implies self@.contains_key(
            name,
        ) by {
            self.lemma_at(self.names().index_of(name));
        }
        assert forall|name: Seq<char>| self@.contains_key(name) implies self.names().contains(
            name,
        ) by {
            assert(self.names()[position(self.keys@, name)->0] == name);
        }
    }

    fn find(&self, name: &str) -> (found: Option<usize>)
        ensures
            match found {
                Some(i) => i < self.keys@.len() && self.keys@[i as int]@ == name@,
                None => forall|i: int|
                    0 <= i < self.keys@.len() ==> (#[trigger] self.keys@[i])@ != name@,
            },
    {
        let mut i: usize = 0;
        while i < self.keys.len()
            invariant
                i <= self.keys@.len(),
                forall|k: int| 0 <= k < i ==> (#[trigger] self.keys@[k])@ != name@,
            decreases self.keys@.len() - i,
        {
            if same_text(self.keys[i].as_str(), name) {
                return Some(i);
            }
            i = i + 1;
        }
        None
    }

    pub fn new() -> (m: Self)
        ensures
            m@ == Map::<Seq<char>, V>::empty(),
            m.names() == Seq::<Seq<char>>::empty(),
    {
        let m = NameMap { keys: Vec::new(), values: Vec::new() };
        assert(m@ =~= Map::<Seq<char>, V>::empty());
        assert(m.names() =~= Seq::<Seq<char>>::empty());
        m
    }

    /// The number of names. Each name that is there occurs once.
    pub fn len(&self) -> (n: usize)
        ensures
            n == self.names().len(),
            self.names().no_duplicates(),
            forall|name: Seq<char>| self.names().contains(name) <==> self@.contains_key(name),
    {
        proof {
            use_type_invariant(self);
            self.lemma_names();
        }
        self.keys.len()
    }

    /// The `i`-th name.
    pub fn name_at(&self, i: usize) -> (name: &String)
        requires
            i < self.names().len(),
        ensures
            name@ == self.names()[i as int],
            self@.contains_key(name@),
    {
        proof {
            use_type_invariant(self);
            self.lemma_at(i as int);
        }
        &self.keys[i]
    }

    /// The value under the `i`-th name.
    pub fn value_at(&self, i: usize) -> (value: &V)
        requires
            i < self.names().len(),
        ensures
            self@.contains_key(self.names()[i as int]),
            *value == self@[self.names()[i as int]],
    {
        proof {
            use_type_invariant(self);
            self.lemma_at(i as int);
        }
        &self.values[i]
    }

    pub fn get(&self, name: &str) -> (value: Option<&V>)
        ensures
            match value {
                Some(v) => self@.contains_key(name@) && *v == self@[name@],
                None => !self@.contains_key(name@),
            },
    {
        match self.find(name) {
            Some(i) => {
                proof {
                    use_type_invariant(self);
                    self.lemma_at(i as int);
                }
                Some(&self.values[i])
            },
            None => None,
        }
    }

    pub fn contains_key(&self, name: &str) -> (found: bool)
        ensures
            found == self@.contains_key(name@),
            found == self.names().contains(name@),
    {
        proof {
            use_type_invariant(self);
            self.lemma_names();
        }
        self.get(name).is_some()
    }

    /// The value under `name`, to be changed in place.
    pub fn get_mut(&mut self, name: &str) -> (value: Option<&mut V>)
        ensures
            match value {
                Some(v) => {
                    &&& old(self)@.contains_key(name@)
                    &&& *v == old(self)@[name@]
                    &&& final(self)@ == old(self)@.insert(name@, *final(v))
                    &&& final(self).names() == old(self).names()
                },
                None => !old(self)@.contains_key(name@) && *final(self) == *old(self),
            },
    {
        match self.find(name) {
            Some(i) => {
                proof {
                    use_type_invariant(&*self);
                    self.lemma_at(i as int);
                }
                let ghost keys = self.keys@;
                let ghost values = self.values@;
                assert forall|v: V| #[trigger]
                    as_map(keys, values.update(i as int, v)) == as_map(keys, values).insert(
                        name@,
                        v,
                    ) by {
                    assert(as_map(keys, values.update(i as int, v)) =~= as_map(keys, values).insert(
                        name@,
                        v,
                    ));
                }
                Some(&mut self.values[i])
            },
            None => None,
        }
    }

    /// Puts `value` under `name`, in place of what was there.
    pub fn insert(&mut self, name: String, value: V)
        ensures
            final(self)@ == old(self)@.insert(name@, value),
            final(self).names() == if old(self).names().contains(name@) {
                old(self).names()
            } else {
                old(self).names().push(name@)
            },
    {
        proof {
            use_type_invariant(&*self);
            self.lemma_names();
        }
        match self.get_mut(name.as_str()) {
            Some(place) => {
                *place = value;
            },
            None => {
                let mut taken = NameMap::new();
                std::mem::swap(self, &mut taken);
                let NameMap { mut keys, mut values } = taken;
                let ghost before = keys@;
                let ghost held = values@;
                let ghost text = name@;
                keys.push(name);
                values.push(value);
                assert(as_map(keys@, values@) =~= as_map(before, held).insert(text, value)) by {
                    lemma_pushed(before, held, keys@[before.len() as int], value);
                }
                *self = NameMap { keys, values };
                assert(self.names() =~= old(self).names().push(text));
            },
        }
    }

    /// Takes the value under `name` out.
    pub fn remove(&mut self, name: &str) -> (value: Option<V>)
        ensures
            final(self)@ == old(self)@.remove(name@),
            match value {
                Some(v) => {
                    &&& old(self)@.contains_key(name@)
                    &&& v == old(self)@[name@]
                    &&& old(self).names().contains(name@)
                    &&& final(self).names() == old(self).names().remove(
                        old(self).names().index_of(name@),
                    )
                },
                None => {
                    &&& !old(self)@.contains_key(name@)
                    &&& !old(self).names().contains(name@)
                    &&& *final(self) == *old(self)
                },
            },
    {
        proof {
            use_type_invariant(&*self);
            self.lemma_names();
        }
        match self.find(name) {
            Some(i) => {
                proof {
                    self.lemma_at(i as int);
                    assert(self.names().index_of(name@) == i);
                    lemma_removed(self.keys@, self.values@, i as int);
                }
                let mut taken = NameMap::new();
                std::mem::swap(self, &mut taken);
                let NameMap { mut keys, mut values } = taken;
                keys.remove(i);
                let value = values.remove(i);
                *self = NameMap { keys, values };
                assert(self.names() =~= old(self).names().remove(i as int));
                Some(value)
            },
            None => {
                assert(self@.remove(name@) =~= self@);
                None
            },
        }
    }
}

impl<V> Default for NameMap<V> {
    fn default() -> (m: Self)
        ensures
            m@ == Map::<Seq<char>, V>::empty(),
            m.names() == Seq::<Seq<char>>::empty(),
    {
        NameMap::new()
    }
}

impl<V: Clone> Clone for NameMap<V> {
    fn clone(&self) -> (m: Self)
        ensures
            m.names() == self.names(),
            m@.dom() == self@.dom(),
            forall|name: Seq<char>| #[trigger]
                m@.contains_key(name) ==> cloned(self@[name], m@[name]),
    {
        proof {
            use_type_invariant(self);
        }
        let mut keys: Vec<String> = Vec::new();
        let mut i: usize = 0;
        while i < self.keys.len()
            invariant
                i == keys@.len(),
                i <= self.keys@.len(),
                forall|k: int| 0 <= k < i ==> keys@[k] == self.keys@[k],
            decreases self.keys@.len() - i,
        {
            keys.push(self.keys[i].clone());
            i = i + 1;
        }
        assert(keys@ =~= self.keys@);
        NameMap { keys, values: self.values.clone() }
    }
}

impl<V: PartialEq> PartialEq for NameMap<V> {
    /// Whether the maps hold the same names, with equal values. The order does not matter.
    fn eq(&self, other: &Self) -> (same: bool) {
        let count = self.len();
        let other_count = other.len();
        let mut i: usize = 0;
        while i < count
            invariant
                count == self.names().len(),
                i <= count,
                forall|k: int|
                    0 <= k < i ==> #[trigger] other@.contains_key(self.names()[k])
                        && (V::obeys_eq_spec() ==> self@[self.names()[k]].eq_spec(
                        &other@[self.names()[k]],
                    )),
            decreases count - i,
        {
            match other.get(self.name_at(i).as_str()) {
                Some(value) => {
                    if !(*self.value_at(i) == *value) {
                        return false;
                    }
                },
                None => {
                    return false;
                },
            }
            i = i + 1;
        }
        let mut j: usize = 0;
        while j < other_count
            invariant
                other_count == other.names().len(),
                j <= other_count,
                forall|k: int| 0 <= k < j ==> #[trigger] self@.contains_key(other.names()[k]),
            decreases other_count - j,
        {
            if !self.contains_key(other.name_at(j).as_str()) {
                return false;
            }
            j = j + 1;
        }
        proof {
            assert forall|name: Seq<char>| self@.contains_key(name) implies (
            #[trigger] other@.contains_key(name)) && (V::obeys_eq_spec() ==> self@[name].eq_spec(
                &other@[name],
            )) by {
                assert(self.names().contains(name));
                let k = self.names().index_of(name);
                assert(other@.contains_key(self.names()[k]));
            }
            assert forall|name: Seq<char>| other@.contains_key(name) implies self@.contains_key(
                name,
            ) by {
                assert(other.names().contains(name));
                let k = other.names().index_of(name);
                assert(self@.contains_key(other.names()[k]));
            }
            assert(self@.dom() =~= other@.dom());
        }
        true
    }
}

impl<V: PartialEq> vstd::std_specs::cmp::PartialEqSpecImpl for NameMap<V> {
    open spec fn obeys_eq_spec() -> bool {
        V::obeys_eq_spec()
    }

    open spec fn eq_spec(&self, other: &Self) -> bool {
        &&& self@.dom() == other@.dom()
        &&& forall|name: Seq<char>| #[trigger]
            self@.contains_key(name) ==> self@[name].eq_spec(&other@[name])
    }
}

impl<V: Eq> Eq for NameMap<V> {

}

} // verus!
