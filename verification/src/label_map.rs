//! A map from labels to values that is walked in a fixed order.
use vstd::prelude::*;

verus! {

/// A map from labels to values, walked in the order in which its labels came in.
///
/// A label occurs once. Inserting under a label that is there replaces its value and keeps its
/// place in the walk.
pub struct LabelMap<V> {
    labels: Vec<String>,
    values: Vec<V>,
}

impl<V> LabelMap<V> {
    /// The labels in the order of the walk.
    pub closed spec fn order(&self) -> Seq<Seq<char>> {
        self.labels@.map_values(|label: String| label@)
    }

    /// What the map holds under each label.
    pub closed spec fn view(&self) -> Map<Seq<char>, V> {
        Map::new(
            |label: Seq<char>| self.order().contains(label),
            |label: Seq<char>| self.values@[self.order().index_of(label)],
        )
    }

    #[verifier::type_invariant]
    spec fn aligned(self) -> bool {
        &&& self.labels.len() == self.values.len()
        &&& self.order().no_duplicates()
    }

    /// The walk visits exactly the labels under which the map holds a value.
    pub broadcast proof fn lemma_walk(&self, label: Seq<char>)
        ensures
            #[trigger] self@.contains_key(label) <==> self.order().contains(label),
    {
    }

    /// The value that stands at a place of the walk.
    proof fn lemma_value_at(self, i: int)
        requires
            self.aligned(),
            0 <= i < self.order().len(),
        ensures
            self@.contains_key(self.order()[i]),
            self@[self.order()[i]] == self.values@[i],
            self.order().index_of(self.order()[i]) == i,
    {
        let label = self.order()[i];
        assert(self.order().contains(label));
        let j = self.order().index_of(label);
        assert(0 <= j < self.order().len() && self.order()[j] == label);
    }

    /// A map that agrees with the walk, place by place, is what this map holds.
    proof fn lemma_holds(self, held: Map<Seq<char>, V>)
        requires
            self.aligned(),
            forall|label: Seq<char>| #[trigger]
                held.contains_key(label) ==> self.order().contains(label),
            forall|i: int|
                #![trigger self.order()[i]]
                0 <= i < self.order().len() ==> held.contains_key(self.order()[i])
                    && held[self.order()[i]] == self.values@[i],
        ensures
            self@ == held,
    {
        assert forall|label: Seq<char>| self@.contains_key(label) implies self@[label]
            == held[label] by {
            let i = self.order().index_of(label);
            assert(0 <= i < self.order().len() && self.order()[i] == label);
        }
        assert(self@ =~= held);
    }

    /// An empty map.
    pub fn new() -> (map: Self)
        ensures
            map@ == Map::<Seq<char>, V>::empty(),
            map.order() == Seq::<Seq<char>>::empty(),
    {
        let map = LabelMap { labels: Vec::new(), values: Vec::new() };
        assert(map.order() =~= Seq::<Seq<char>>::empty());
        assert(map@ =~= Map::<Seq<char>, V>::empty());
        map
    }

    /// The number of labels.
    pub fn len(&self) -> (len: usize)
        ensures
            len == self.order().len(),
            self.order().no_duplicates(),
    {
        proof {
            use_type_invariant(self);
        }
        self.labels.len()
    }

    /// The labels in the order of the walk.
    pub fn labels(&self) -> (labels: Vec<String>)
        ensures
            labels@.map_values(|label: String| label@) == self.order(),
            self.order().no_duplicates(),
    {
        proof {
            use_type_invariant(self);
        }
        let mut labels: Vec<String> = Vec::new();
        let mut i: usize = 0;
        assert(labels@.map_values(|label: String| label@) =~= self.order().take(0));
        while i < self.labels.len()
            invariant
                i <= self.labels.len(),
                labels@.map_values(|label: String| label@) == self.order().take(i as int),
            decreases self.labels.len() - i,
        {
            let ghost before = labels@.map_values(|label: String| label@);
            labels.push(self.labels[i].clone());
            assert(labels@.map_values(|label: String| label@) =~= before.push(
                self.order()[i as int],
            ));
            assert(self.order().take(i + 1) =~= before.push(self.order()[i as int]));
            i += 1;
        }
        assert(self.order().take(i as int) =~= self.order());
        labels
    }

    /// Where `label` stands in the walk.
    fn find(&self, label: &str) -> (found: Option<usize>)
        ensures
            match found {
                Some(i) => i < self.order().len() && self.order()[i as int] == label@
                    && self@.contains_key(label@) && self@[label@] == self.values@[i as int],
                None => !self.order().contains(label@) && !self@.contains_key(label@),
            },
    {
        proof {
            use_type_invariant(self);
        }
        let wanted = label.to_owned();
        let mut i: usize = 0;
        while i < self.labels.len()
            invariant
                i <= self.labels.len(),
                wanted@ == label@,
                self.aligned(),
                forall|j: int| 0 <= j < i ==> self.order()[j] != label@,
            decreases self.labels.len() - i,
        {
            if self.labels[i] == wanted {
                assert(self.order()[i as int] == label@);
                proof {
                    self.lemma_value_at(i as int);
                }
                return Some(i);
            }
            i += 1;
        }
        None
    }

    /// The label at a place of the walk.
    pub fn label_at(&self, i: usize) -> (label: &String)
        requires
            i < self.order().len(),
        ensures
            label@ == self.order()[i as int],
            self@.contains_key(label@),
    {
        proof {
            use_type_invariant(self);
            self.lemma_value_at(i as int);
        }
        &self.labels[i]
    }

    /// The value at a place of the walk.
    pub fn value_at(&self, i: usize) -> (value: &V)
        requires
            i < self.order().len(),
        ensures
            self@.contains_key(self.order()[i as int]),
            *value == self@[self.order()[i as int]],
    {
        proof {
            use_type_invariant(self);
            self.lemma_value_at(i as int);
        }
        &self.values[i]
    }

    /// The value under `label`.
    pub fn get(&self, label: &str) -> (value: Option<&V>)
        ensures
            match value {
                Some(v) => self@.contains_key(label@) && *v == self@[label@],
                None => !self@.contains_key(label@),
            },
    {
        match self.find(label) {
            Some(i) => {
                proof {
                    use_type_invariant(self);
                }
                Some(&self.values[i])
            },
            None => None,
        }
    }

    /// Whether there is a value under `label`.
    pub fn contains_key(&self, label: &str) -> (there: bool)
        ensures
            there == self@.contains_key(label@),
    {
        self.find(label).is_some()
    }

    /// Puts `value` under `label`, and gives back the value that was there.
    pub fn insert(&mut self, label: String, value: V) -> (previous: Option<V>)
        ensures
            final(self)@ == old(self)@.insert(label@, value),
            final(self).order() == (if old(self)@.contains_key(label@) {
                old(self).order()
            } else {
                old(self).order().push(label@)
            }),
            previous == (if old(self)@.contains_key(label@) {
                Some(old(self)@[label@])
            } else {
                None
            }),
    {
        let found = self.find(label.as_str());
        proof {
            use_type_invariant(&*self);
        }
        let ghost before = *self;
        let ghost key = label@;
        let mut taken = LabelMap::new();
        std::mem::swap(&mut taken, self);
        let LabelMap { mut labels, mut values } = taken;
        let previous = match found {
            Some(i) => {
                values.push(value);
                let previous = values.swap_remove(i);
                assert(values@ =~= before.values@.update(i as int, value));
                Some(previous)
            },
            None => {
                labels.push(label);
                values.push(value);
                None
            },
        };
        let ghost order = labels@.map_values(|label: String| label@);
        proof {
            if found is None {
                assert(order =~= before.order().push(key));
                assert(forall|j: int| 0 <= j < before.order().len() ==> before.order()[j] != key);
            }
            assert(order.no_duplicates());
        }
        *self = LabelMap { labels, values };
        proof {
            let held = before@.insert(key, value);
            assert forall|i: int| #![trigger self.order()[i]] 0 <= i < self.order().len() implies
                held.contains_key(self.order()[i]) && held[self.order()[i]] == self.values@[i] by {
                if i < before.order().len() {
                    before.lemma_value_at(i);
                    assert(self.order()[i] == before.order()[i]);
                }
            }
            assert forall|other: Seq<char>| #[trigger] held.contains_key(other) implies
                self.order().contains(other) by {
                if before.order().contains(other) {
                    let j = before.order().index_of(other);
                    assert(self.order()[j] == other);
                } else {
                    assert(self.order()[self.order().len() - 1] == key);
                }
            }
            self.lemma_holds(held);
        }
        previous
    }

    /// Takes away what is under `label`, and gives it back.
    pub fn remove(&mut self, label: &str) -> (removed: Option<V>)
        ensures
            final(self)@ == old(self)@.remove(label@),
            final(self).order() == (if old(self)@.contains_key(label@) {
                old(self).order().remove(old(self).order().index_of(label@))
            } else {
                old(self).order()
            }),
            removed == (if old(self)@.contains_key(label@) {
                Some(old(self)@[label@])
            } else {
                None
            }),
    {
        let found = self.find(label);
        proof {
            use_type_invariant(&*self);
        }
        let ghost before = *self;
        match found {
            Some(i) => {
                proof {
                    self.lemma_value_at(i as int);
                }
                let mut taken = LabelMap::new();
                std::mem::swap(&mut taken, self);
                let LabelMap { mut labels, mut values } = taken;
                let _ = labels.remove(i);
                let removed = values.remove(i);
                let ghost order = labels@.map_values(|label: String| label@);
                proof {
                    assert(order =~= before.order().remove(i as int));
                    assert(order.no_duplicates());
                }
                *self = LabelMap { labels, values };
                proof {
                    let held = before@.remove(label@);
                    assert forall|j: int|
                        #![trigger self.order()[j]]
                        0 <= j < self.order().len() implies held.contains_key(self.order()[j])
                        && held[self.order()[j]] == self.values@[j] by {
                        let k = if j < i { j } else { j + 1 };
                        before.lemma_value_at(k);
                        assert(self.order()[j] == before.order()[k]);
                    }
                    assert forall|other: Seq<char>| #[trigger] held.contains_key(other) implies
                        self.order().contains(other) by {
                        let k = before.order().index_of(other);
                        assert(before.order()[k] == other);
                        assert(self.order()[if k < i { k } else { k - 1 }] == other);
                    }
                    self.lemma_holds(held);
                }
                Some(removed)
            },
            None => {
                assert(before@.remove(label@) =~= before@);
                None
            },
        }
    }
}

} // verus!
