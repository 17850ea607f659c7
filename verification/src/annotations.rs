//! The annotations of an instance: values under keys, each key once.

use vstd::prelude::*;

verus! {

/// A map from keys to values, both texts. No key occurs twice: a value
/// inserted under a key that is there already takes the place of the old
/// one.
#[derive(Debug)]
pub struct Annotations {
    pairs: Vec<(String, String)>,
}

/// Whether no two pairs share a key.
pub open spec fn distinct_keys(pairs: Seq<(String, String)>) -> bool {
    forall|i: int, j: int|
        0 <= i < j < pairs.len() ==> (#[trigger] pairs[i]).0@ != (#[trigger] pairs[j]).0@
}

/// Whether some pair has the key `key`.
pub open spec fn holds_key(pairs: Seq<(String, String)>, key: Seq<char>) -> bool {
    exists|i: int| 0 <= i < pairs.len() && (#[trigger] pairs[i]).0@ == key
}

/// The place of a pair with the key `key`.
pub open spec fn place_of(pairs: Seq<(String, String)>, key: Seq<char>) -> int {
    choose|i: int| 0 <= i < pairs.len() && (#[trigger] pairs[i]).0@ == key
}

/// The map that a list of pairs stands for.
pub open spec fn map_of(pairs: Seq<(String, String)>) -> Map<Seq<char>, Seq<char>> {
    Map::new(
        |key: Seq<char>| holds_key(pairs, key),
        |key: Seq<char>| pairs[place_of(pairs, key)].1@,
    )
}

impl View for Annotations {
    type V = Map<Seq<char>, Seq<char>>;

    closed spec fn view(&self) -> Map<Seq<char>, Seq<char>> {
        map_of(self.pairs@)
    }
}

impl Annotations {
    /// No key occurs twice.
    #[verifier::type_invariant]
    spec fn well_formed(self) -> bool {
        distinct_keys(self.pairs@)
    }

    /// No annotations.
    pub fn new() -> (empty: Annotations)
        ensures
            empty@ == Map::<Seq<char>, Seq<char>>::empty(),
    {
        let empty = Annotations { pairs: Vec::new() };
        assert(empty@ =~= Map::<Seq<char>, Seq<char>>::empty());
        empty
    }

    /// The place of the pair with the key `key`, if there is one.
    fn find(&self, key: &String) -> (place: Option<usize>)
        ensures
            match place {
                Some(i) => i < self.pairs.len() && self.pairs[i as int].0@ == key@,
                None => !holds_key(self.pairs@, key@),
            },
    {
        let mut i: usize = 0;
        while i < self.pairs.len()
            invariant
                i <= self.pairs.len(),
                forall|k: int| 0 <= k < i ==> (#[trigger] self.pairs[k]).0@ != key@,
            decreases self.pairs.len() - i,
        {
            if self.pairs[i].0 == *key {
                return Some(i);
            }
            i += 1;
        }
        None
    }

    /// The value under `key`, if there is one.
    pub fn get(&self, key: &str) -> (value: Option<String>)
        ensures
            match value {
                Some(text) => self@.contains_key(key@) && self@[key@] == text@,
                None => !self@.contains_key(key@),
            },
    {
        proof {
            use_type_invariant(self);
        }
        let wanted = key.to_owned();
        match self.find(&wanted) {
            Some(i) => {
                assert(holds_key(self.pairs@, key@));
                assert(place_of(self.pairs@, key@) == i);
                Some(self.pairs[i].1.clone())
            },
            None => None,
        }
    }

    /// The annotations with `value` under `key`, in the place of the value
    /// that stood there, if any.
    pub fn insert(self, key: String, value: String) -> (grown: Annotations)
        ensures
            grown@ == self@.insert(key@, value@),
    {
        proof {
            use_type_invariant(&self);
        }
        let ghost before = self.pairs@;
        let ghost k = key@;
        let ghost v = value@;
        let found = self.find(&key);
        let mut pairs = self.pairs;
        match found {
            Some(i) => {
                pairs.set(i, (key, value));
                proof {
                    let after = pairs@;
                    assert forall|a: int, b: int| 0 <= a < b < after.len() implies (
                    #[trigger] after[a]).0@ != (#[trigger] after[b]).0@ by {
                        assert(after[a].0@ == before[a].0@);
                        assert(after[b].0@ == before[b].0@);
                    }
                    assert forall|key: Seq<char>| holds_key(after, key) == holds_key(
                        before,
                        key,
                    ) || key == k by {
                        if holds_key(after, key) {
                            let j = choose|j: int|
                                0 <= j < after.len() && (#[trigger] after[j]).0@ == key;
                            assert(before[j].0@ == after[j].0@);
                        }
                        if holds_key(before, key) {
                            let j = choose|j: int|
                                0 <= j < before.len() && (#[trigger] before[j]).0@ == key;
                            assert(after[j].0@ == before[j].0@);
                        }
                    }
                    assert(after[i as int].0@ == k);
                    assert(holds_key(after, k));
                    assert forall|key: Seq<char>| holds_key(after, key) implies map_of(after)[key]
                        == map_of(before).insert(k, v)[key] by {
                        let j = place_of(after, key);
                        assert(before[j].0@ == after[j].0@);
                        if key == k {
                            assert(j == i);
                        } else {
                            assert(holds_key(before, key));
                            assert(place_of(before, key) == j);
                        }
                    }
                    assert(map_of(after) =~= map_of(before).insert(k, v));
                }
            },
            None => {
                pairs.push((key, value));
                proof {
                    let after = pairs@;
                    assert forall|a: int, b: int| 0 <= a < b < after.len() implies (
                    #[trigger] after[a]).0@ != (#[trigger] after[b]).0@ by {
                        assert(after[a] == before[a]);
                        if b < before.len() {
                            assert(after[b] == before[b]);
                        }
                    }
                    assert(after[before.len() as int].0@ == k);
                    assert(holds_key(after, k));
                    assert forall|key: Seq<char>| holds_key(after, key) == (holds_key(
                        before,
                        key,
                    ) || key == k) by {
                        if holds_key(before, key) {
                            let j = choose|j: int|
                                0 <= j < before.len() && (#[trigger] before[j]).0@ == key;
                            assert(after[j] == before[j]);
                        }
                        if holds_key(after, key) && key != k {
                            let j = choose|j: int|
                                0 <= j < after.len() && (#[trigger] after[j]).0@ == key;
                            assert(after[j] == before[j]);
                        }
                    }
                    assert forall|key: Seq<char>| holds_key(after, key) implies map_of(after)[key]
                        == map_of(before).insert(k, v)[key] by {
                        let j = place_of(after, key);
                        if key == k {
                            assert(j == before.len());
                        } else {
                            assert(after[j] == before[j]);
                            assert(holds_key(before, key));
                            assert(place_of(before, key) == j);
                        }
                    }
                    assert(map_of(after) =~= map_of(before).insert(k, v));
                }
            },
        }
        Annotations { pairs }
    }
}

} // verus!
