//! A map from path to path that keeps one value per key.
//!
//! The pairs live in a vector in the order in which their keys first came,
//! so that walking the map gives the same order on every run.

use vstd::prelude::*;

verus! {

/// A pair of strings as a pair of character sequences.
pub open spec fn pair_view(pair: (String, String)) -> (Seq<char>, Seq<char>) {
    (pair.0@, pair.1@)
}

/// A list of pairs of strings as a list of pairs of character sequences.
pub open spec fn pairs_view(pairs: Seq<(String, String)>) -> Seq<(Seq<char>, Seq<char>)> {
    pairs.map_values(|pair: (String, String)| pair_view(pair))
}

/// The map that a list of pairs denotes: of two pairs with one key the later
/// one decides.
pub open spec fn map_of(pairs: Seq<(Seq<char>, Seq<char>)>) -> Map<Seq<char>, Seq<char>>
    decreases pairs.len(),
{
    if pairs.len() == 0 {
        Map::empty()
    } else {
        map_of(pairs.drop_last()).insert(pairs.last().0, pairs.last().1)
    }
}

/// No key stands in two pairs.
pub open spec fn keys_distinct(pairs: Seq<(Seq<char>, Seq<char>)>) -> bool {
    forall|i: int, j: int| 0 <= i < j < pairs.len() ==> pairs[i].0 != pairs[j].0
}

proof fn lemma_map_of_keys(pairs: Seq<(Seq<char>, Seq<char>)>, key: Seq<char>)
    ensures
        map_of(pairs).contains_key(key) <==> exists|i: int|
            0 <= i < pairs.len() && (#[trigger] pairs[i]).0 == key,
    decreases pairs.len(),
{
    if pairs.len() > 0 {
        let front = pairs.drop_last();
        lemma_map_of_keys(front, key);
        if map_of(pairs).contains_key(key) {
            if pairs.last().0 == key {
                assert(pairs[pairs.len() - 1].0 == key);
            } else {
                let i = choose|i: int| 0 <= i < front.len() && (#[trigger] front[i]).0 == key;
                assert(pairs[i].0 == key);
            }
        }
        if exists|i: int| 0 <= i < pairs.len() && (#[trigger] pairs[i]).0 == key {
            let i = choose|i: int| 0 <= i < pairs.len() && (#[trigger] pairs[i]).0 == key;
            if i < pairs.len() - 1 {
                assert(front[i].0 == key);
            }
        }
    }
}

proof fn lemma_map_of_value(pairs: Seq<(Seq<char>, Seq<char>)>, i: int)
    requires
        keys_distinct(pairs),
        0 <= i < pairs.len(),
    ensures
        map_of(pairs).contains_key(pairs[i].0),
        map_of(pairs)[pairs[i].0] == pairs[i].1,
    decreases pairs.len(),
{
    let front = pairs.drop_last();
    if i < pairs.len() - 1 {
        assert(keys_distinct(front)) by {
            assert forall|a: int, b: int| 0 <= a < b < front.len() implies front[a].0
                != front[b].0 by {
                assert(pairs[a].0 != pairs[b].0);
            }
        }
        lemma_map_of_value(front, i);
        assert(front[i] == pairs[i]);
        assert(pairs[i].0 != pairs[pairs.len() - 1].0);
    }
}

proof fn lemma_map_of_replace(pairs: Seq<(Seq<char>, Seq<char>)>, i: int, value: Seq<char>)
    requires
        keys_distinct(pairs),
        0 <= i < pairs.len(),
    ensures
        keys_distinct(pairs.update(i, (pairs[i].0, value))),
        map_of(pairs.update(i, (pairs[i].0, value))) == map_of(pairs).insert(pairs[i].0, value),
    decreases pairs.len(),
{
    let key = pairs[i].0;
    let after = pairs.update(i, (key, value));
    assert(keys_distinct(after)) by {
        assert forall|a: int, b: int| 0 <= a < b < after.len() implies after[a].0
            != after[b].0 by {
            assert(pairs[a].0 != pairs[b].0);
        }
    }
    let front = pairs.drop_last();
    if i == pairs.len() - 1 {
        assert(after.drop_last() =~= front);
        assert(map_of(after) =~= map_of(pairs).insert(key, value));
    } else {
        assert(keys_distinct(front)) by {
            assert forall|a: int, b: int| 0 <= a < b < front.len() implies front[a].0
                != front[b].0 by {
                assert(pairs[a].0 != pairs[b].0);
            }
        }
        lemma_map_of_replace(front, i, value);
        assert(front[i] == pairs[i]);
        assert(after.drop_last() =~= front.update(i, (key, value)));
        assert(after.last() == pairs.last());
        assert(pairs[i].0 != pairs[pairs.len() - 1].0);
        assert(map_of(after) =~= map_of(pairs).insert(key, value));
    }
}

proof fn lemma_map_of_len(pairs: Seq<(Seq<char>, Seq<char>)>)
    requires
        keys_distinct(pairs),
    ensures
        map_of(pairs).dom().finite(),
        map_of(pairs).dom().len() == pairs.len(),
    decreases pairs.len(),
{
    if pairs.len() > 0 {
        let front = pairs.drop_last();
        assert(keys_distinct(front)) by {
            assert forall|a: int, b: int| 0 <= a < b < front.len() implies front[a].0
                != front[b].0 by {
                assert(pairs[a].0 != pairs[b].0);
            }
        }
        lemma_map_of_len(front);
        lemma_map_of_keys(front, pairs.last().0);
        assert(!map_of(front).contains_key(pairs.last().0)) by {
            if exists|i: int| 0 <= i < front.len() && (#[trigger] front[i]).0 == pairs.last().0 {
                let i = choose|i: int|
                    0 <= i < front.len() && (#[trigger] front[i]).0 == pairs.last().0;
                assert(pairs[i].0 != pairs[pairs.len() - 1].0);
            }
        }
        assert(map_of(pairs).dom() =~= map_of(front).dom().insert(pairs.last().0));
    }
}

/// A pair of the list has the key.
pub open spec fn has_key(pairs: Seq<(Seq<char>, Seq<char>)>, key: Seq<char>) -> bool {
    exists|i: int| 0 <= i < pairs.len() && (#[trigger] pairs[i]).0 == key
}

/// Where a pair of the list has the key.
pub open spec fn place_of(pairs: Seq<(Seq<char>, Seq<char>)>, key: Seq<char>) -> int {
    choose|i: int| 0 <= i < pairs.len() && (#[trigger] pairs[i]).0 == key
}

/// The list after `key` got `value`: the pair with the key has the new value
/// at its old place, and a key that is new stands at the end.
pub open spec fn put(pairs: Seq<(Seq<char>, Seq<char>)>, key: Seq<char>, value: Seq<char>) -> Seq<
    (Seq<char>, Seq<char>),
> {
    if has_key(pairs, key) {
        pairs.update(place_of(pairs, key), (key, value))
    } else {
        pairs.push((key, value))
    }
}

/// The list after every pair of `more` was put, one after another.
pub open spec fn put_all(
    pairs: Seq<(Seq<char>, Seq<char>)>,
    more: Seq<(Seq<char>, Seq<char>)>,
) -> Seq<(Seq<char>, Seq<char>)>
    decreases more.len(),
{
    if more.len() == 0 {
        pairs
    } else {
        put(put_all(pairs, more.drop_last()), more.last().0, more.last().1)
    }
}

/// A finite map from string to string, one value per key. The pairs keep the
/// order in which their keys first came.
#[derive(Debug)]
pub struct RenameMap {
    entries: Vec<(String, String)>,
}

impl View for RenameMap {
    type V = Map<Seq<char>, Seq<char>>;

    closed spec fn view(&self) -> Map<Seq<char>, Seq<char>> {
        map_of(pairs_view(self.entries@))
    }
}

impl RenameMap {
    #[verifier::type_invariant]
    spec fn keys_unique(self) -> bool {
        keys_distinct(pairs_view(self.entries@))
    }

    /// The pairs of the map, in the order in which their keys first came.
    pub closed spec fn pairs(&self) -> Seq<(Seq<char>, Seq<char>)> {
        pairs_view(self.entries@)
    }

    /// The map without any key.
    pub fn new() -> (r: RenameMap)
        ensures
            r@ == Map::<Seq<char>, Seq<char>>::empty(),
            r.pairs() == Seq::<(Seq<char>, Seq<char>)>::empty(),
    {
        let map = RenameMap { entries: Vec::new() };
        assert(map.pairs() =~= Seq::<(Seq<char>, Seq<char>)>::empty());
        map
    }

    /// Where `key` stands among the pairs, if it does.
    fn position(&self, key: &String) -> (r: Option<usize>)
        ensures
            match r {
                Some(i) => i < self.entries@.len() && self.entries@[i as int].0@ == key@,
                None => forall|i: int|
                    0 <= i < self.entries@.len() ==> (#[trigger] self.entries@[i]).0@ != key@,
            },
    {
        let mut i: usize = 0;
        while i < self.entries.len()
            invariant
                i <= self.entries@.len(),
                forall|j: int| 0 <= j < i ==> (#[trigger] self.entries@[j]).0@ != key@,
            decreases self.entries@.len() - i,
        {
            if self.entries[i].0 == *key {
                return Some(i);
            }
            i += 1;
        }
        None
    }

    /// Whether the map has a value for `key`.
    pub fn contains_key(&self, key: &String) -> (r: bool)
        ensures
            r == self@.contains_key(key@),
    {
        let found = self.position(key);
        proof {
            let pairs = pairs_view(self.entries@);
            lemma_map_of_keys(pairs, key@);
            if let Some(i) = found {
                assert(pairs[i as int].0 == key@);
            } else {
                assert forall|i: int| 0 <= i < pairs.len() implies (#[trigger] pairs[i]).0
                    != key@ by {
                    assert(self.entries@[i].0@ != key@);
                }
            }
        }
        found.is_some()
    }

    /// The value that the map has for `key`, if it has one.
    pub fn get(&self, key: &String) -> (r: Option<&String>)
        ensures
            match r {
                Some(value) => self@.contains_key(key@) && self@[key@] == value@,
                None => !self@.contains_key(key@),
            },
    {
        let found = self.position(key);
        proof {
            use_type_invariant(self);
            let pairs = pairs_view(self.entries@);
            lemma_map_of_keys(pairs, key@);
            if let Some(i) = found {
                assert(pairs[i as int].0 == key@);
                lemma_map_of_value(pairs, i as int);
            } else {
                assert forall|i: int| 0 <= i < pairs.len() implies (#[trigger] pairs[i]).0
                    != key@ by {
                    assert(self.entries@[i].0@ != key@);
                }
            }
        }
        match found {
            Some(i) => Some(&self.entries[i].1),
            None => None,
        }
    }

    /// How many keys the map has.
    pub fn len(&self) -> (r: usize)
        ensures
            self@.dom().finite(),
            r == self@.dom().len(),
    {
        proof {
            use_type_invariant(self);
            lemma_map_of_len(pairs_view(self.entries@));
        }
        self.entries.len()
    }

    /// Gives `key` the value `value`, whether or not it had one.
    pub fn insert(&mut self, key: String, value: String)
        ensures
            final(self)@ == old(self)@.insert(key@, value@),
            final(self).pairs() == put(old(self).pairs(), key@, value@),
    {
        proof {
            use_type_invariant(&*self);
        }
        let found = self.position(&key);
        let ghost before = pairs_view(self.entries@);
        let mut entries: Vec<(String, String)> = Vec::new();
        core::mem::swap(&mut self.entries, &mut entries);
        assert(pairs_view(entries@) == before);
        match found {
            Some(i) => {
                proof {
                    assert(before[i as int].0 == key@);
                    lemma_map_of_replace(before, i as int, value@);
                    let place = place_of(before, key@);
                    assert(before[place].0 == key@);
                    assert(place == i) by {
                        if place < i {
                            assert(before[place].0 != before[i as int].0);
                        }
                        if i < place {
                            assert(before[i as int].0 != before[place].0);
                        }
                    }
                }
                entries.set(i, (key, value));
                assert(pairs_view(entries@) =~= before.update(i as int, (key@, value@)));
            },
            None => {
                entries.push((key, value));
                proof {
                    let after = pairs_view(entries@);
                    assert(!has_key(before, key@)) by {
                        if has_key(before, key@) {
                            let place = place_of(before, key@);
                            assert(old(self).entries@[place].0@ != key@);
                        }
                    }
                    assert(after =~= before.push((key@, value@)));
                    assert(after.drop_last() =~= before);
                    assert forall|a: int, b: int| 0 <= a < b < after.len() implies after[a].0
                        != after[b].0 by {
                        if b == after.len() - 1 {
                            assert(old(self).entries@[a].0@ != key@);
                        } else {
                            assert(before[a].0 != before[b].0);
                        }
                    }
                }
            },
        }
        self.entries = entries;
    }

    /// Takes over every pair of `other`; where both maps have a key, the
    /// value of `other` stays.
    pub fn extend(&mut self, other: &RenameMap)
        ensures
            final(self)@ == old(self)@.union_prefer_right(other@),
            final(self).pairs() == put_all(old(self).pairs(), other.pairs()),
    {
        let ghost theirs = pairs_view(other.entries@);
        let mut i: usize = 0;
        assert(self@ =~= old(self)@.union_prefer_right(map_of(theirs.take(0))));
        while i < other.entries.len()
            invariant
                i <= other.entries@.len(),
                theirs == pairs_view(other.entries@),
                self@ == old(self)@.union_prefer_right(map_of(theirs.take(i as int))),
                self.pairs() == put_all(old(self).pairs(), theirs.take(i as int)),
            decreases other.entries@.len() - i,
        {
            let key = other.entries[i].0.clone();
            let value = other.entries[i].1.clone();
            proof {
                let next = theirs.take(i + 1);
                assert(next.drop_last() =~= theirs.take(i as int));
                assert(next.last() == (key@, value@));
                assert(old(self)@.union_prefer_right(map_of(next)) =~= old(self)@.union_prefer_right(
                    map_of(theirs.take(i as int)),
                ).insert(key@, value@));
            }
            self.insert(key, value);
            i += 1;
        }
        assert(theirs.take(i as int) =~= theirs);
    }

    /// The pairs of the map, each key once, in the order in which the keys
    /// first came.
    pub fn to_pairs(&self) -> (r: Vec<(String, String)>)
        ensures
            pairs_view(r@) == self.pairs(),
            keys_distinct(pairs_view(r@)),
            map_of(pairs_view(r@)) == self@,
    {
        proof {
            use_type_invariant(self);
        }
        let mut pairs: Vec<(String, String)> = Vec::new();
        let mut i: usize = 0;
        while i < self.entries.len()
            invariant
                i <= self.entries@.len(),
                pairs_view(pairs@) == pairs_view(self.entries@).take(i as int),
            decreases self.entries@.len() - i,
        {
            let key = self.entries[i].0.clone();
            let value = self.entries[i].1.clone();
            let ghost before = pairs_view(pairs@);
            pairs.push((key, value));
            assert(pairs_view(pairs@) =~= before.push(pairs_view(self.entries@)[i as int]));
            i += 1;
            assert(pairs_view(pairs@) =~= pairs_view(self.entries@).take(i as int));
        }
        assert(pairs_view(self.entries@).take(i as int) =~= pairs_view(self.entries@));
        pairs
    }

    /// The map that a list of pairs denotes: a later pair replaces the value
    /// of an earlier one with the same key.
    pub fn from_pairs(pairs: &Vec<(String, String)>) -> (r: RenameMap)
        ensures
            r@ == map_of(pairs_view(pairs@)),
            r.pairs() == put_all(Seq::empty(), pairs_view(pairs@)),
    {
        let mut map = RenameMap::new();
        let mut i: usize = 0;
        while i < pairs.len()
            invariant
                i <= pairs@.len(),
                map@ == map_of(pairs_view(pairs@).take(i as int)),
                map.pairs() == put_all(Seq::empty(), pairs_view(pairs@).take(i as int)),
            decreases pairs@.len() - i,
        {
            let key = pairs[i].0.clone();
            let value = pairs[i].1.clone();
            proof {
                let next = pairs_view(pairs@).take(i + 1);
                assert(next.drop_last() =~= pairs_view(pairs@).take(i as int));
                assert(next.last() == (key@, value@));
            }
            map.insert(key, value);
            i += 1;
        }
        assert(pairs_view(pairs@).take(i as int) =~= pairs_view(pairs@));
        map
    }
}

impl Clone for RenameMap {
    fn clone(&self) -> (r: RenameMap)
        ensures
            r@ == self@,
            r.pairs() == self.pairs(),
    {
        let entries = self.to_pairs();
        RenameMap { entries }
    }
}

impl Default for RenameMap {
    fn default() -> (r: RenameMap)
        ensures
            r@ == Map::<Seq<char>, Seq<char>>::empty(),
    {
        RenameMap::new()
    }
}

} // verus!
