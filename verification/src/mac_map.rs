//! Values kept under Bluetooth addresses.

use vstd::prelude::*;

use crate::text::same_text;

verus! {

/// A value of which a second one can be made that says the same.
pub trait Duplicate: View + Sized {
    fn duplicate(&self) -> (res: Self)
        ensures
            res@ == self@,
    ;
}

impl Duplicate for String {
    fn duplicate(&self) -> (res: Self) {
        self.clone()
    }
}

impl Duplicate for Vec<u8> {
    fn duplicate(&self) -> (res: Self) {
        let res: Vec<u8> = self.clone();
        assert(res@ =~= self@);
        res
    }
}

/// A map from strings to values, kept as a list of pairs.
///
/// The maps here are walked as often as they are looked into, and hold a handful
/// of devices each, so a lookup walks the list too. No two pairs have the same key.
#[derive(Debug)]
pub struct MacMap<V> {
    pairs: Vec<(String, V)>,
}

impl<V> MacMap<V> {
    #[verifier::type_invariant]
    spec fn keys_are_distinct(self) -> bool {
        distinct(self.pairs@)
    }

    /// The keys, in the order in which the pairs are walked.
    pub closed spec fn keys(self) -> Seq<Seq<char>> {
        self.pairs@.map_values(|p: (String, V)| p.0@)
    }
}

/// What a list of pairs says of each key, the later pair counting where two have
/// the same.
spec fn pairs_as_map<V: View>(pairs: Seq<(String, V)>) -> Map<Seq<char>, V::V>
    decreases pairs.len(),
{
    if pairs.len() == 0 {
        Map::empty()
    } else {
        pairs_as_map(pairs.drop_last()).insert(pairs.last().0@, pairs.last().1@)
    }
}

impl<V: View> View for MacMap<V> {
    type V = Map<Seq<char>, V::V>;

    closed spec fn view(&self) -> Map<Seq<char>, V::V> {
        pairs_as_map(self.pairs@)
    }
}

spec fn distinct<V>(pairs: Seq<(String, V)>) -> bool {
    forall|i: int, j: int|
        0 <= i < j < pairs.len() ==> #[trigger] pairs[i].0@ != #[trigger] pairs[j].0@
}

/// What a list of pairs with distinct keys says, pair by pair.
proof fn lemma_pairs<V: View>(pairs: Seq<(String, V)>)
    requires
        distinct(pairs),
    ensures
        pairs_as_map(pairs).dom().finite(),
        pairs_as_map(pairs).dom().len() == pairs.len(),
        forall|i: int|
            0 <= i < pairs.len() ==> pairs_as_map(pairs).contains_key(#[trigger] pairs[i].0@)
                && pairs_as_map(pairs)[pairs[i].0@] == pairs[i].1@,
        forall|k: Seq<char>| #[trigger]
            pairs_as_map(pairs).contains_key(k) ==> exists|i: int|
                0 <= i < pairs.len() && #[trigger] pairs[i].0@ == k,
    decreases pairs.len(),
{
    if pairs.len() > 0 {
        let rest = pairs.drop_last();
        assert(forall|i: int| 0 <= i < rest.len() ==> rest[i] == pairs[i]);
        lemma_pairs(rest);
        assert(pairs.last() == pairs[pairs.len() - 1]);
        assert(!pairs_as_map(rest).contains_key(pairs.last().0@));
        assert forall|i: int| 0 <= i < pairs.len() implies pairs_as_map(pairs).contains_key(
            #[trigger] pairs[i].0@,
        ) && pairs_as_map(pairs)[pairs[i].0@] == pairs[i].1@ by {
            if i < rest.len() {
                assert(rest[i].0@ == pairs[i].0@);
            }
        }
        assert forall|k: Seq<char>| #[trigger]
            pairs_as_map(pairs).contains_key(k) implies exists|i: int|
            0 <= i < pairs.len() && #[trigger] pairs[i].0@ == k by {
            if k != pairs.last().0@ {
                let i = choose|i: int| 0 <= i < rest.len() && #[trigger] rest[i].0@ == k;
                assert(pairs[i].0@ == k);
            }
        }
    } else {
        assert(pairs_as_map(pairs).dom() =~= Set::empty());
    }
}

impl<V: View> MacMap<V> {
    /// A map without keys.
    pub fn new() -> (res: Self)
        ensures
            res@ == Map::<Seq<char>, V::V>::empty(),
            res.keys() == Seq::<Seq<char>>::empty(),
    {
        let res = MacMap { pairs: Vec::new() };
        assert(res.keys() =~= Seq::empty());
        res
    }

    /// The keys are listed once each, and there are finitely many.
    proof fn lemma_keys(&self)
        requires
            self.keys_are_distinct(),
        ensures
            self@.dom().finite(),
            self@.dom().len() == self.pairs@.len(),
            self.keys().len() == self.pairs@.len(),
            self.keys().no_duplicates(),
            self.keys().to_set() == self@.dom(),
            forall|i: int|
                0 <= i < self.pairs@.len() ==> #[trigger] self.pairs@[i].0@ == self.keys()[i]
                    && self@.contains_key(self.keys()[i]) && self@[self.keys()[i]]
                    == self.pairs@[i].1@,
    {
        lemma_pairs(self.pairs@);
        assert forall|k: Seq<char>| self.keys().to_set().contains(k) <==> self@.dom().contains(
            k,
        ) by {
            if self.keys().contains(k) {
                let i = choose|i: int| 0 <= i < self.keys().len() && self.keys()[i] == k;
                assert(self.pairs@[i].0@ == k);
            }
            if self@.contains_key(k) {
                let i = choose|i: int|
                    0 <= i < self.pairs@.len() && #[trigger] self.pairs@[i].0@ == k;
                assert(self.keys()[i] == k);
            }
        }
        assert(self.keys().to_set() =~= self@.dom());
        assert forall|i: int, j: int|
            0 <= i < self.keys().len() && 0 <= j < self.keys().len() && i
                != j implies self.keys()[i] != self.keys()[j] by {
            if i < j {
                assert(self.pairs@[i].0@ != self.pairs@[j].0@);
            } else {
                assert(self.pairs@[j].0@ != self.pairs@[i].0@);
            }
        }
    }

    /// How many keys there are.
    pub fn len(&self) -> (res: usize)
        ensures
            res == self@.dom().len(),
            res == self.keys().len(),
            self@.dom().finite(),
            self.keys().no_duplicates(),
            self.keys().to_set() == self@.dom(),
    {
        proof {
            use_type_invariant(self);
            self.lemma_keys();
        }
        self.pairs.len()
    }

    pub fn is_empty(&self) -> (res: bool)
        ensures
            res == (self@ == Map::<Seq<char>, V::V>::empty()),
    {
        proof {
            use_type_invariant(self);
            self.lemma_keys();
            if self.pairs@.len() == 0 {
                assert(self@ =~= Map::empty());
            }
        }
        self.pairs.len() == 0
    }

    /// The key that stands at place `i` of the list.
    pub fn key_at(&self, i: usize) -> (res: &String)
        requires
            i < self.keys().len(),
        ensures
            res@ == self.keys()[i as int],
            self@.contains_key(res@),
    {
        proof {
            use_type_invariant(self);
            self.lemma_keys();
        }
        &self.pairs[i].0
    }

    /// The value that stands at place `i` of the list.
    pub fn value_at(&self, i: usize) -> (res: &V)
        requires
            i < self.keys().len(),
        ensures
            self@.contains_key(self.keys()[i as int]),
            res@ == self@[self.keys()[i as int]],
    {
        proof {
            use_type_invariant(self);
            self.lemma_keys();
        }
        &self.pairs[i].1
    }

    /// Where `key` stands in the list.
    fn find(&self, key: &str) -> (res: Option<usize>)
        ensures
            match res {
                Some(i) => i < self.pairs@.len() && self.pairs@[i as int].0@ == key@
                    && self@.contains_key(key@) && self@[key@] == self.pairs@[i as int].1@,
                None => !self@.contains_key(key@),
            },
    {
        proof {
            use_type_invariant(self);
            self.lemma_keys();
        }
        for i in 0..self.pairs.len()
            invariant
                self.keys().len() == self.pairs@.len(),
                forall|j: int|
                    0 <= j < self.pairs@.len() ==> #[trigger] self.pairs@[j].0@ == self.keys()[j]
                        && self@.contains_key(self.keys()[j]) && self@[self.keys()[j]]
                        == self.pairs@[j].1@,
                forall|j: int| 0 <= j < i ==> #[trigger] self.pairs@[j].0@ != key@,
        {
            if same_text(self.pairs[i].0.as_str(), key) {
                return Some(i);
            }
        }
        proof {
            lemma_pairs(self.pairs@);
        }
        None
    }

    pub fn contains_key(&self, key: &str) -> (res: bool)
        ensures
            res == self@.contains_key(key@),
    {
        self.find(key).is_some()
    }

    pub fn get(&self, key: &str) -> (res: Option<&V>)
        ensures
            match res {
                Some(v) => self@.contains_key(key@) && v@ == self@[key@],
                None => !self@.contains_key(key@),
            },
    {
        match self.find(key) {
            Some(i) => Some(&self.pairs[i].1),
            None => None,
        }
    }

    /// Takes out the pair at place `i` of the list; the pairs after it move up.
    pub fn remove_at(&mut self, i: usize) -> (res: V)
        requires
            i < old(self).keys().len(),
        ensures
            final(self)@ == old(self)@.remove(old(self).keys()[i as int]),
            final(self).keys() == old(self).keys().remove(i as int),
            old(self)@.contains_key(old(self).keys()[i as int]),
            res@ == old(self)@[old(self).keys()[i as int]],
    {
        proof {
            use_type_invariant(&*self);
            self.lemma_keys();
        }
        let ghost before = *self;
        let mut pairs: Vec<(String, V)> = Vec::new();
        std::mem::swap(&mut pairs, &mut self.pairs);
        let pair = pairs.remove(i);
        proof {
            lemma_remove_pair(before.pairs@, i as int);
        }
        self.pairs = pairs;
        assert(self.keys() =~= before.keys().remove(i as int));
        pair.1
    }

    /// Takes out `key` and hands back what it had.
    pub fn remove(&mut self, key: &str) -> (res: Option<V>)
        ensures
            final(self)@ == old(self)@.remove(key@),
            match res {
                Some(v) => old(self)@.contains_key(key@) && v@ == old(self)@[key@],
                None => !old(self)@.contains_key(key@),
            },
    {
        match self.find(key) {
            Some(i) => {
                proof {
                    use_type_invariant(&*self);
                    self.lemma_keys();
                }
                Some(self.remove_at(i))
            },
            None => {
                assert(self@ =~= self@.remove(key@));
                None
            },
        }
    }

    /// Puts `value` under `key`, in place of what was there.
    pub fn insert(&mut self, key: String, value: V)
        ensures
            final(self)@ == old(self)@.insert(key@, value@),
    {
        let ghost before = self@;
        let _ = self.remove(key.as_str());
        proof {
            use_type_invariant(&*self);
            self.lemma_keys();
        }
        let ghost middle = *self;
        let mut pairs: Vec<(String, V)> = Vec::new();
        std::mem::swap(&mut pairs, &mut self.pairs);
        pairs.push((key, value));
        proof {
            assert(pairs@.drop_last() =~= middle.pairs@);
            assert forall|i: int, j: int| 0 <= i < j < pairs@.len() implies #[trigger] pairs@[i].0@
                != #[trigger] pairs@[j].0@ by {
                if j == pairs@.len() - 1 {
                    assert(middle.pairs@[i].0@ == middle.keys()[i]);
                } else {
                    assert(middle.pairs@[i].0@ != middle.pairs@[j].0@);
                }
            }
            assert(before.remove(key@).insert(key@, value@) =~= before.insert(key@, value@));
        }
        self.pairs = pairs;
    }
}

impl MacMap<String> {
    /// Whether each string here stands under the same key there too.
    fn is_part_of(&self, other: &Self) -> (res: bool)
        ensures
            res == forall|k: Seq<char>| #[trigger]
                self@.contains_key(k) ==> other@.contains_key(k) && other@[k] == self@[k],
    {
        let count: usize = self.len();
        for i in 0..count
            invariant
                count == self.keys().len(),
                self.keys().to_set() == self@.dom(),
                forall|j: int|
                    0 <= j < i ==> other@.contains_key(#[trigger] self.keys()[j])
                        && other@[self.keys()[j]] == self@[self.keys()[j]],
        {
            let here: &String = self.value_at(i);
            let same: bool = match other.get(self.key_at(i).as_str()) {
                Some(there) => same_text(here.as_str(), there.as_str()),
                None => false,
            };
            if !same {
                assert(self@.contains_key(self.keys()[i as int]));
                return false;
            }
        }
        assert forall|k: Seq<char>| #[trigger] self@.contains_key(k) implies other@.contains_key(k)
            && other@[k] == self@[k] by {
            assert(self.keys().to_set().contains(k));
            let i = self.keys().index_of(k);
            assert(self.keys()[i] == k);
        }
        true
    }

    /// Whether both maps have the same strings under the same keys.
    pub fn same_entries(&self, other: &Self) -> (res: bool)
        ensures
            res == (self@ == other@),
    {
        let res: bool = self.is_part_of(other) && other.is_part_of(self);
        proof {
            if res {
                assert(self@ =~= other@);
            }
        }
        res
    }
}

impl<V: Duplicate> Clone for MacMap<V> {
    fn clone(&self) -> (res: Self)
        ensures
            res@ == self@,
    {
        proof {
            use_type_invariant(self);
        }
        let mut pairs: Vec<(String, V)> = Vec::new();
        for i in 0..self.pairs.len()
            invariant
                distinct(self.pairs@),
                pairs@.len() == i,
                forall|j: int| 0 <= j < i ==> #[trigger] pairs@[j].0@ == self.pairs@[j].0@,
                forall|j: int| 0 <= j < i ==> #[trigger] pairs@[j].1@ == self.pairs@[j].1@,
        {
            let pair: &(String, V) = &self.pairs[i];
            let key: String = pair.0.clone();
            let value: V = pair.1.duplicate();
            pairs.push((key, value));
        }
        proof {
            assert forall|i: int, j: int| 0 <= i < j < pairs@.len() implies #[trigger] pairs@[i].0@
                != #[trigger] pairs@[j].0@ by {
                assert(self.pairs@[i].0@ != self.pairs@[j].0@);
            }
            lemma_same_pairs(pairs@, self.pairs@);
        }
        MacMap { pairs }
    }
}

proof fn lemma_same_pairs<V: View>(a: Seq<(String, V)>, b: Seq<(String, V)>)
    requires
        a.len() == b.len(),
        forall|i: int|
            0 <= i < a.len() ==> #[trigger] a[i].0@ == b[i].0@ && a[i].1@ == b[i].1@,
    ensures
        pairs_as_map(a) == pairs_as_map(b),
    decreases a.len(),
{
    if a.len() > 0 {
        assert(a[a.len() - 1].0@ == b[b.len() - 1].0@);
        assert forall|i: int| 0 <= i < a.len() - 1 implies #[trigger] a.drop_last()[i].0@
            == b.drop_last()[i].0@ && a.drop_last()[i].1@ == b.drop_last()[i].1@ by {
            assert(a[i].0@ == b[i].0@);
        }
        lemma_same_pairs(a.drop_last(), b.drop_last());
    }
}

proof fn lemma_remove_pair<V: View>(pairs: Seq<(String, V)>, i: int)
    requires
        distinct(pairs),
        0 <= i < pairs.len(),
    ensures
        distinct(pairs.remove(i)),
        pairs_as_map(pairs.remove(i)) == pairs_as_map(pairs).remove(pairs[i].0@),
{
    let rest = pairs.remove(i);
    assert forall|m: int, n: int| 0 <= m < n < rest.len() implies #[trigger] rest[m].0@
        != #[trigger] rest[n].0@ by {
        let old_m = if m < i { m } else { m + 1 };
        let old_n = if n < i { n } else { n + 1 };
        assert(pairs[old_m].0@ != pairs[old_n].0@);
    }
    lemma_pairs(pairs);
    lemma_pairs(rest);
    let with = pairs_as_map(pairs);
    let without = pairs_as_map(rest);
    assert forall|k: Seq<char>|
        without.contains_key(k) == with.remove(pairs[i].0@).contains_key(k) && (
        without.contains_key(k) ==> without[k] == with[k]) by {
        if without.contains_key(k) {
            let m = choose|m: int| 0 <= m < rest.len() && #[trigger] rest[m].0@ == k;
            let old_m = if m < i { m } else { m + 1 };
            assert(pairs[old_m] == rest[m]);
            assert(pairs[old_m].0@ == k);
            if old_m < i {
                assert(pairs[old_m].0@ != pairs[i].0@);
            } else {
                assert(pairs[i].0@ != pairs[old_m].0@);
            }
        }
        if with.contains_key(k) && k != pairs[i].0@ {
            let m = choose|m: int| 0 <= m < pairs.len() && #[trigger] pairs[m].0@ == k;
            let new_m = if m < i { m } else { m - 1 };
            assert(rest[new_m] == pairs[m]);
            assert(rest[new_m].0@ == k);
        }
    }
    assert(without =~= with.remove(pairs[i].0@));
}

} // verus!
