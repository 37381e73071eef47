//! A map from strings to strings, as labels, annotations and tags use it.
use crate::text::str_eq;
use vstd::prelude::*;

verus! {

/// The map that a list of pairs describes, where a later pair overrides an earlier one.
pub open spec fn pairs_map(pairs: Seq<(Seq<char>, Seq<char>)>) -> Map<Seq<char>, Seq<char>>
    decreases pairs.len(),
{
    if pairs.len() == 0 {
        Map::empty()
    } else {
        pairs_map(pairs.drop_last()).insert(pairs.last().0, pairs.last().1)
    }
}

/// Whether no key stands in two pairs.
pub open spec fn keys_distinct(pairs: Seq<(Seq<char>, Seq<char>)>) -> bool {
    forall|i: int, j: int|
        0 <= i < j < pairs.len() ==> (#[trigger] pairs[i]).0 != (#[trigger] pairs[j]).0
}

/// A map from strings to strings that keeps its pairs in the order of first insertion.
#[derive(Debug)]
pub struct StringMap {
    entries: Vec<(String, String)>,
}

impl View for StringMap {
    type V = Map<Seq<char>, Seq<char>>;

    closed spec fn view(&self) -> Map<Seq<char>, Seq<char>> {
        pairs_map(self.entries.deep_view())
    }
}

impl DeepView for StringMap {
    type V = Map<Seq<char>, Seq<char>>;

    open spec fn deep_view(&self) -> Map<Seq<char>, Seq<char>> {
        self.view()
    }
}

/// Every key of `pairs_map` stands in some pair.
pub proof fn lemma_pairs_map_domain(pairs: Seq<(Seq<char>, Seq<char>)>)
    ensures
        forall|k: Seq<char>| #[trigger]
            pairs_map(pairs).contains_key(k) <==> exists|i: int|
                0 <= i < pairs.len() && (#[trigger] pairs[i]).0 == k,
    decreases pairs.len(),
{
    if pairs.len() > 0 {
        let front = pairs.drop_last();
        lemma_pairs_map_domain(front);
        assert forall|k: Seq<char>| #[trigger]
            pairs_map(pairs).contains_key(k) <==> exists|i: int|
                0 <= i < pairs.len() && (#[trigger] pairs[i]).0 == k by {
            if pairs_map(pairs).contains_key(k) {
                if k == pairs.last().0 {
                    assert(pairs[pairs.len() - 1].0 == k);
                } else {
                    assert(pairs_map(front).contains_key(k));
                    let i = choose|i: int| 0 <= i < front.len() && (#[trigger] front[i]).0 == k;
                    assert(pairs[i].0 == k);
                }
            }
            if exists|i: int| 0 <= i < pairs.len() && (#[trigger] pairs[i]).0 == k {
                let i = choose|i: int| 0 <= i < pairs.len() && (#[trigger] pairs[i]).0 == k;
                if i < front.len() {
                    assert(front[i].0 == k);
                    assert(pairs_map(front).contains_key(k));
                }
            }
        }
    }
}

/// Where keys are distinct, each pair is an entry of the map.
pub proof fn lemma_pairs_map_entry(pairs: Seq<(Seq<char>, Seq<char>)>, i: int)
    requires
        keys_distinct(pairs),
        0 <= i < pairs.len(),
    ensures
        pairs_map(pairs).contains_key(pairs[i].0),
        pairs_map(pairs)[pairs[i].0] == pairs[i].1,
    decreases pairs.len(),
{
    if i < pairs.len() - 1 {
        let front = pairs.drop_last();
        assert forall|a: int, b: int| 0 <= a < b < front.len() implies (#[trigger] front[a]).0 != (
        #[trigger] front[b]).0 by {
            assert(pairs[a].0 != pairs[b].0);
        }
        assert(front[i] == pairs[i]);
        lemma_pairs_map_entry(front, i);
        assert(pairs[i].0 != pairs[pairs.len() - 1].0);
    }
}

/// Replacing the value of one pair updates the map at its key.
proof fn lemma_pairs_map_update(
    pairs: Seq<(Seq<char>, Seq<char>)>,
    i: int,
    value: Seq<char>,
)
    requires
        keys_distinct(pairs),
        0 <= i < pairs.len(),
    ensures
        pairs_map(pairs.update(i, (pairs[i].0, value))) == pairs_map(pairs).insert(
            pairs[i].0,
            value,
        ),
    decreases pairs.len(),
{
    let updated = pairs.update(i, (pairs[i].0, value));
    let front = pairs.drop_last();
    if i == pairs.len() - 1 {
        assert(updated.drop_last() =~= front);
        assert(pairs_map(updated) =~= pairs_map(pairs).insert(pairs[i].0, value));
    } else {
        assert forall|a: int, b: int| 0 <= a < b < front.len() implies (#[trigger] front[a]).0 != (
        #[trigger] front[b]).0 by {
            assert(pairs[a].0 != pairs[b].0);
        }
        lemma_pairs_map_update(front, i, value);
        assert(updated.drop_last() =~= front.update(i, (front[i].0, value)));
        assert(pairs[i].0 != pairs[pairs.len() - 1].0);
        assert(pairs_map(updated) =~= pairs_map(pairs).insert(pairs[i].0, value));
    }
}

impl StringMap {
    #[verifier::type_invariant]
    spec fn distinct(self) -> bool {
        keys_distinct(self.entries.deep_view())
    }

    /// The empty map.
    pub fn new() -> (r: Self)
        ensures
            r@ == Map::<Seq<char>, Seq<char>>::empty(),
    {
        StringMap { entries: Vec::new() }
    }

    /// The position of `key` among the pairs.
    fn position(entries: &Vec<(String, String)>, key: &str) -> (r: Option<usize>)
        ensures
            match r {
                Some(i) => i < entries.len() && entries[i as int].0@ == key@,
                None => forall|i: int| 0 <= i < entries.len() ==> (#[trigger] entries[i]).0@ != key@,
            },
    {
        let mut i: usize = 0;
        while i < entries.len()
            invariant
                i <= entries.len(),
                forall|j: int| 0 <= j < i ==> (#[trigger] entries[j]).0@ != key@,
            decreases entries.len() - i,
        {
            if str_eq(entries[i].0.as_str(), key) {
                return Some(i);
            }
            i = i + 1;
        }
        None
    }

    /// The value under `key`.
    pub fn get(&self, key: &str) -> (r: Option<&String>)
        ensures
            r is Some <==> self@.contains_key(key@),
            r matches Some(v) ==> v@ == self@[key@],
    {
        proof {
            use_type_invariant(self);
            lemma_pairs_map_domain(self.entries.deep_view());
        }
        let ghost pairs = self.entries.deep_view();
        match Self::position(&self.entries, key) {
            Some(i) => {
                proof {
                    assert(pairs[i as int].0 == key@);
                    lemma_pairs_map_entry(pairs, i as int);
                }
                Some(&self.entries[i].1)
            },
            None => {
                proof {
                    if self@.contains_key(key@) {
                        let i = choose|i: int|
                            0 <= i < pairs.len() && (#[trigger] pairs[i]).0 == key@;
                        assert(self.entries[i].0@ != key@);
                    }
                }
                None
            },
        }
    }

    /// Puts `value` under `key`, in place of any value that stood there.
    pub fn insert(&mut self, key: String, value: String)
        ensures
            final(self)@ == old(self)@.insert(key@, value@),
    {
        proof {
            use_type_invariant(&*self);
        }
        let mut entries: Vec<(String, String)> = Vec::new();
        std::mem::swap(&mut entries, &mut self.entries);
        let ghost pairs = entries.deep_view();
        match Self::position(&entries, key.as_str()) {
            Some(i) => {
                proof {
                    assert(pairs[i as int].0 == key@);
                    lemma_pairs_map_update(pairs, i as int, value@);
                }
                entries.set(i, (key, value));
                proof {
                    assert(entries.deep_view() =~= pairs.update(i as int, (key@, value@)));
                    assert forall|a: int, b: int| 0 <= a < b < pairs.len() implies (
                    #[trigger] entries.deep_view()[a]).0 != (#[trigger] entries.deep_view()[b]).0 by {
                        assert(pairs[a].0 != pairs[b].0);
                    }
                }
            },
            None => {
                let ghost k = key@;
                let ghost before = entries@;
                entries.push((key, value));
                proof {
                    assert(entries.deep_view() =~= pairs.push((k, value@)));
                    assert(pairs.push((k, value@)).drop_last() =~= pairs);
                    assert forall|a: int, b: int| 0 <= a < b < pairs.len() + 1 implies (
                    #[trigger] entries.deep_view()[a]).0 != (#[trigger] entries.deep_view()[b]).0 by {
                        if b < pairs.len() {
                            assert(pairs[a].0 != pairs[b].0);
                        } else {
                            assert(before[a].0@ != k);
                        }
                    }
                }
            },
        }
        self.entries = entries;
    }

    /// The map that a list of pairs describes, where a later pair overrides an earlier one.
    pub fn from_pairs(pairs: Vec<(String, String)>) -> (r: Self)
        ensures
            r@ == pairs_map(pairs.deep_view()),
    {
        let mut map = StringMap::new();
        let mut i: usize = 0;
        let ghost all = pairs.deep_view();
        proof {
            assert(all.take(0) =~= Seq::empty());
        }
        while i < pairs.len()
            invariant
                all == pairs.deep_view(),
                i <= pairs.len(),
                map@ == pairs_map(all.take(i as int)),
            decreases pairs.len() - i,
        {
            map.insert(pairs[i].0.clone(), pairs[i].1.clone());
            proof {
                assert(all.take(i + 1).drop_last() =~= all.take(i as int));
                assert(all.take(i + 1).last() == all[i as int]);
            }
            i = i + 1;
        }
        proof {
            assert(all.take(all.len() as int) =~= all);
        }
        map
    }

    /// The pairs of the map, each key once, in the order in which the map keeps them.
    pub closed spec fn listed(&self) -> Seq<(Seq<char>, Seq<char>)> {
        self.entries.deep_view()
    }

    /// The pairs of the map, each key once.
    pub fn pairs(&self) -> (r: &Vec<(String, String)>)
        ensures
            r.deep_view() == self.listed(),
            pairs_map(r.deep_view()) == self@,
            keys_distinct(r.deep_view()),
    {
        proof {
            use_type_invariant(self);
        }
        &self.entries
    }

    /// A copy of the pairs of the map.
    pub fn to_pairs(&self) -> (r: Vec<(String, String)>)
        ensures
            r.deep_view() == self.listed(),
            pairs_map(r.deep_view()) == self@,
            keys_distinct(r.deep_view()),
    {
        let mut entries: Vec<(String, String)> = Vec::new();
        let mut i: usize = 0;
        while i < self.entries.len()
            invariant
                i == entries.len(),
                i <= self.entries.len(),
                forall|j: int| 0 <= j < i ==> #[trigger] entries[j] == self.entries[j],
            decreases self.entries.len() - i,
        {
            entries.push((self.entries[i].0.clone(), self.entries[i].1.clone()));
            i = i + 1;
        }
        proof {
            use_type_invariant(self);
            assert(entries@ =~= self.entries@);
        }
        entries
    }

    /// Whether every pair of this map stands in `other` too.
    pub fn is_contained_in(&self, other: &StringMap) -> (r: bool)
        ensures
            r == self@.submap_of(other@),
    {
        proof {
            use_type_invariant(self);
            lemma_pairs_map_domain(self.entries.deep_view());
        }
        let ghost pairs = self.entries.deep_view();
        let mut i: usize = 0;
        while i < self.entries.len()
            invariant
                pairs == self.entries.deep_view(),
                keys_distinct(pairs),
                self@ == pairs_map(pairs),
                i <= self.entries.len(),
                forall|j: int|
                    0 <= j < i ==> other@.contains_key((#[trigger] pairs[j]).0)
                        && other@[pairs[j].0] == pairs[j].1,
            decreases self.entries.len() - i,
        {
            let key = self.entries[i].0.as_str();
            let value = self.entries[i].1.as_str();
            proof {
                lemma_pairs_map_entry(pairs, i as int);
            }
            let same = match other.get(key) {
                Some(v) => str_eq(v.as_str(), value),
                None => false,
            };
            if !same {
                proof {
                    assert(pairs[i as int] == (key@, value@));
                    assert(self@.contains_key(key@));
                    if self@.submap_of(other@) {
                        assert(self@.dom().contains(key@));
                        assert(other@.contains_key(key@));
                    }
                }
                return false;
            }
            assert(pairs[i as int] == (key@, value@));
            i = i + 1;
        }
        proof {
            assert forall|k: Seq<char>| #[trigger] self@.dom().contains(k) implies other@.dom().contains(
                k,
            ) && self@[k] == other@[k] by {
                assert(self@.contains_key(k));
                let j = choose|j: int| 0 <= j < pairs.len() && (#[trigger] pairs[j]).0 == k;
                lemma_pairs_map_entry(pairs, j);
            }
        }
        true
    }
}

impl Clone for StringMap {
    fn clone(&self) -> (r: Self)
        ensures
            r@ == self@,
            r.listed() == self.listed(),
    {
        let entries = self.to_pairs();
        StringMap { entries }
    }
}

/// In the map of some pairs, a key has the value of the last pair with that key, and there is no key
/// without a pair.
pub proof fn law_last_pair_counts(pairs: Seq<(Seq<char>, Seq<char>)>)
    ensures
        forall|key: Seq<char>| #[trigger]
            pairs_map(pairs).contains_key(key) <==> exists|i: int|
                0 <= i < pairs.len() && (#[trigger] pairs[i]).0 == key,
        forall|i: int|
            0 <= i < pairs.len() && (forall|j: int|
                i < j < pairs.len() ==> (#[trigger] pairs[j]).0 != pairs[i].0)
                ==> #[trigger] pairs_map(pairs)[pairs[i].0] == pairs[i].1,
        forall|key: Seq<char>| #[trigger]
            pairs_map(pairs).contains_key(key) ==> pairs.contains((key, pairs_map(pairs)[key])),
    decreases pairs.len(),
{
    if pairs.len() > 0 {
        let front = pairs.drop_last();
        law_last_pair_counts(front);
        assert forall|key: Seq<char>| #[trigger]
            pairs_map(pairs).contains_key(key) <==> exists|i: int|
                0 <= i < pairs.len() && (#[trigger] pairs[i]).0 == key by {
            if pairs_map(front).contains_key(key) {
                let i = choose|i: int| 0 <= i < front.len() && (#[trigger] front[i]).0 == key;
                assert(pairs[i].0 == key);
            }
            if pairs.last().0 == key {
                assert(pairs[pairs.len() - 1].0 == key);
            }
            if exists|i: int| 0 <= i < pairs.len() && (#[trigger] pairs[i]).0 == key {
                let i = choose|i: int| 0 <= i < pairs.len() && (#[trigger] pairs[i]).0 == key;
                if i < front.len() {
                    assert(front[i].0 == key);
                    assert(pairs_map(front).contains_key(key));
                }
            }
        }
        assert forall|i: int|
            0 <= i < pairs.len() && (forall|j: int|
                i < j < pairs.len() ==> (#[trigger] pairs[j]).0
                    != pairs[i].0) implies #[trigger] pairs_map(pairs)[pairs[i].0] == pairs[i].1 by {
            if i < front.len() {
                assert(pairs[pairs.len() - 1].0 != pairs[i].0);
                assert(front[i] == pairs[i]);
                assert forall|j: int| i < j < front.len() implies (#[trigger] front[j]).0
                    != front[i].0 by {
                    assert(pairs[j].0 != pairs[i].0);
                }
                assert(pairs_map(front)[front[i].0] == front[i].1);
            }
        }
        assert forall|key: Seq<char>| #[trigger]
            pairs_map(pairs).contains_key(key) implies pairs.contains(
            (key, pairs_map(pairs)[key]),
        ) by {
            if pairs.last().0 == key {
                assert(pairs[pairs.len() - 1] == (key, pairs_map(pairs)[key]));
            } else {
                assert(pairs_map(front).contains_key(key));
                let pair = (key, pairs_map(front)[key]);
                assert(front.contains(pair));
                let i = choose|i: int| 0 <= i < front.len() && front[i] == pair;
                assert(pairs[i] == pair);
            }
        }
    }
}

/// A map holds what it lists.
pub proof fn law_map_holds_what_it_lists(map: StringMap)
    ensures
        map@ == pairs_map(map.listed()),
{
}

} // verus!
