//! The raw archive: every decodable key of the store with the text recorded
//! for it.

use crate::text::same_text;
use vstd::prelude::*;

verus! {

/// A finite mapping from keys to values, both text. Each key is held once;
/// recording a key again replaces its value.
#[derive(Debug)]
pub struct RawArchive {
    pairs: Vec<(String, String)>,
}

/// No two pairs share a key.
pub open spec fn distinct_keys(pairs: Seq<(String, String)>) -> bool {
    forall|i: int, j: int| 0 <= i < j < pairs.len() ==> pairs[i].0@ != pairs[j].0@
}

/// Some pair carries `key`.
pub open spec fn holds_key(pairs: Seq<(String, String)>, key: Seq<char>) -> bool {
    exists|i: int| 0 <= i < pairs.len() && (#[trigger] pairs[i]).0@ == key
}

/// The index of a pair that carries `key`.
pub open spec fn position_of(pairs: Seq<(String, String)>, key: Seq<char>) -> int {
    choose|i: int| 0 <= i < pairs.len() && (#[trigger] pairs[i]).0@ == key
}

/// The mapping that a list of pairs with distinct keys stands for.
pub open spec fn pairs_map(pairs: Seq<(String, String)>) -> Map<Seq<char>, Seq<char>> {
    Map::new(
        |key: Seq<char>| holds_key(pairs, key),
        |key: Seq<char>| pairs[position_of(pairs, key)].1@,
    )
}

impl View for RawArchive {
    type V = Map<Seq<char>, Seq<char>>;

    closed spec fn view(&self) -> Map<Seq<char>, Seq<char>> {
        pairs_map(self.pairs@)
    }
}

impl RawArchive {
    #[verifier::type_invariant]
    spec fn well_formed(self) -> bool {
        distinct_keys(self.pairs@)
    }

    /// An archive that holds nothing.
    pub fn new() -> (archive: RawArchive)
        ensures
            archive@ == Map::<Seq<char>, Seq<char>>::empty(),
    {
        let archive = RawArchive { pairs: Vec::new() };
        assert(archive@ =~= Map::<Seq<char>, Seq<char>>::empty());
        archive
    }

    /// Records `value` under `key`, replacing what was recorded for that key
    /// before.
    pub fn insert(&mut self, key: String, value: String)
        ensures
            final(self)@ == old(self)@.insert(key@, value@),
    {
        proof {
            use_type_invariant(&*self);
        }
        let mut pairs: Vec<(String, String)> = Vec::new();
        std::mem::swap(&mut self.pairs, &mut pairs);
        let n: usize = pairs.len();
        let mut i: usize = 0;
        while i < n && !same_text(pairs[i].0.as_str(), key.as_str())
            invariant
                i <= n,
                n == pairs.len(),
                forall|j: int| 0 <= j < i ==> pairs@[j].0@ != key@,
            decreases n - i,
        {
            i += 1;
        }
        if i < n {
            pairs.set(i, (key, value));
            proof {
                lemma_replace(old(self).pairs@, i as int, key@, pairs@);
            }
        } else {
            pairs.push((key, value));
            proof {
                lemma_append(old(self).pairs@, pairs@);
            }
        }
        self.pairs = pairs;
    }

    /// The value recorded for `key`, if there is one.
    pub fn get(&self, key: &str) -> (found: Option<&String>)
        ensures
            found is Some <==> self@.contains_key(key@),
            found matches Some(value) ==> value@ == self@[key@],
    {
        proof {
            use_type_invariant(self);
        }
        let n: usize = self.pairs.len();
        let mut i: usize = 0;
        while i < n && !same_text(self.pairs[i].0.as_str(), key)
            invariant
                i <= n,
                n == self.pairs.len(),
                forall|j: int| 0 <= j < i ==> self.pairs@[j].0@ != key@,
            decreases n - i,
        {
            i += 1;
        }
        if i < n {
            assert(position_of(self.pairs@, key@) == i);
            Some(&self.pairs[i].1)
        } else {
            None
        }
    }

    /// Tells whether a value is recorded for `key`.
    pub fn contains_key(&self, key: &str) -> (present: bool)
        ensures
            present == self@.contains_key(key@),
    {
        self.get(key).is_some()
    }

    /// The number of keys that the archive holds.
    pub fn len(&self) -> (count: usize)
        ensures
            self@.dom().finite(),
            count == self@.len(),
    {
        proof {
            use_type_invariant(self);
            lemma_size(self.pairs@);
        }
        self.pairs.len()
    }

    /// Tells whether the archive holds nothing.
    pub fn is_empty(&self) -> (empty: bool)
        ensures
            empty == (self@ == Map::<Seq<char>, Seq<char>>::empty()),
    {
        proof {
            if self.pairs@.len() > 0 {
                assert(self@.contains_key(self.pairs@[0].0@));
            } else {
                assert(self@ =~= Map::<Seq<char>, Seq<char>>::empty());
            }
        }
        self.pairs.len() == 0
    }

    /// The archive as a list of key and value pairs. Every key of the
    /// archive stands in the list once.
    pub fn entries(&self) -> (list: &Vec<(String, String)>)
        ensures
            distinct_keys(list@),
            self@ == pairs_map(list@),
    {
        proof {
            use_type_invariant(self);
        }
        &self.pairs
    }
}

impl Clone for RawArchive {
    fn clone(&self) -> (copy: RawArchive)
        ensures
            copy@ == self@,
    {
        proof {
            use_type_invariant(self);
        }
        let mut pairs: Vec<(String, String)> = Vec::new();
        let mut i: usize = 0;
        while i < self.pairs.len()
            invariant
                i <= self.pairs.len(),
                pairs@ == self.pairs@.subrange(0, i as int),
            decreases self.pairs.len() - i,
        {
            pairs.push((self.pairs[i].0.clone(), self.pairs[i].1.clone()));
            assert(pairs@ =~= self.pairs@.subrange(0, i + 1));
            i += 1;
        }
        assert(pairs@ =~= self.pairs@);
        RawArchive { pairs }
    }
}

/// Replacing the value of the pair at `i` updates the mapping at that pair's
/// key and nowhere else.
proof fn lemma_replace(
    before: Seq<(String, String)>,
    i: int,
    key: Seq<char>,
    after: Seq<(String, String)>,
)
    requires
        distinct_keys(before),
        0 <= i < before.len(),
        before[i].0@ == key,
        after.len() == before.len(),
        after[i].0@ == key,
        forall|j: int| 0 <= j < before.len() && j != i ==> after[j] == before[j],
    ensures
        distinct_keys(after),
        pairs_map(after) == pairs_map(before).insert(key, after[i].1@),
{
    assert forall|k: Seq<char>| holds_key(after, k) == (holds_key(before, k) || k == key) by {
        if holds_key(before, k) {
            let j = position_of(before, k);
            assert(after[j].0@ == k);
        }
        if holds_key(after, k) {
            let j = position_of(after, k);
            assert(before[j].0@ == k);
        }
    }
    assert forall|k: Seq<char>| holds_key(after, k) implies #[trigger] pairs_map(after)[k]
        == pairs_map(before).insert(key, after[i].1@)[k] by {
        let j = position_of(after, k);
        if k == key {
            assert(j == i);
        } else {
            assert(before[j].0@ == k);
            assert(position_of(before, k) == j);
        }
    }
    assert(pairs_map(after) =~= pairs_map(before).insert(key, after[i].1@));
}

/// Appending a pair with a fresh key extends the mapping by that pair.
proof fn lemma_append(before: Seq<(String, String)>, after: Seq<(String, String)>)
    requires
        distinct_keys(before),
        after.len() == before.len() + 1,
        forall|j: int| 0 <= j < before.len() ==> after[j] == before[j],
        !holds_key(before, after.last().0@),
    ensures
        distinct_keys(after),
        pairs_map(after) == pairs_map(before).insert(after.last().0@, after.last().1@),
{
    let key = after.last().0@;
    let n = before.len() as int;
    assert forall|i: int, j: int| 0 <= i < j < after.len() implies after[i].0@ != after[j].0@ by {
        if j == n {
            assert(before[i].0@ != key);
        }
    }
    assert forall|k: Seq<char>| holds_key(after, k) == (holds_key(before, k) || k == key) by {
        if holds_key(before, k) {
            let j = position_of(before, k);
            assert(after[j].0@ == k);
        }
        if holds_key(after, k) {
            let j = position_of(after, k);
            if j < n {
                assert(before[j].0@ == k);
            }
        }
        if k == key {
            assert(after[n].0@ == k);
        }
    }
    assert forall|k: Seq<char>| holds_key(after, k) implies #[trigger] pairs_map(after)[k]
        == pairs_map(before).insert(key, after.last().1@)[k] by {
        let j = position_of(after, k);
        if k == key {
            assert(after[n].0@ == k);
            assert(j == n);
        } else {
            assert(before[j].0@ == k);
            assert(position_of(before, k) == j);
        }
    }
    assert(pairs_map(after) =~= pairs_map(before).insert(key, after.last().1@));
}

/// A list of pairs with distinct keys stands for a mapping with as many keys
/// as the list has pairs.
pub proof fn lemma_size(pairs: Seq<(String, String)>)
    requires
        distinct_keys(pairs),
    ensures
        pairs_map(pairs).dom().finite(),
        pairs_map(pairs).dom().len() == pairs.len(),
    decreases pairs.len(),
{
    if pairs.len() == 0 {
        assert(pairs_map(pairs).dom() =~= Set::<Seq<char>>::empty());
    } else {
        let before = pairs.drop_last();
        lemma_size(before);
        assert(!holds_key(before, pairs.last().0@)) by {
            if holds_key(before, pairs.last().0@) {
                let j = position_of(before, pairs.last().0@);
                assert(pairs[j].0@ == pairs.last().0@);
            }
        }
        lemma_append(before, pairs);
        assert(pairs_map(pairs).dom() =~= pairs_map(before).dom().insert(pairs.last().0@));
    }
}

} // verus!
