//! Texts by key, in which a later text stands for an earlier one under the same key.
use vstd::prelude::*;
use crate::text::{opt, same};

verus! {

/// A list of keys with their texts.
#[derive(Debug)]
pub struct TextMap {
    pairs: Vec<(String, String)>,
}

/// The texts by key.
pub open spec fn pair_map(pairs: Seq<(Seq<char>, Seq<char>)>) -> Map<Seq<char>, Seq<char>>
    decreases pairs.len(),
{
    if pairs.len() == 0 {
        Map::empty()
    } else {
        pair_map(pairs.drop_last()).insert(pairs.last().0, pairs.last().1)
    }
}

/// What a list of pairs holds.
pub open spec fn pair_texts(pairs: Seq<(String, String)>) -> Seq<(Seq<char>, Seq<char>)> {
    pairs.map_values(|p: (String, String)| (p.0@, p.1@))
}

/// The text under a key, if there is one.
pub open spec fn looked_up(map: Map<Seq<char>, Seq<char>>, key: Seq<char>) -> Option<Seq<char>> {
    if map.contains_key(key) {
        Some(map[key])
    } else {
        None
    }
}

impl View for TextMap {
    type V = Map<Seq<char>, Seq<char>>;

    closed spec fn view(&self) -> Map<Seq<char>, Seq<char>> {
        pair_map(pair_texts(self.pairs@))
    }
}

proof fn lemma_absent(pairs: Seq<(Seq<char>, Seq<char>)>, key: Seq<char>)
    requires
        forall|j: int| 0 <= j < pairs.len() ==> (#[trigger] pairs[j]).0 != key,
    ensures
        !pair_map(pairs).contains_key(key),
    decreases pairs.len(),
{
    if pairs.len() > 0 {
        assert(pairs[pairs.len() - 1].0 != key);
        assert forall|j: int| 0 <= j < pairs.drop_last().len() implies (#[trigger] pairs.drop_last()[j]).0 != key by {
            assert(pairs[j].0 != key);
        }
        lemma_absent(pairs.drop_last(), key);
    }
}

proof fn lemma_present(pairs: Seq<(Seq<char>, Seq<char>)>, i: int)
    requires
        0 <= i < pairs.len(),
        forall|j: int| i < j < pairs.len() ==> (#[trigger] pairs[j]).0 != pairs[i].0,
    ensures
        pair_map(pairs).contains_key(pairs[i].0),
        pair_map(pairs)[pairs[i].0] == pairs[i].1,
    decreases pairs.len(),
{
    if i < pairs.len() - 1 {
        assert(pairs[pairs.len() - 1].0 != pairs[i].0);
        let shorter = pairs.drop_last();
        assert forall|j: int| i < j < shorter.len() implies (#[trigger] shorter[j]).0 != shorter[i].0 by {
            assert(pairs[j].0 != pairs[i].0);
        }
        lemma_present(shorter, i);
    }
}

impl TextMap {
    /// A map without keys.
    pub fn new() -> (r: Self)
        ensures
            r@ == Map::<Seq<char>, Seq<char>>::empty(),
    {
        let r = TextMap { pairs: Vec::new() };
        assert(pair_texts(r.pairs@) =~= Seq::empty());
        r
    }

    /// Gives a key this text.
    pub fn insert(&mut self, key: String, text: String)
        ensures
            final(self)@ == old(self)@.insert(key@, text@),
    {
        self.pairs.push((key, text));
        assert(pair_texts(self.pairs@).drop_last() =~= pair_texts(old(self).pairs@));
        assert(pair_texts(self.pairs@).last() == (key@, text@));
    }

    /// The text under a key.
    pub fn get(&self, key: &str) -> (r: Option<String>)
        ensures
            opt(r) == looked_up(self@, key@),
    {
        let ghost texts = pair_texts(self.pairs@);
        let mut i: usize = self.pairs.len();
        while i > 0
            invariant
                i <= self.pairs@.len(),
                texts == pair_texts(self.pairs@),
                forall|j: int| i <= j < texts.len() ==> (#[trigger] texts[j]).0 != key@,
            decreases i,
        {
            if same(&self.pairs[i - 1].0, key) {
                proof {
                    lemma_present(texts, i - 1);
                }
                return Some(self.pairs[i - 1].1.clone());
            }
            i = i - 1;
        }
        proof {
            lemma_absent(texts, key@);
        }
        None
    }

    /// Whether there is a text under a key.
    pub fn contains(&self, key: &str) -> (r: bool)
        ensures
            r == self@.contains_key(key@),
    {
        self.get(key).is_some()
    }
}

/// Of several values under one key the last counts.
pub proof fn law_last_value_counts(pairs: Seq<(Seq<char>, Seq<char>)>, i: int)
    requires
        0 <= i < pairs.len(),
        forall|j: int| i < j < pairs.len() ==> (#[trigger] pairs[j]).0 != pairs[i].0,
    ensures
        looked_up(pair_map(pairs), pairs[i].0) == Some(pairs[i].1),
    decreases pairs.len(),
{
    let fewer = pairs.drop_last();
    if i < fewer.len() {
        assert(fewer[i] == pairs[i]);
        assert forall|j: int| i < j < fewer.len() implies (#[trigger] fewer[j]).0 != fewer[i].0 by {
            assert(fewer[j] == pairs[j]);
        }
        law_last_value_counts(fewer, i);
        assert(pairs[pairs.len() - 1].0 != pairs[i].0);
    }
}

/// A key that was never given has no value.
pub proof fn law_other_keys_have_none(pairs: Seq<(Seq<char>, Seq<char>)>, key: Seq<char>)
    requires
        forall|i: int| 0 <= i < pairs.len() ==> (#[trigger] pairs[i]).0 != key,
    ensures
        looked_up(pair_map(pairs), key) is None,
    decreases pairs.len(),
{
    if pairs.len() > 0 {
        let fewer = pairs.drop_last();
        assert forall|i: int| 0 <= i < fewer.len() implies (#[trigger] fewer[i]).0 != key by {
            assert(fewer[i] == pairs[i]);
        }
        law_other_keys_have_none(fewer, key);
        assert(pairs[pairs.len() - 1].0 != key);
    }
}

/// What a list of pairs holds is what both texts of each pair hold, in order.
pub proof fn law_pair_texts(pairs: Seq<(String, String)>, i: int)
    ensures
        pair_texts(pairs).len() == pairs.len(),
        0 <= i < pairs.len() ==> pair_texts(pairs)[i] == (pairs[i].0@, pairs[i].1@),
{
}

} // verus!
