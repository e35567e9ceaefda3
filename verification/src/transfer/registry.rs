//! Sets of upload ids, and the cancellation tokens that running uploads listen to.
use vstd::prelude::*;
use crate::text::same;

verus! {

/// A set of upload ids.
#[derive(Debug)]
pub struct IdSet {
    ids: Vec<String>,
}

impl View for IdSet {
    type V = Set<Seq<char>>;

    closed spec fn view(&self) -> Set<Seq<char>> {
        Set::new(|id: Seq<char>| exists|i: int| 0 <= i < self.ids@.len() && (#[trigger] self.ids@[i])@ == id)
    }
}

impl IdSet {
    /// A set without ids.
    pub fn new() -> (r: Self)
        ensures
            r@ == Set::<Seq<char>>::empty(),
    {
        let r = IdSet { ids: Vec::new() };
        assert(r@ =~= Set::<Seq<char>>::empty());
        r
    }

    /// Whether an id is in the set.
    pub fn contains(&self, id: &str) -> (r: bool)
        ensures
            r == self@.contains(id@),
    {
        let mut i: usize = 0;
        while i < self.ids.len()
            invariant
                i <= self.ids@.len(),
                forall|j: int| 0 <= j < i ==> (#[trigger] self.ids@[j])@ != id@,
            decreases self.ids@.len() - i,
        {
            if same(&self.ids[i], id) {
                return true;
            }
            i = i + 1;
        }
        false
    }

    /// Puts an id into the set.
    pub fn insert(&mut self, id: &str)
        ensures
            final(self)@ == old(self)@.insert(id@),
    {
        if !self.contains(id) {
            let ghost before = self.ids@;
            self.ids.push(id.to_string());
            assert(self@ =~= old(self)@.insert(id@)) by {
                assert forall|k: Seq<char>| self@.contains(k) == old(self)@.insert(id@).contains(k) by {
                    if old(self)@.contains(k) {
                        let i = choose|i: int| 0 <= i < before.len() && (#[trigger] before[i])@ == k;
                        assert(self.ids@[i]@ == k);
                    }
                    if k == id@ {
                        assert(self.ids@[before.len() as int]@ == k);
                    }
                    if self@.contains(k) && k != id@ {
                        let i = choose|i: int| 0 <= i < self.ids@.len() && (#[trigger] self.ids@[i])@ == k;
                        assert(before[i]@ == k);
                    }
                }
            }
        } else {
            assert(self@ =~= old(self)@.insert(id@));
        }
    }

    /// Takes an id out of the set.
    pub fn remove(&mut self, id: &str)
        ensures
            final(self)@ == old(self)@.remove(id@),
    {
        let mut kept: Vec<String> = Vec::new();
        let mut i: usize = 0;
        while i < self.ids.len()
            invariant
                i <= self.ids@.len(),
                *self == *old(self),
                forall|j: int| 0 <= j < kept@.len() ==> (#[trigger] kept@[j])@ != id@ && self@.contains(kept@[j]@),
                forall|j: int|
                    0 <= j < i && (#[trigger] self.ids@[j])@ != id@ ==> exists|k: int|
                        0 <= k < kept@.len() && (#[trigger] kept@[k])@ == self.ids@[j]@,
            decreases self.ids@.len() - i,
        {
            if !same(&self.ids[i], id) {
                let ghost before = kept@;
                kept.push(self.ids[i].clone());
                proof {
                    assert(kept@[before.len() as int]@ == self.ids@[i as int]@);
                    assert forall|j: int| 0 <= j < i && (#[trigger] self.ids@[j])@ != id@ implies exists|k: int|
                        0 <= k < kept@.len() && (#[trigger] kept@[k])@ == self.ids@[j]@ by {
                        let k = choose|k: int| 0 <= k < before.len() && (#[trigger] before[k])@ == self.ids@[j]@;
                        assert(kept@[k]@ == self.ids@[j]@);
                    }
                }
            }
            i = i + 1;
        }
        self.ids = kept;
        assert(self@ =~= old(self)@.remove(id@)) by {
            assert forall|k: Seq<char>| self@.contains(k) == old(self)@.remove(id@).contains(k) by {
                if old(self)@.contains(k) && k != id@ {
                    let j = choose|j: int| 0 <= j < old(self).ids@.len() && (#[trigger] old(self).ids@[j])@ == k;
                    let n = choose|n: int| 0 <= n < kept@.len() && (#[trigger] kept@[n])@ == old(self).ids@[j]@;
                    assert(self.ids@[n]@ == k);
                }
            }
        }
    }
}

/// The cancellation token of each upload that has one, by the token's number.
#[derive(Debug)]
pub struct TokenTable {
    ids: Vec<String>,
    numbers: Vec<u64>,
}

impl View for TokenTable {
    type V = Map<Seq<char>, u64>;

    closed spec fn view(&self) -> Map<Seq<char>, u64> {
        token_map(self.ids@, self.numbers@)
    }
}

/// The numbers by id.
pub open spec fn token_map(ids: Seq<String>, numbers: Seq<u64>) -> Map<Seq<char>, u64>
    decreases ids.len(),
{
    if ids.len() == 0 || numbers.len() == 0 {
        Map::empty()
    } else {
        token_map(ids.drop_last(), numbers.drop_last()).insert(ids.last()@, numbers.last())
    }
}

proof fn lemma_token_absent(ids: Seq<String>, numbers: Seq<u64>, id: Seq<char>)
    requires
        ids.len() == numbers.len(),
        forall|j: int| 0 <= j < ids.len() ==> (#[trigger] ids[j])@ != id,
    ensures
        !token_map(ids, numbers).contains_key(id),
    decreases ids.len(),
{
    if ids.len() > 0 {
        assert forall|j: int| 0 <= j < ids.drop_last().len() implies (#[trigger] ids.drop_last()[j])@ != id by {
            assert(ids[j]@ != id);
        }
        assert(ids[ids.len() - 1]@ != id);
        lemma_token_absent(ids.drop_last(), numbers.drop_last(), id);
    }
}

proof fn lemma_token_present(ids: Seq<String>, numbers: Seq<u64>, i: int)
    requires
        ids.len() == numbers.len(),
        0 <= i < ids.len(),
        forall|j: int| i < j < ids.len() ==> (#[trigger] ids[j])@ != ids[i]@,
    ensures
        token_map(ids, numbers).contains_key(ids[i]@),
        token_map(ids, numbers)[ids[i]@] == numbers[i],
    decreases ids.len(),
{
    if i < ids.len() - 1 {
        assert(ids[ids.len() - 1]@ != ids[i]@);
        let shorter = ids.drop_last();
        assert forall|j: int| i < j < shorter.len() implies (#[trigger] shorter[j])@ != shorter[i]@ by {
            assert(ids[j]@ != ids[i]@);
        }
        lemma_token_present(shorter, numbers.drop_last(), i);
    }
}

impl TokenTable {
    /// As many numbers as ids.
    pub closed spec fn wf(&self) -> bool {
        self.ids@.len() == self.numbers@.len()
    }

    /// A table without tokens.
    pub fn new() -> (r: Self)
        ensures
            r.wf(),
            r@ == Map::<Seq<char>, u64>::empty(),
    {
        TokenTable { ids: Vec::new(), numbers: Vec::new() }
    }

    /// The number of the token of an upload.
    pub fn get(&self, id: &str) -> (r: Option<u64>)
        requires
            self.wf(),
        ensures
            match r {
                Some(n) => self@.contains_key(id@) && self@[id@] == n,
                None => !self@.contains_key(id@),
            },
    {
        let mut i: usize = self.ids.len();
        while i > 0
            invariant
                i <= self.ids@.len(),
                self.wf(),
                forall|j: int| i <= j < self.ids@.len() ==> (#[trigger] self.ids@[j])@ != id@,
            decreases i,
        {
            if same(&self.ids[i - 1], id) {
                proof {
                    lemma_token_present(self.ids@, self.numbers@, i - 1);
                }
                return Some(self.numbers[i - 1]);
            }
            i = i - 1;
        }
        proof {
            lemma_token_absent(self.ids@, self.numbers@, id@);
        }
        None
    }

    /// Takes the token of an upload out.
    pub fn remove(&mut self, id: &str)
        requires
            old(self).wf(),
        ensures
            final(self).wf(),
            final(self)@ == old(self)@.remove(id@),
    {
        let mut ids: Vec<String> = Vec::new();
        let mut numbers: Vec<u64> = Vec::new();
        let mut i: usize = 0;
        assert(token_map(self.ids@.take(0), self.numbers@.take(0)).remove(id@) =~= token_map(ids@, numbers@));
        while i < self.ids.len()
            invariant
                i <= self.ids@.len(),
                *self == *old(self),
                self.wf(),
                ids@.len() == numbers@.len(),
                token_map(ids@, numbers@) == token_map(self.ids@.take(i as int), self.numbers@.take(i as int)).remove(id@),
            decreases self.ids@.len() - i,
        {
            let ghost longer_ids = self.ids@.take(i + 1);
            let ghost longer_numbers = self.numbers@.take(i + 1);
            let ghost ids_before = ids@;
            let ghost numbers_before = numbers@;
            assert(longer_ids.drop_last() == self.ids@.take(i as int));
            assert(longer_numbers.drop_last() == self.numbers@.take(i as int));
            if !same(&self.ids[i], id) {
                ids.push(self.ids[i].clone());
                numbers.push(self.numbers[i]);
                assert(ids@.drop_last() == ids_before);
                assert(numbers@.drop_last() == numbers_before);
                assert(token_map(ids@, numbers@) =~= token_map(longer_ids, longer_numbers).remove(id@));
            } else {
                assert(token_map(ids@, numbers@) =~= token_map(longer_ids, longer_numbers).remove(id@));
            }
            i = i + 1;
        }
        assert(self.ids@.take(i as int) == self.ids@);
        assert(self.numbers@.take(i as int) == self.numbers@);
        self.ids = ids;
        self.numbers = numbers;
    }

    /// Gives an upload a token, in place of the one that it had.
    pub fn insert(&mut self, id: &str, number: u64)
        requires
            old(self).wf(),
        ensures
            final(self).wf(),
            final(self)@ == old(self)@.insert(id@, number),
    {
        self.remove(id);
        let ghost ids_before = self.ids@;
        let ghost numbers_before = self.numbers@;
        self.ids.push(id.to_string());
        self.numbers.push(number);
        assert(self.ids@.drop_last() == ids_before);
        assert(self.numbers@.drop_last() == numbers_before);
        assert(self@ =~= old(self)@.insert(id@, number));
    }
}

} // verus!
