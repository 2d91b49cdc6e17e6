//! Label sets of Kubernetes objects: a map from keys to values, held as a
//! list of pairs with no key twice.

use crate::text::same_text;
use vstd::prelude::*;

verus! {

/// The map that a list of pairs stands for; a later pair overrides an
/// earlier one with the same key.
pub open spec fn pairs_map(pairs: Seq<(String, String)>) -> Map<Seq<char>, Seq<char>>
    decreases pairs.len(),
{
    if pairs.len() == 0 {
        Map::empty()
    } else {
        pairs_map(pairs.drop_last()).insert(pairs.last().0@, pairs.last().1@)
    }
}

/// No key stands twice in `pairs`.
pub open spec fn distinct_keys(pairs: Seq<(String, String)>) -> bool {
    forall|i: int, j: int|
        0 <= i < j < pairs.len() ==> (#[trigger] pairs[i]).0@ != (#[trigger] pairs[j]).0@
}

/// A key that no pair holds is not in the map.
pub proof fn lemma_absent_key(pairs: Seq<(String, String)>, key: Seq<char>)
    requires
        forall|i: int| 0 <= i < pairs.len() ==> (#[trigger] pairs[i]).0@ != key,
    ensures
        !pairs_map(pairs).contains_key(key),
    decreases pairs.len(),
{
    if pairs.len() > 0 {
        lemma_absent_key(pairs.drop_last(), key);
    }
}

/// With distinct keys, each pair is an entry of the map.
pub proof fn lemma_present_key(pairs: Seq<(String, String)>, at: int)
    requires
        distinct_keys(pairs),
        0 <= at < pairs.len(),
    ensures
        pairs_map(pairs).contains_key(pairs[at].0@),
        pairs_map(pairs)[pairs[at].0@] == pairs[at].1@,
    decreases pairs.len(),
{
    if at < pairs.len() - 1 {
        lemma_present_key(pairs.drop_last(), at);
    }
}

/// With distinct keys, a new value for the key at `at` changes that entry
/// of the map and no other.
pub proof fn lemma_replace_value(pairs: Seq<(String, String)>, at: int, pair: (String, String))
    requires
        distinct_keys(pairs),
        0 <= at < pairs.len(),
        pair.0@ == pairs[at].0@,
    ensures
        pairs_map(pairs.update(at, pair)) == pairs_map(pairs).insert(pair.0@, pair.1@),
    decreases pairs.len(),
{
    let changed = pairs.update(at, pair);
    if at == pairs.len() - 1 {
        assert(changed.drop_last() =~= pairs.drop_last());
    } else {
        lemma_replace_value(pairs.drop_last(), at, pair);
        assert(changed.drop_last() =~= pairs.drop_last().update(at, pair));
    }
}

/// A set of labels.
#[derive(Debug)]
pub struct Labels {
    pairs: Vec<(String, String)>,
}

impl View for Labels {
    type V = Map<Seq<char>, Seq<char>>;

    closed spec fn view(&self) -> Map<Seq<char>, Seq<char>> {
        pairs_map(self.pairs@)
    }
}

impl DeepView for Labels {
    type V = Map<Seq<char>, Seq<char>>;

    open spec fn deep_view(&self) -> Map<Seq<char>, Seq<char>> {
        self@
    }
}

impl Labels {
    #[verifier::type_invariant]
    spec fn well_formed(self) -> bool {
        distinct_keys(self.pairs@)
    }

    /// The pairs as they are stored.
    pub closed spec fn listed(self) -> Seq<(String, String)> {
        self.pairs@
    }

    /// The empty set.
    pub fn new() -> (labels: Labels)
        ensures
            labels@ == Map::<Seq<char>, Seq<char>>::empty(),
    {
        Labels { pairs: Vec::new() }
    }

    /// Position of `key` in the list, if it is there.
    fn position(&self, key: &str) -> (at: Option<usize>)
        ensures
            match at {
                Some(i) => i < self.pairs.len() && self.pairs@[i as int].0@ == key@,
                None => forall|i: int|
                    0 <= i < self.pairs.len() ==> (#[trigger] self.pairs@[i]).0@ != key@,
            },
    {
        let mut i: usize = 0;
        while i < self.pairs.len()
            invariant
                i <= self.pairs.len(),
                forall|j: int| 0 <= j < i ==> (#[trigger] self.pairs@[j]).0@ != key@,
            decreases self.pairs.len() - i,
        {
            if same_text(self.pairs[i].0.as_str(), key) {
                return Some(i);
            }
            i += 1;
        }
        None
    }

    /// The value under `key`, if there is one.
    pub fn get(&self, key: &str) -> (value: Option<&String>)
        ensures
            value is Some == self@.contains_key(key@),
            value is Some ==> value->0@ == self@[key@],
    {
        proof {
            use_type_invariant(self);
        }
        match self.position(key) {
            Some(i) => {
                proof {
                    lemma_present_key(self.pairs@, i as int);
                }
                Some(&self.pairs[i].1)
            },
            None => {
                proof {
                    lemma_absent_key(self.pairs@, key@);
                }
                None
            },
        }
    }

    /// Sets `key` to `value`, whatever it was before.
    pub fn insert(&mut self, key: String, value: String)
        ensures
            final(self)@ == old(self)@.insert(key@, value@),
    {
        proof {
            use_type_invariant(&*self);
        }
        let found = self.position(key.as_str());
        let mut held = Labels { pairs: Vec::new() };
        core::mem::swap(self, &mut held);
        let mut pairs = held.pairs;
        match found {
            Some(i) => {
                proof {
                    lemma_replace_value(pairs@, i as int, (key, value));
                }
                pairs.set(i, (key, value));
            },
            None => {
                assert(pairs@.push((key, value)).drop_last() =~= pairs@);
                pairs.push((key, value));
            },
        }
        *self = Labels { pairs };
    }

    /// Number of pairs.
    pub fn len(&self) -> (n: usize)
        ensures
            n == self.listed().len(),
    {
        self.pairs.len()
    }

    /// The pair at position `at`, in the order of insertion.
    pub fn pair(&self, at: usize) -> (pair: (&String, &String))
        requires
            at < self.listed().len(),
        ensures
            self@.contains_key(pair.0@),
            self@[pair.0@] == pair.1@,
            *pair.0 == self.listed()[at as int].0,
            *pair.1 == self.listed()[at as int].1,
    {
        proof {
            use_type_invariant(self);
            lemma_present_key(self.pairs@, at as int);
        }
        (&self.pairs[at].0, &self.pairs[at].1)
    }
}

impl Clone for Labels {
    fn clone(&self) -> (copy: Labels)
        ensures
            copy@ == self@,
    {
        proof {
            use_type_invariant(self);
        }
        let mut pairs: Vec<(String, String)> = Vec::new();
        let mut i: usize = 0;
        while i < self.pairs.len()
            invariant
                i <= self.pairs.len(),
                pairs@.len() == i,
                forall|j: int|
                    0 <= j < i ==> (#[trigger] pairs@[j]).0@ == self.pairs@[j].0@ && pairs@[j].1@
                        == self.pairs@[j].1@,
            decreases self.pairs.len() - i,
        {
            pairs.push((self.pairs[i].0.clone(), self.pairs[i].1.clone()));
            i += 1;
        }
        proof {
            lemma_same_pairs(pairs@, self.pairs@);
        }
        Labels { pairs }
    }
}

/// Lists that agree pair by pair stand for the same map.
pub proof fn lemma_same_pairs(left: Seq<(String, String)>, right: Seq<(String, String)>)
    requires
        left.len() == right.len(),
        forall|j: int|
            0 <= j < left.len() ==> (#[trigger] left[j]).0@ == right[j].0@ && left[j].1@
                == right[j].1@,
    ensures
        pairs_map(left) == pairs_map(right),
        distinct_keys(right) ==> distinct_keys(left),
    decreases left.len(),
{
    if left.len() > 0 {
        lemma_same_pairs(left.drop_last(), right.drop_last());
    }
}

} // verus!
