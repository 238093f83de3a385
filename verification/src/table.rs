//! A finite table of ledger entries.

use vstd::prelude::*;

verus! {

/// What a value must offer to be a key of a [`Table`].
pub trait TableKey: Copy {
    /// Whether the two keys are the same key.
    fn same_key(&self, other: &Self) -> (same: bool)
        ensures
            same == (*self == *other),
    ;
}

/// The entries of one kind that a call works on: at most one value per key.
///
/// Where the vector holds a key more than once, the last pair is the entry.
#[verifier::reject_recursive_types(K)]
#[derive(Debug)]
pub struct Table<K, V> {
    pairs: Vec<(K, V)>,
}

/// The map that a sequence of pairs stands for.
spec fn contents<K, V: View>(pairs: Seq<(K, V)>) -> Map<K, V::V>
    decreases pairs.len(),
{
    if pairs.len() == 0 {
        Map::empty()
    } else {
        contents(pairs.drop_last()).insert(pairs.last().0, pairs.last().1@)
    }
}

proof fn lemma_absent<K, V: View>(pairs: Seq<(K, V)>, key: K)
    requires
        forall|j: int| 0 <= j < pairs.len() ==> (#[trigger] pairs[j]).0 != key,
    ensures
        !contents(pairs).contains_key(key),
    decreases pairs.len(),
{
    if pairs.len() > 0 {
        assert forall|j: int| 0 <= j < pairs.drop_last().len() implies (
        #[trigger] pairs.drop_last()[j]).0 != key by {
            assert(pairs.drop_last()[j] == pairs[j]);
        }
        lemma_absent(pairs.drop_last(), key);
    }
}

proof fn lemma_last_wins<K, V: View>(pairs: Seq<(K, V)>, at: int)
    requires
        0 <= at < pairs.len(),
        forall|j: int| at < j < pairs.len() ==> (#[trigger] pairs[j]).0 != pairs[at].0,
    ensures
        contents(pairs).contains_key(pairs[at].0),
        contents(pairs)[pairs[at].0] == pairs[at].1@,
    decreases pairs.len(),
{
    if at < pairs.len() - 1 {
        let shorter = pairs.drop_last();
        assert forall|j: int| at < j < shorter.len() implies (#[trigger] shorter[j]).0
            != shorter[at].0 by {
            assert(shorter[j] == pairs[j]);
        }
        lemma_last_wins(shorter, at);
        assert(pairs[pairs.len() - 1].0 != pairs[at].0);
    }
}

proof fn lemma_insert_then_remove<K, W>(map: Map<K, W>, added: K, value: W, key: K)
    ensures
        map.insert(added, value).remove(key) == if added == key {
            map.remove(key)
        } else {
            map.remove(key).insert(added, value)
        },
{
    if added == key {
        assert(map.insert(added, value).remove(key) =~= map.remove(key));
    } else {
        assert(map.insert(added, value).remove(key) =~= map.remove(key).insert(added, value));
    }
}

/// Taking one pair away leaves every other key as it was.
proof fn lemma_take_away<K, V: View>(pairs: Seq<(K, V)>, at: int)
    requires
        0 <= at < pairs.len(),
    ensures
        contents(pairs.remove(at)).remove(pairs[at].0) == contents(pairs).remove(pairs[at].0),
    decreases pairs.len(),
{
    let rest = pairs.remove(at);
    let key = pairs[at].0;
    if at == pairs.len() - 1 {
        assert(rest =~= pairs.drop_last());
    } else {
        lemma_take_away(pairs.drop_last(), at);
        assert(rest.drop_last() =~= pairs.drop_last().remove(at));
        assert(rest.last() == pairs.last());
        assert(pairs.drop_last()[at] == pairs[at]);
        let last = pairs.last();
        lemma_insert_then_remove(contents(rest.drop_last()), last.0, last.1@, key);
        lemma_insert_then_remove(contents(pairs.drop_last()), last.0, last.1@, key);
    }
}

impl<K: TableKey, V: View> View for Table<K, V> {
    type V = Map<K, V::V>;

    closed spec fn view(&self) -> Map<K, V::V> {
        contents(self.pairs@)
    }
}

impl<K: TableKey, V: View> Table<K, V> {
    /// The table without entries.
    pub fn new() -> (table: Self)
        ensures
            table@ == Map::<K, V::V>::empty(),
    {
        Table { pairs: Vec::new() }
    }

    /// The entry under `key`, if there is one.
    pub fn get(&self, key: &K) -> (entry: Option<&V>)
        ensures
            match entry {
                Some(value) => self@.contains_key(*key) && value@ == self@[*key],
                None => !self@.contains_key(*key),
            },
    {
        let mut i: usize = self.pairs.len();
        while i > 0
            invariant
                0 <= i <= self.pairs@.len(),
                forall|j: int| i <= j < self.pairs@.len() ==> (#[trigger] self.pairs@[j]).0 != *key,
            decreases i,
        {
            if self.pairs[i - 1].0.same_key(key) {
                proof {
                    lemma_last_wins(self.pairs@, i - 1);
                }
                return Some(&self.pairs[i - 1].1);
            }
            i -= 1;
        }
        proof {
            lemma_absent(self.pairs@, *key);
        }
        None
    }

    /// Whether there is an entry under `key`.
    pub fn has(&self, key: &K) -> (present: bool)
        ensures
            present == self@.contains_key(*key),
    {
        self.get(key).is_some()
    }

    /// Deletes the entry under `key`, if there is one.
    pub fn remove(&mut self, key: &K)
        ensures
            final(self)@ == old(self)@.remove(*key),
    {
        let mut i: usize = 0;
        while i < self.pairs.len()
            invariant
                0 <= i <= self.pairs@.len(),
                contents(self.pairs@).remove(*key) == contents(old(self).pairs@).remove(*key),
                forall|j: int| 0 <= j < i ==> (#[trigger] self.pairs@[j]).0 != *key,
            decreases self.pairs@.len() - i,
        {
            if self.pairs[i].0.same_key(key) {
                proof {
                    lemma_take_away(self.pairs@, i as int);
                }
                self.pairs.remove(i);
            } else {
                i += 1;
            }
        }
        proof {
            lemma_absent(self.pairs@, *key);
            assert(contents(self.pairs@).remove(*key) =~= contents(self.pairs@));
        }
    }

    /// Makes `value` the entry under `key`.
    pub fn set(&mut self, key: &K, value: V)
        ensures
            final(self)@ == old(self)@.insert(*key, value@),
    {
        self.remove(key);
        let ghost before = self.pairs@;
        self.pairs.push((*key, value));
        proof {
            assert(self.pairs@.drop_last() =~= before);
            assert(old(self)@.remove(*key).insert(*key, value@) =~= old(self)@.insert(
                *key,
                value@,
            ));
        }
    }
}

} // verus!
