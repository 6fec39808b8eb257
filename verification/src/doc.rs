//! Result documents: flat JSON objects held as ordered (key, value) pairs,
//! each value being the compact JSON text of the field's value.

use vstd::prelude::*;

verus! {

/// The pairs of a document as sequences.
pub open spec fn pairs_view(entries: Seq<(Vec<u8>, Vec<u8>)>) -> Seq<(Seq<u8>, Seq<u8>)> {
    Seq::new(entries.len(), |i: int| (entries[i].0@, entries[i].1@))
}

/// The mapping a pair sequence denotes; a later pair overrides an earlier
/// one with the same key.
pub open spec fn map_of<V>(entries: Seq<(Seq<u8>, V)>) -> Map<Seq<u8>, V>
    decreases entries.len(),
{
    if entries.len() == 0 {
        Map::empty()
    } else {
        map_of(entries.drop_last()).insert(entries.last().0, entries.last().1)
    }
}

/// Every key occurs at most once.
pub open spec fn unique_keys<V>(entries: Seq<(Seq<u8>, V)>) -> bool {
    forall|a: int, b: int| 0 <= a < b < entries.len() ==> entries[a].0 != entries[b].0
}

/// A key of `map_of` is a key of some pair.
pub proof fn lemma_map_of_contains<V>(entries: Seq<(Seq<u8>, V)>, k: Seq<u8>)
    ensures
        map_of(entries).dom().contains(k) <==> exists|i: int|
            0 <= i < entries.len() && entries[i].0 == k,
    decreases entries.len(),
{
    if entries.len() > 0 {
        lemma_map_of_contains(entries.drop_last(), k);
        if entries.last().0 == k {
            assert(entries[entries.len() - 1].0 == k);
        } else if map_of(entries).dom().contains(k) {
            let i = choose|i: int| 0 <= i < entries.drop_last().len() && entries.drop_last()[i].0
                == k;
            assert(entries[i].0 == k);
        } else {
            if exists|i: int| 0 <= i < entries.len() && entries[i].0 == k {
                let i = choose|i: int| 0 <= i < entries.len() && entries[i].0 == k;
                assert(entries.drop_last()[i].0 == k);
            }
        }
    }
}

/// With unique keys, `map_of` sends each pair's key to that pair's value.
pub proof fn lemma_map_of_at<V>(entries: Seq<(Seq<u8>, V)>, i: int)
    requires
        unique_keys(entries),
        0 <= i < entries.len(),
    ensures
        map_of(entries).dom().contains(entries[i].0),
        map_of(entries)[entries[i].0] == entries[i].1,
    decreases entries.len(),
{
    if i == entries.len() - 1 {
    } else {
        assert(entries.drop_last()[i] == entries[i]);
        lemma_map_of_at(entries.drop_last(), i);
        assert(entries.last().0 != entries[i].0);
    }
}

/// Appending a pair inserts its binding.
pub proof fn lemma_map_of_push<V>(entries: Seq<(Seq<u8>, V)>, k: Seq<u8>, v: V)
    ensures
        map_of(entries.push((k, v))) == map_of(entries).insert(k, v),
{
    assert(entries.push((k, v)).drop_last() =~= entries);
}

/// With unique keys, replacing the value at a pair is an insert at its key.
pub proof fn lemma_map_of_update<V>(entries: Seq<(Seq<u8>, V)>, i: int, v: V)
    requires
        unique_keys(entries),
        0 <= i < entries.len(),
    ensures
        map_of(entries.update(i, (entries[i].0, v))) == map_of(entries).insert(entries[i].0, v),
    decreases entries.len(),
{
    let upd = entries.update(i, (entries[i].0, v));
    if i == entries.len() - 1 {
        assert(upd.drop_last() =~= entries.drop_last());
        assert(map_of(upd) =~= map_of(entries).insert(entries[i].0, v));
    } else {
        assert(upd.drop_last() =~= entries.drop_last().update(i, (entries[i].0, v)));
        assert(entries.drop_last()[i] == entries[i]);
        lemma_map_of_update(entries.drop_last(), i, v);
        assert(entries.last().0 != entries[i].0);
        assert(map_of(upd) =~= map_of(entries).insert(entries[i].0, v));
    }
}

/// A flat JSON object: field order kept, keys unique.
pub struct Doc {
    pub entries: Vec<(Vec<u8>, Vec<u8>)>,
}

impl Doc {
    /// Keys are unique.
    pub open spec fn wf(&self) -> bool {
        unique_keys(pairs_view(self.entries@))
    }

    /// The mapping the document denotes.
    pub open spec fn as_map(&self) -> Map<Seq<u8>, Seq<u8>> {
        map_of(pairs_view(self.entries@))
    }

    /// A document with no fields.
    pub fn empty() -> (r: Doc)
        ensures
            r.wf(),
            r.as_map() == Map::<Seq<u8>, Seq<u8>>::empty(),
            r.entries@.len() == 0,
    {
        let r = Doc { entries: Vec::new() };
        assert(pairs_view(r.entries@) =~= Seq::<(Seq<u8>, Seq<u8>)>::empty());
        r
    }

    /// Sets a field: replaces the value under an existing key, appends a new
    /// pair otherwise.
    #[verifier::loop_isolation(false)]
    pub fn set(&mut self, key: Vec<u8>, value: Vec<u8>)
        requires
            old(self).wf(),
        ensures
            final(self).wf(),
            final(self).as_map() == old(self).as_map().insert(key@, value@),
    {
        let ghost pairs = pairs_view(self.entries@);
        let mut i: usize = 0;
        while i < self.entries.len()
            invariant
                i <= self.entries@.len(),
                self.entries@ == old(self).entries@,
                forall|j: int| 0 <= j < i ==> pairs[j].0 != key@,
            decreases self.entries@.len() - i,
        {
            if crate::bytes::bytes_eq(self.entries[i].0.as_slice(), key.as_slice()) {
                self.entries[i].1 = value;
                proof {
                    assert(pairs_view(self.entries@) =~= pairs.update(i as int, (key@, value@)));
                    lemma_map_of_update(pairs, i as int, value@);
                    assert(self.as_map() =~= old(self).as_map().insert(key@, value@));
                }
                return ;
            }
            i += 1;
        }
        self.entries.push((key, value));
        proof {
            assert(pairs_view(self.entries@) =~= pairs.push((key@, value@)));
            lemma_map_of_push(pairs, key@, value@);
        }
    }

    /// The value under `key`, if the field exists.
    #[verifier::loop_isolation(false)]
    pub fn get(&self, key: &[u8]) -> (r: Option<&Vec<u8>>)
        requires
            self.wf(),
        ensures
            match r {
                Some(v) => self.as_map().dom().contains(key@) && v@ == self.as_map()[key@],
                None => !self.as_map().dom().contains(key@),
            },
    {
        let ghost pairs = pairs_view(self.entries@);
        let mut i: usize = 0;
        while i < self.entries.len()
            invariant
                i <= self.entries@.len(),
                forall|j: int| 0 <= j < i ==> pairs[j].0 != key@,
            decreases self.entries@.len() - i,
        {
            if crate::bytes::bytes_eq(self.entries[i].0.as_slice(), key) {
                proof {
                    lemma_map_of_at(pairs, i as int);
                }
                return Some(&self.entries[i].1);
            }
            i += 1;
        }
        proof {
            lemma_map_of_contains(pairs, key@);
        }
        None
    }
}

} // verus!
