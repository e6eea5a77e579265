//! The counter of the terms of one document.

use crate::table::{
    count_table_clear, count_table_get, count_table_insert, count_table_new, counts_of, CountTable,
};
use crate::util::Counter;
use vstd::prelude::*;

verus! {

/// The frequency that `counts` holds for `term`, zero where it holds none.
pub open spec fn count_of(counts: Map<Seq<char>, usize>, term: Seq<char>) -> nat {
    if counts.contains_key(term) {
        counts[term] as nat
    } else {
        0
    }
}

/// Counts the occurrences of terms within one document. Its view maps each
/// term seen to its count.
pub struct TermCounter {
    inner: CountTable,
}

impl View for TermCounter {
    type V = Map<Seq<char>, usize>;

    closed spec fn view(&self) -> Map<Seq<char>, usize> {
        counts_of(self.inner)
    }
}

impl TermCounter {
    pub fn new() -> (r: Self)
        ensures
            r@ == Map::<Seq<char>, usize>::empty(),
    {
        let inner = count_table_new();
        assert(counts_of(inner) =~= Map::<Seq<char>, usize>::empty());
        TermCounter { inner }
    }

    /// Counts one more occurrence of `key`: its count becomes one where it
    /// had none, and grows by one where it had one.
    pub fn insert(&mut self, key: String)
        requires
            count_of(old(self)@, key@) < usize::MAX,
        ensures
            final(self)@ == old(self)@.insert(key@, (count_of(old(self)@, key@) + 1) as usize),
    {
        let next = match count_table_get(&self.inner, key.as_str()) {
            Some(counter) => counter.0 + 1,
            None => 1,
        };
        count_table_insert(&mut self.inner, key, Counter(next));
    }

    pub fn get(&self, key: &str) -> (r: Option<&Counter>)
        ensures
            (r is Some) == self@.contains_key(key@),
            r matches Some(counter) ==> counter.0 == self@[key@],
    {
        count_table_get(&self.inner, key)
    }

    /// The count of a term that was counted at least once.
    pub fn get_unchecked(&self, key: &str) -> (n: usize)
        requires
            self@.contains_key(key@),
        ensures
            n == self@[key@],
    {
        count_table_get(&self.inner, key).unwrap().0
    }

    /// Forgets every count.
    pub fn reset(&mut self)
        ensures
            final(self)@ == Map::<Seq<char>, usize>::empty(),
    {
        count_table_clear(&mut self.inner);
        assert(self@ =~= Map::<Seq<char>, usize>::empty());
    }
}

} // verus!
