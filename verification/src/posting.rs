//! Postings, posting lists and the inverted index.

use crate::table::{
    lists, posting_table_get, posting_table_insert, posting_table_len, posting_table_new,
    posting_table_pairs, posting_table_reserve, postings_of, term_table_get, term_table_insert,
    term_table_new, term_table_remove, term_table_reserve, terms_of, PostingTable, TermTable,
};
use crate::util::Counter;
use vstd::prelude::*;

verus! {

/// A posting: a document id with the frequency of a term in that document.
#[derive(Clone, Copy, Debug)]
pub struct TfEntry {
    pub index: usize,
    pub frequency: Counter,
}

impl TfEntry {
    pub fn new(index: usize, frequency: usize) -> (r: Self)
        ensures
            r.index == index,
            r.frequency.0 == frequency,
    {
        TfEntry { index, frequency: Counter(frequency) }
    }

    pub fn get_frequency(&self) -> (c: Counter)
        ensures
            c == self.frequency,
    {
        self.frequency
    }

    pub fn get_index(&self) -> (i: usize)
        ensures
            i == self.index,
    {
        self.index
    }

    pub fn increment_frequency(&mut self)
        requires
            old(self).frequency.0 < usize::MAX,
        ensures
            final(self).index == old(self).index,
            final(self).frequency.0 == old(self).frequency.0 + 1,
    {
        self.frequency.increment();
    }
}

/// The postings of a list as pairs of document id and frequency.
pub open spec fn posting_pairs(entries: Seq<TfEntry>) -> Seq<(usize, usize)> {
    entries.map_values(|e: TfEntry| (e.index, e.frequency.0))
}

/// The posting list of one term: for each document that holds the term, the
/// frequency of the term in it. Its view is that mapping; the number of its
/// entries is the term's document frequency.
pub struct IdfEntry {
    entries: PostingTable,
}

impl View for IdfEntry {
    type V = Map<usize, usize>;

    closed spec fn view(&self) -> Map<usize, usize> {
        postings_of(self.entries)
    }
}

impl IdfEntry {
    /// An empty posting list. The two numbers are advice on its size; the
    /// second is not used.
    pub fn with_capacity(capacity: usize, threshold: usize) -> (r: Self)
        ensures
            r@ == Map::<usize, usize>::empty(),
    {
        let mut entries = posting_table_new();
        posting_table_reserve(&mut entries, capacity);
        assert(postings_of(entries) =~= Map::<usize, usize>::empty());
        IdfEntry { entries }
    }

    /// The number of documents that hold the term.
    pub fn count(&self) -> (n: usize)
        ensures
            self@.dom().finite(),
            n == self@.len(),
    {
        posting_table_len(&self.entries)
    }

    /// Records `entry`: from now on its document has its frequency, whether
    /// or not the document had one before.
    pub fn add_entry(&mut self, entry: TfEntry)
        ensures
            final(self)@ == old(self)@.insert(entry.index, entry.frequency.0),
    {
        posting_table_insert(&mut self.entries, entry.index, entry.frequency.0);
    }

    /// The frequency of the term in the document `index`.
    pub fn get(&self, index: usize) -> (r: Option<usize>)
        ensures
            (r is Some) == self@.contains_key(index),
            r is Some ==> r->0 == self@[index],
    {
        posting_table_get(&self.entries, index)
    }

    /// The postings, each once, in no particular order.
    pub fn get_entries(&self) -> (r: Vec<TfEntry>)
        ensures
            lists(posting_pairs(r@), self@),
    {
        let pairs = posting_table_pairs(&self.entries);
        let mut out: Vec<TfEntry> = Vec::new();
        let mut i: usize = 0;
        while i < pairs.len()
            invariant
                i <= pairs.len(),
                posting_pairs(out@) == pairs@.take(i as int),
            decreases pairs.len() - i,
        {
            let entry = TfEntry::new(pairs[i].0, pairs[i].1);
            proof {
                assert(posting_pairs(out@.push(entry)) == posting_pairs(out@).push(
                    (entry.index, entry.frequency.0),
                ));
                assert(pairs@.take(i + 1) == pairs@.take(i as int).push(pairs@[i as int]));
            }
            out.push(entry);
            i += 1;
        }
        assert(pairs@.take(i as int) == pairs@);
        out
    }
}

/// The posting list of `term` in `postings`, empty where there is none.
pub open spec fn entries_of(postings: Map<Seq<char>, Map<usize, usize>>, term: Seq<char>) -> Map<
    usize,
    usize,
> {
    if postings.contains_key(term) {
        postings[term]
    } else {
        Map::empty()
    }
}

/// The inverted index: for each term its posting list. Its view maps a term
/// to the mapping from document id to frequency.
pub struct InvertedIndex {
    inner: TermTable,
}

impl View for InvertedIndex {
    type V = Map<Seq<char>, Map<usize, usize>>;

    closed spec fn view(&self) -> Map<Seq<char>, Map<usize, usize>> {
        terms_of(self.inner)
    }
}

impl InvertedIndex {
    pub fn new(capacity: usize) -> (r: Self)
        ensures
            r@ == Map::<Seq<char>, Map<usize, usize>>::empty(),
    {
        InvertedIndex::with_capacity(capacity)
    }

    pub fn with_capacity(capacity: usize) -> (r: Self)
        ensures
            r@ == Map::<Seq<char>, Map<usize, usize>>::empty(),
    {
        let mut inner = term_table_new();
        term_table_reserve(&mut inner, capacity);
        assert(terms_of(inner) =~= Map::<Seq<char>, Map<usize, usize>>::empty());
        InvertedIndex { inner }
    }

    /// Records the posting `tf_entry` under `term`. A term that is new gets
    /// a posting list with this one posting. In the list of a term that is
    /// there, the document of the posting gets its frequency, whether or
    /// not it had one before.
    pub fn add_term(&mut self, term: String, tf_entry: TfEntry)
        ensures
            final(self)@ == old(self)@.insert(
                term@,
                entries_of(old(self)@, term@).insert(tf_entry.index, tf_entry.frequency.0),
            ),
    {
        let mut entry = match term_table_remove(&mut self.inner, term.as_str()) {
            Some(entry) => entry,
            None => IdfEntry::with_capacity(0, 0),
        };
        entry.add_entry(tf_entry);
        term_table_insert(&mut self.inner, term, entry);
        assert(self@ =~= old(self)@.insert(
            term@,
            entries_of(old(self)@, term@).insert(tf_entry.index, tf_entry.frequency.0),
        ));
    }

    /// The posting list of `term`, if the term is in the index.
    pub fn get_term_entries(&self, term: &str) -> (r: Option<&IdfEntry>)
        ensures
            (r is Some) == self@.contains_key(term@),
            r is Some ==> r->0@ == self@[term@],
    {
        term_table_get(&self.inner, term)
    }

    /// What `f` makes of the posting list of `term`, if the term is in the
    /// index.
    pub fn get_entry_with<O, F: FnOnce(&IdfEntry) -> O>(&self, term: &str, f: F) -> (r: Option<O>)
        requires
            forall|entry: &IdfEntry| f.requires((entry,)),
        ensures
            (r is Some) == self@.contains_key(term@),
            r is Some ==> exists|entry: &IdfEntry|
                entry@ == self@[term@] && f.ensures((entry,), r->0),
    {
        match self.get_term_entries(term) {
            Some(entry) => Some(f(entry)),
            None => None,
        }
    }
}

} // verus!
