//! Scoring the documents that hold a term.
//!
//! A score is kept as the four counts that it is made of. Nothing is
//! rounded here: the caller turns a weight into a number.

use crate::reader::ReaderContext;
use crate::state::IndexState;
use crate::table::lists;
use crate::token::Tokens;
use vstd::prelude::*;

verus! {

/// The TF-IDF weight of a term in a document: the term frequency
/// `frequency / word_count`, times the logarithm to base ten of
/// `total_documents / document_frequency`.
#[derive(Clone, Copy, Debug, PartialEq, Eq, Structural)]
pub struct Weight {
    /// How often the term occurs in the document.
    pub frequency: usize,
    /// How many tokens the document has.
    pub word_count: usize,
    /// How many documents the index holds.
    pub total_documents: usize,
    /// How many documents hold the term.
    pub document_frequency: usize,
}

impl Weight {
    pub fn new(
        frequency: usize,
        word_count: usize,
        total_documents: usize,
        document_frequency: usize,
    ) -> (w: Self)
        ensures
            w == (Weight { frequency, word_count, total_documents, document_frequency }),
    {
        Weight { frequency, word_count, total_documents, document_frequency }
    }

    /// Whether the weight is zero for the want of rarity: the term is in
    /// every document, so that the logarithm is that of one.
    pub fn is_common(&self) -> (r: bool)
        ensures
            r == (self.total_documents == self.document_frequency),
    {
        self.total_documents == self.document_frequency
    }
}

/// The weight of `term` in the document `doc` of `state`.
pub open spec fn weight_of<R>(state: IndexState<R>, term: Seq<char>, doc: usize) -> Weight {
    Weight {
        frequency: state.postings[term][doc],
        word_count: state.count(doc),
        total_documents: state.total_documents() as usize,
        document_frequency: state.document_frequency(term) as usize,
    }
}

/// The documents of a scoring with their frequencies.
pub open spec fn scored_pairs(scored: Seq<(usize, Weight)>) -> Seq<(usize, usize)> {
    scored.map_values(|s: (usize, Weight)| (s.0, s.1.frequency))
}

/// `scored` is a scoring of `term`: it names each document that holds the
/// term once, in any order, each with its weight.
pub open spec fn is_scoring<R>(
    state: IndexState<R>,
    term: Seq<char>,
    scored: Seq<(usize, Weight)>,
) -> bool {
    &&& state.postings.contains_key(term)
    &&& lists(scored_pairs(scored), state.postings[term])
    &&& forall|i: int|
        0 <= i < scored.len() ==> (#[trigger] scored[i]).1 == weight_of(state, term, scored[i].0)
}

/// `result` is what scoring `term` gives: nothing for a term that is not in
/// the index, and else a scoring of the term.
pub open spec fn is_term_score<R>(
    state: IndexState<R>,
    term: Seq<char>,
    result: Option<Seq<(usize, Weight)>>,
) -> bool {
    match result {
        Some(scored) => is_scoring(state, term, scored),
        None => !state.postings.contains_key(term),
    }
}

/// The view of the result of a scoring.
pub open spec fn result_view<K, V>(r: Option<Vec<(K, V)>>) -> Option<Seq<(K, V)>> {
    match r {
        Some(v) => Some(v@),
        None => None,
    }
}

/// Those of `results` that are scores, in their order.
pub open spec fn present<K, V>(results: Seq<Option<Vec<(K, V)>>>) -> Seq<Vec<(K, V)>>
    decreases results.len(),
{
    if results.len() == 0 {
        Seq::empty()
    } else if results.last() is Some {
        present(results.drop_last()).push(results.last()->0)
    } else {
        present(results.drop_last())
    }
}

/// What a scorer is: for a term, the documents that hold it, each with a
/// value.
pub trait Score {
    type K;

    type V;

    /// Whether the scorer can be asked.
    spec fn ready(&self) -> bool;

    /// Whether `result` is what scoring `term` gives.
    spec fn is_score(&self, term: Seq<char>, result: Option<Seq<(Self::K, Self::V)>>) -> bool;

    fn score(&self, term: &str) -> (r: Option<Vec<(Self::K, Self::V)>>)
        requires
            self.ready(),
        ensures
            self.is_score(term@, result_view(r)),
    ;
}

/// A scorer of any kind.
pub struct Scorer<S: Score> {
    pub inner: S,
}

impl<S: Score> Scorer<S> {
    pub fn new(strategy: S) -> (r: Self)
        ensures
            r.inner == strategy,
    {
        Scorer { inner: strategy }
    }

    pub fn score(&self, term: &str) -> (r: Option<Vec<(S::K, S::V)>>)
        requires
            self.inner.ready(),
        ensures
            self.inner.is_score(term@, result_view(r)),
    {
        self.inner.score(term)
    }

    /// The scores of the tokens, one result for each token, in their order.
    pub fn from_tokens(&self, tokens: &Tokens) -> (r: Vec<Option<Vec<(S::K, S::V)>>>)
        requires
            self.inner.ready(),
        ensures
            r@.len() == tokens@.len(),
            forall|i: int|
                0 <= i < r@.len() ==> self.inner.is_score(tokens@[i], result_view(#[trigger] r@[i])),
    {
        let mut out: Vec<Option<Vec<(S::K, S::V)>>> = Vec::new();
        let mut i: usize = 0;
        while i < tokens.0.len()
            invariant
                i <= tokens.0.len(),
                self.inner.ready(),
                out@.len() == i,
                forall|k: int|
                    0 <= k < i ==> self.inner.is_score(tokens@[k], result_view(#[trigger] out@[k])),
            decreases tokens.0.len() - i,
        {
            let scored = self.inner.score(tokens.0[i].as_str());
            out.push(scored);
            i += 1;
        }
        out
    }
}

impl<S: Score> Scorer<S> {
    /// The scores of those tokens that have one, in the order of the
    /// tokens: what a caller reduces who looks at the scores one by one.
    pub fn present_scores(&self, tokens: &Tokens) -> (r: Vec<Vec<(S::K, S::V)>>)
        requires
            self.inner.ready(),
        ensures
            exists|results: Seq<Option<Vec<(S::K, S::V)>>>|
                results.len() == tokens@.len() && r@ == present(results) && forall|i: int|
                    0 <= i < results.len() ==> self.inner.is_score(
                        tokens@[i],
                        result_view(#[trigger] results[i]),
                    ),
    {
        let mut out: Vec<Vec<(S::K, S::V)>> = Vec::new();
        let ghost mut results: Seq<Option<Vec<(S::K, S::V)>>> = Seq::empty();
        let mut i: usize = 0;
        while i < tokens.0.len()
            invariant
                i <= tokens.0.len(),
                self.inner.ready(),
                results.len() == i,
                out@ == present(results),
                forall|k: int|
                    0 <= k < i ==> self.inner.is_score(
                        tokens@[k],
                        result_view(#[trigger] results[k]),
                    ),
            decreases tokens.0.len() - i,
        {
            let scored = self.inner.score(tokens.0[i].as_str());
            proof {
                assert(results.push(scored).drop_last() == results);
                results = results.push(scored);
            }
            match scored {
                Some(scores) => {
                    out.push(scores);
                },
                None => {},
            }
            i += 1;
        }
        out
    }
}

/// The scorer by TF-IDF.
pub struct TfIdfScorer<'a, R> {
    pub reader: &'a ReaderContext<'a, R>,
}

impl<'a, R> TfIdfScorer<'a, R> {
    pub fn new(reader: &'a ReaderContext<'a, R>) -> (r: Self)
        ensures
            r.reader == reader,
    {
        TfIdfScorer { reader }
    }
}

impl<'a, R> Score for TfIdfScorer<'a, R> {
    type K = usize;

    type V = Weight;

    /// The index that is read is well formed.
    open spec fn ready(&self) -> bool {
        self.reader.state().wf()
    }

    open spec fn is_score(&self, term: Seq<char>, result: Option<Seq<(usize, Weight)>>) -> bool {
        is_term_score(self.reader.state(), term, result)
    }

    fn score(&self, term: &str) -> (r: Option<Vec<(usize, Weight)>>) {
        let total_documents = self.reader.total_documents();
        match self.reader.get_entry(term) {
            None => None,
            Some(idf_entry) => {
                let document_frequency = idf_entry.count();
                let entries = idf_entry.get_entries();
                let ghost state = self.reader.state();
                let mut scored: Vec<(usize, Weight)> = Vec::new();
                let mut i: usize = 0;
                while i < entries.len()
                    invariant
                        i <= entries.len(),
                        state == self.reader.state(),
                        state.wf(),
                        state.postings.contains_key(term@),
                        lists(crate::posting::posting_pairs(entries@), state.postings[term@]),
                        total_documents == state.total_documents(),
                        document_frequency == state.document_frequency(term@),
                        scored_pairs(scored@) == crate::posting::posting_pairs(entries@).take(
                            i as int,
                        ),
                        forall|k: int|
                            0 <= k < i ==> (#[trigger] scored@[k]).1 == weight_of(
                                state,
                                term@,
                                scored@[k].0,
                            ),
                    decreases entries.len() - i,
                {
                    let index = entries[i].get_index();
                    let frequency = entries[i].get_frequency().value();
                    proof {
                        let pairs = crate::posting::posting_pairs(entries@);
                        assert(pairs[i as int] == (index, frequency));
                        assert(state.postings[term@].contains_key(pairs[i as int].0));
                    }
                    let count = self.reader.count(index);
                    let weight = Weight::new(frequency, count, total_documents, document_frequency);
                    proof {
                        let pairs = crate::posting::posting_pairs(entries@);
                        assert(scored_pairs(scored@.push((index, weight))) == scored_pairs(
                            scored@,
                        ).push((index, frequency)));
                        assert(pairs.take(i + 1) == pairs.take(i as int).push(pairs[i as int]));
                    }
                    scored.push((index, weight));
                    i += 1;
                }
                proof {
                    let pairs = crate::posting::posting_pairs(entries@);
                    assert(pairs.take(i as int) == pairs);
                }
                Some(scored)
            },
        }
    }
}

/// In an index with one document every weight is that of a term which is in
/// every document: one document in all, and one that holds the term.
pub proof fn lemma_single_document<R>(
    state: IndexState<R>,
    term: Seq<char>,
    scored: Seq<(usize, Weight)>,
    i: int,
)
    requires
        state.wf(),
        state.total_documents() == 1,
        is_scoring(state, term, scored),
        0 <= i < scored.len(),
    ensures
        scored.len() == 1,
        scored[i].0 == 0,
        scored[i].1.total_documents == 1,
        scored[i].1.document_frequency == 1,
{
    let entries = state.postings[term];
    let pairs = scored_pairs(scored);
    assert forall|d: usize| entries.contains_key(d) implies d == 0 by {}
    assert(entries.dom() =~= set![0usize]) by {
        assert(entries.len() > 0);
        if !entries.contains_key(0usize) {
            assert(entries.dom() =~= Set::<usize>::empty());
        }
    }
    assert(entries.contains_key(pairs[i].0));
    if scored.len() > 1 {
        assert(entries.contains_key(pairs[0].0));
        assert(entries.contains_key(pairs[1].0));
        assert(pairs[0].0 != pairs[1].0);
    }
}

/// If every document that holds one term holds another, the scoring of the
/// other names every document that the scoring of the one names.
pub proof fn lemma_scoring_monotone<R>(
    state: IndexState<R>,
    narrow: Seq<char>,
    wide: Seq<char>,
    scored_narrow: Seq<(usize, Weight)>,
    scored_wide: Seq<(usize, Weight)>,
    i: int,
)
    requires
        forall|d: usize| state.holds(narrow, d) ==> state.holds(wide, d),
        is_scoring(state, narrow, scored_narrow),
        is_scoring(state, wide, scored_wide),
        0 <= i < scored_narrow.len(),
    ensures
        exists|j: int| 0 <= j < scored_wide.len() && scored_wide[j].0 == scored_narrow[i].0,
{
    let doc = scored_narrow[i].0;
    let narrow_pairs = scored_pairs(scored_narrow);
    let wide_pairs = scored_pairs(scored_wide);
    assert(state.postings[narrow].contains_key(narrow_pairs[i].0));
    assert(state.holds(narrow, doc));
    assert(state.holds(wide, doc));
    let j = choose|j: int| 0 <= j < wide_pairs.len() && (#[trigger] wide_pairs[j]).0 == doc;
    assert(scored_wide[j].0 == wide_pairs[j].0);
}

} // verus!
