//! The engine: a tokenizer, a pipeline of normalizers and an index.

use crate::aggregate::{sort_by, Order, Ranked};
use crate::descriptor::Descriptor;
use crate::index::Indexer;
use crate::normalizer::{apply_all, keeps_empty, NormalizerPipeline};
use crate::query::Query;
use crate::score::{is_term_score, result_view, Score, Scorer, TfIdfScorer, Weight};
use crate::search::{candidates, holds_any, is_ranking, weights, weights_for};
use crate::token::{non_empty, Tokens};
use crate::tokenizer::Tokenizer;
use vstd::prelude::*;

verus! {

/// The engine: it indexes texts and finds the resources whose texts hold
/// the terms of a query.
pub struct IdxFacade<I: Indexer> {
    pub index: I,
    pub tokenizer: Tokenizer,
    pub pipeline: NormalizerPipeline,
}

impl<I: Indexer> IdxFacade<I> {
    /// The terms of `text`: its tokens, as the pipeline leaves them, without
    /// those that the pipeline left empty.
    pub open spec fn terms(&self, text: Seq<char>) -> Seq<Seq<char>> {
        non_empty(apply_all(self.pipeline@, self.tokenizer.tokens(text)))
    }

    /// The terms of `text`.
    pub fn terms_in(&self, text: &str) -> (tokens: Tokens)
        ensures
            tokens@ == self.terms(text@),
    {
        let mut tokenizer = self.tokenizer;
        let mut tokens = tokenizer.tokenize(text);
        if !self.pipeline.is_empty() {
            self.pipeline.run(&mut tokens);
        }
        tokens.retain_non_empty();
        tokens
    }

    /// An engine with an empty index.
    pub fn new(
        capacity: usize,
        threshold: usize,
        tokenizer: Tokenizer,
        pipeline: NormalizerPipeline,
    ) -> (r: Self)
        ensures
            r.index.wf(),
            r.index.state() == crate::state::IndexState::<I::R>::empty(),
            r.tokenizer == tokenizer,
            r.pipeline == pipeline,
    {
        IdxFacade { index: I::new(capacity, threshold), tokenizer, pipeline }
    }

    /// Indexes the resource of `descriptor` under the terms of its text.
    /// The document is counted by its terms. A text without terms is not
    /// indexed.
    pub fn insert(&mut self, descriptor: Descriptor<I::R>)
        requires
            old(self).index.wf(),
            old(self).index.state().store.len() < usize::MAX,
        ensures
            final(self).index.wf(),
            final(self).index.state().wf(),
            final(self).tokenizer == old(self).tokenizer,
            final(self).pipeline == old(self).pipeline,
            ({
                let terms = old(self).terms(descriptor.document@);
                final(self).index.state() == if terms.len() == 0 {
                    old(self).index.state()
                } else {
                    old(self).index.state().insert(
                        descriptor.resource,
                        terms.len() as usize,
                        terms,
                    )
                }
            }),
    {
        let mut tokens = self.terms_in(descriptor.document.0.as_str());
        let (resource, _) = descriptor.into_parts();
        let word_count = tokens.count();
        if word_count > 0 {
            proof {
                let terms = tokens@;
                assert forall|i: int| 0 <= i < terms.len() implies (#[trigger] terms[i]).len()
                    > 0 by {
                    let pred = |t: Seq<char>| t.len() > 0;
                    apply_all(old(self).pipeline@, old(self).tokenizer.tokens(descriptor.document@))
                        .lemma_filter_pred(pred, i);
                }
            }
            self.index.insert(resource, word_count, &mut tokens);
        }
        proof {
            self.index.lemma_wf();
        }
    }

    /// The scores of the terms of `query`, one result for each term, in
    /// their order.
    pub fn score(&self, query: Query) -> (r: Vec<Option<Vec<(usize, Weight)>>>)
        requires
            self.index.wf(),
        ensures
            r@.len() == self.terms(query@).len(),
            forall|i: int|
                0 <= i < r@.len() ==> is_term_score(
                    self.index.state(),
                    self.terms(query@)[i],
                    result_view(#[trigger] r@[i]),
                ),
    {
        let tokens = self.terms_in(query.0);
        let reader = self.index.reader();
        let scorer = Scorer::new(TfIdfScorer::new(&reader));
        scorer.from_tokens(&tokens)
    }

    /// The resources of the documents that hold a term of `query`, the
    /// best first. The rank of a document is what `value` makes of the
    /// weights of the terms that the document holds: the greater key is
    /// the better one, and among equal keys the smaller id.
    pub fn get<F: Fn(&Vec<Weight>) -> u32>(&self, query: Query, value: F) -> (r: Vec<I::R>)
        requires
            self.index.wf(),
            forall|weights: &Vec<Weight>| value.requires((weights,)),
        ensures
            exists|ranked: Seq<Ranked>|
                is_ranking(self.index.state(), self.terms(query@), value, ranked) && r@.len()
                    == ranked.len() && forall|k: int|
                    0 <= k < ranked.len() ==> (#[trigger] ranked[k]).index
                        < self.index.state().store.len() && cloned(
                        self.index.state().store[ranked[k].index as int].resource,
                        r@[k],
                    ),
    {
        let tokens = self.terms_in(query.0);
        let reader = self.index.reader();
        let ghost state = self.index.state();
        let ghost terms = tokens@;
        let docs = candidates(&reader, &tokens);

        let mut unsorted: Vec<Ranked> = Vec::new();
        let mut i: usize = 0;
        while i < docs.len()
            invariant
                i <= docs.len(),
                state == reader.state(),
                state.wf(),
                terms == tokens@,
                unsorted@.len() == i,
                forall|weights: &Vec<Weight>| value.requires((weights,)),
                forall|k: int| 0 <= k < i ==> (#[trigger] unsorted@[k]).index == docs@[k],
                forall|k: int|
                    0 <= k < i ==> exists|weights: Vec<Weight>|
                        weights@ == weights_for(state, terms, (#[trigger] unsorted@[k]).index)
                            && value.ensures((&weights,), unsorted@[k].key),
            decreases docs.len() - i,
        {
            let found = weights(&reader, &tokens, docs[i]);
            let key = value(&found);
            unsorted.push(Ranked::new(docs[i], key));
            i += 1;
        }
        proof {
            assert forall|a: int, b: int| 0 <= a < b < unsorted@.len() implies unsorted@[a].index
                != unsorted@[b].index by {
                assert(unsorted@[a].index == docs@[a] && unsorted@[b].index == docs@[b]);
            }
        }
        let ranked = sort_by(&unsorted, Order::Descending);
        proof {
            assert forall|d: usize|
                holds_any(state, terms, d) <==> exists|k: int|
                    0 <= k < ranked@.len() && (#[trigger] ranked@[k]).index == d by {
                if holds_any(state, terms, d) {
                    assert(docs@.contains(d));
                    let at = choose|at: int| 0 <= at < docs@.len() && docs@[at] == d;
                    assert(unsorted@.contains(unsorted@[at]));
                    let k = choose|k: int| 0 <= k < ranked@.len() && ranked@[k] == unsorted@[at];
                    assert(ranked@[k].index == d);
                }
                if exists|k: int| 0 <= k < ranked@.len() && (#[trigger] ranked@[k]).index == d {
                    let k = choose|k: int| 0 <= k < ranked@.len() && (#[trigger] ranked@[k]).index == d;
                    assert(ranked@.contains(ranked@[k]));
                    let at = choose|at: int| 0 <= at < unsorted@.len() && unsorted@[at] == ranked@[k];
                    assert(docs@[at] == d);
                    assert(docs@.contains(d));
                }
            }
            assert forall|k: int| 0 <= k < ranked@.len() implies exists|weights: Vec<Weight>|
                weights@ == weights_for(state, terms, (#[trigger] ranked@[k]).index)
                    && value.ensures((&weights,), ranked@[k].key) by {
                assert(ranked@.contains(ranked@[k]));
                let at = choose|at: int| 0 <= at < unsorted@.len() && unsorted@[at] == ranked@[k];
                assert(unsorted@[at].index == ranked@[k].index);
            }
            assert(is_ranking(state, terms, value, ranked@));
        }

        let mut out: Vec<I::R> = Vec::new();
        let mut k: usize = 0;
        while k < ranked.len()
            invariant
                k <= ranked.len(),
                state == self.index.state(),
                state.wf(),
                is_ranking(state, terms, value, ranked@),
                out@.len() == k,
                forall|n: int|
                    0 <= n < k ==> (#[trigger] ranked@[n]).index < state.store.len() && cloned(
                        state.store[ranked@[n].index as int].resource,
                        out@[n],
                    ),
            decreases ranked.len() - k,
        {
            let doc = ranked[k].index;
            proof {
                assert(ranked@[k as int].index == doc);
                assert(holds_any(state, terms, doc));
                let t = choose|t: int| 0 <= t < terms.len() && state.holds(#[trigger] terms[t], doc);
                assert(state.postings.contains_key(terms[t]));
                assert(state.postings[terms[t]].contains_key(doc));
            }
            out.push(self.index.get(doc).unwrap());
            k += 1;
        }
        out
    }
}

/// A query without characters has no terms, whatever the tokenizer, where
/// no stage of the pipeline makes a token of none, as none of the provided
/// normalizers does: its scores are none.
pub proof fn lemma_empty_query<I: Indexer>(engine: IdxFacade<I>)
    requires
        keeps_empty(engine.pipeline@),
    ensures
        engine.terms(Seq::<char>::empty()) == Seq::<Seq<char>>::empty(),
{
    let none = Seq::<Seq<char>>::empty();
    assert(engine.tokenizer.tokens(Seq::<char>::empty()) =~= none);
    crate::normalizer::lemma_apply_all_empty(engine.pipeline@);
    reveal(Seq::filter);
    assert(non_empty(none) =~= none);
}

/// A query of which the pipeline leaves no token has no terms: its scores
/// are none.
pub proof fn lemma_no_tokens_no_terms<I: Indexer>(engine: IdxFacade<I>, query: Seq<char>)
    requires
        apply_all(engine.pipeline@, engine.tokenizer.tokens(query)).len() == 0,
    ensures
        engine.terms(query) == Seq::<Seq<char>>::empty(),
{
    reveal(Seq::filter);
    assert(engine.terms(query) =~= Seq::<Seq<char>>::empty());
}

/// A query whose tokens, as they reach a last stage that removes stop
/// words, are all stop words has no terms: its scores are none.
pub proof fn lemma_stopword_query<I: Indexer>(engine: IdxFacade<I>, query: Seq<char>)
    requires
        engine.pipeline@.len() > 0,
        engine.pipeline@.last() is Stopwords,
        ({
            let words = engine.pipeline@.last()->Stopwords_0@;
            let reached = apply_all(engine.pipeline@.drop_last(), engine.tokenizer.tokens(query));
            forall|i: int|
                0 <= i < reached.len() ==> words.contains(
                    crate::text::lowercase(#[trigger] reached[i]),
                )
        }),
    ensures
        engine.terms(query) == Seq::<Seq<char>>::empty(),
{
    let words = engine.pipeline@.last()->Stopwords_0@;
    let reached = apply_all(engine.pipeline@.drop_last(), engine.tokenizer.tokens(query));
    crate::normalizer::stopwords::lemma_all_stopwords(reached, words);
    lemma_no_tokens_no_terms(engine, query);
}

/// An empty query finds nothing, where no stage of the pipeline makes a
/// token of none, as none of the provided normalizers does: every ranking
/// of it is empty.
pub proof fn lemma_empty_query_finds_nothing<I: Indexer, F: Fn(&Vec<Weight>) -> u32>(
    engine: IdxFacade<I>,
    value: F,
    ranked: Seq<Ranked>,
)
    requires
        keeps_empty(engine.pipeline@),
        is_ranking(engine.index.state(), engine.terms(Seq::<char>::empty()), value, ranked),
    ensures
        ranked.len() == 0,
{
    lemma_empty_query(engine);
    crate::search::lemma_no_terms_no_ranking(engine.index.state(), value, ranked);
}

/// A query whose tokens, as they reach a last stage that removes stop
/// words, are all stop words finds nothing: every ranking of it is empty.
pub proof fn lemma_stopword_query_finds_nothing<I: Indexer, F: Fn(&Vec<Weight>) -> u32>(
    engine: IdxFacade<I>,
    query: Seq<char>,
    value: F,
    ranked: Seq<Ranked>,
)
    requires
        engine.pipeline@.len() > 0,
        engine.pipeline@.last() is Stopwords,
        ({
            let words = engine.pipeline@.last()->Stopwords_0@;
            let reached = apply_all(engine.pipeline@.drop_last(), engine.tokenizer.tokens(query));
            forall|i: int|
                0 <= i < reached.len() ==> words.contains(
                    crate::text::lowercase(#[trigger] reached[i]),
                )
        }),
        is_ranking(engine.index.state(), engine.terms(query), value, ranked),
    ensures
        ranked.len() == 0,
{
    lemma_stopword_query(engine, query);
    crate::search::lemma_no_terms_no_ranking(engine.index.state(), value, ranked);
}

} // verus!
