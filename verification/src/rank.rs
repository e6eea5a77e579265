//! Ranking the documents that hold a term.

use crate::reader::ReaderContext;
use crate::score::{is_term_score, result_view, Score, TfIdfScorer, Weight};
use vstd::prelude::*;

verus! {

/// A document with its TF-IDF weight.
#[derive(Clone, Copy, Debug)]
pub struct TfIdf {
    pub index: usize,
    pub score: Weight,
}

impl TfIdf {
    pub fn new(index: usize, score: Weight) -> (r: Self)
        ensures
            r.index == index,
            r.score == score,
    {
        TfIdf { index, score }
    }

    pub fn get_index(&self) -> (i: usize)
        ensures
            i == self.index,
    {
        self.index
    }

    pub fn get_score(&self) -> (w: Weight)
        ensures
            w == self.score,
    {
        self.score
    }
}

/// The documents of a ranking with their weights.
pub open spec fn ranked_pairs(ranked: Seq<TfIdf>) -> Seq<(usize, Weight)> {
    ranked.map_values(|r: TfIdf| (r.index, r.score))
}

/// The view of the result of a ranking.
pub open spec fn ranking_view(r: Option<Vec<TfIdf>>) -> Option<Seq<(usize, Weight)>> {
    match r {
        Some(v) => Some(ranked_pairs(v@)),
        None => None,
    }
}

/// The ranker by TF-IDF.
pub struct TfIdfRanker<'a, R> {
    pub reader: &'a ReaderContext<'a, R>,
}

impl<'a, R> TfIdfRanker<'a, R> {
    pub fn new(reader: &'a ReaderContext<'a, R>) -> (r: Self)
        ensures
            r.reader == reader,
    {
        TfIdfRanker { reader }
    }

    /// The documents that hold `term`, each once and with its weight, in no
    /// particular order; nothing for a term that is not in the index.
    pub fn get(&self, term: &str) -> (r: Option<Vec<TfIdf>>)
        requires
            self.reader.state().wf(),
        ensures
            is_term_score(self.reader.state(), term@, ranking_view(r)),
    {
        let scorer = TfIdfScorer::new(self.reader);
        match scorer.score(term) {
            None => None,
            Some(scored) => {
                let mut ranked: Vec<TfIdf> = Vec::new();
                let mut i: usize = 0;
                while i < scored.len()
                    invariant
                        i <= scored.len(),
                        ranked_pairs(ranked@) == scored@.take(i as int),
                    decreases scored.len() - i,
                {
                    let item = TfIdf::new(scored[i].0, scored[i].1);
                    proof {
                        assert(ranked_pairs(ranked@.push(item)) == ranked_pairs(ranked@).push(
                            (item.index, item.score),
                        ));
                        assert(scored@.take(i + 1) == scored@.take(i as int).push(scored@[i as int]));
                    }
                    ranked.push(item);
                    i += 1;
                }
                assert(scored@.take(i as int) == scored@);
                Some(ranked)
            },
        }
    }
}

} // verus!
