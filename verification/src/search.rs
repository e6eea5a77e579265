//! Finding and weighing the documents that hold the terms of a query.

use crate::aggregate::{ranked_once, sorted, Order, Ranked};
use crate::posting::posting_pairs;
use crate::reader::ReaderContext;
use crate::score::{weight_of, Weight};
use crate::state::IndexState;
use crate::table::{
    lists, posting_table_get, posting_table_insert, posting_table_new, postings_of, PostingTable,
};
use crate::token::Tokens;
use vstd::prelude::*;

verus! {

/// Whether the document `doc` holds at least one of `terms`.
pub open spec fn holds_any<R>(state: IndexState<R>, terms: Seq<Seq<char>>, doc: usize) -> bool {
    exists|i: int| 0 <= i < terms.len() && state.holds(#[trigger] terms[i], doc)
}

/// The weights, in the document `doc`, of those of `terms` that the
/// document holds, in the order of the terms. A term that comes twice is
/// weighed twice.
pub open spec fn weights_for<R>(state: IndexState<R>, terms: Seq<Seq<char>>, doc: usize) -> Seq<
    Weight,
>
    decreases terms.len(),
{
    if terms.len() == 0 {
        Seq::empty()
    } else {
        let before = weights_for(state, terms.drop_last(), doc);
        if state.holds(terms.last(), doc) {
            before.push(weight_of(state, terms.last(), doc))
        } else {
            before
        }
    }
}

/// `ranked` is a ranking of the documents that hold one of `terms`: it
/// names each of them once, and no other; the key of each is what `value`
/// makes of its weights; and the greater key comes first, the smaller id
/// among equal keys.
pub open spec fn is_ranking<R, F: Fn(&Vec<Weight>) -> u32>(
    state: IndexState<R>,
    terms: Seq<Seq<char>>,
    value: F,
    ranked: Seq<Ranked>,
) -> bool {
    &&& sorted(ranked, Order::Descending)
    &&& ranked_once(ranked)
    &&& forall|d: usize|
        holds_any(state, terms, d) <==> exists|k: int|
            0 <= k < ranked.len() && (#[trigger] ranked[k]).index == d
    &&& forall|k: int|
        0 <= k < ranked.len() ==> exists|weights: Vec<Weight>|
            weights@ == weights_for(state, terms, (#[trigger] ranked[k]).index) && value.ensures(
                (&weights,),
                ranked[k].key,
            )
}

/// A set of document ids.
pub struct DocSet {
    table: PostingTable,
}

impl View for DocSet {
    type V = Set<usize>;

    closed spec fn view(&self) -> Set<usize> {
        postings_of(self.table).dom()
    }
}

impl DocSet {
    pub fn new() -> (r: Self)
        ensures
            r@ == Set::<usize>::empty(),
    {
        DocSet { table: posting_table_new() }
    }

    pub fn contains(&self, doc: usize) -> (r: bool)
        ensures
            r == self@.contains(doc),
    {
        posting_table_get(&self.table, doc).is_some()
    }

    pub fn insert(&mut self, doc: usize)
        ensures
            final(self)@ == old(self)@.insert(doc),
    {
        posting_table_insert(&mut self.table, doc, 0);
        assert(self@ =~= old(self)@.insert(doc));
    }
}

/// The documents that hold at least one of `terms`, each once, in the order
/// in which they are met.
pub fn candidates<R>(reader: &ReaderContext<'_, R>, terms: &Tokens) -> (docs: Vec<usize>)
    ensures
        docs@.no_duplicates(),
        forall|d: usize| docs@.contains(d) <==> holds_any(reader.state(), terms@, d),
{
    let ghost state = reader.state();
    let mut seen = DocSet::new();
    let mut docs: Vec<usize> = Vec::new();
    let mut i: usize = 0;
    while i < terms.0.len()
        invariant
            i <= terms.0.len(),
            state == reader.state(),
            docs@.no_duplicates(),
            forall|d: usize| seen@.contains(d) <==> docs@.contains(d),
            forall|d: usize| docs@.contains(d) <==> holds_any(state, terms@.take(i as int), d),
        decreases terms.0.len() - i,
    {
        let ghost term = terms@[i as int];
        let ghost found = terms@.take(i as int);
        assert(terms@.take(i + 1) == found.push(term));
        match reader.get_entry(terms.0[i].as_str()) {
            None => {
                assert forall|d: usize| holds_any(state, found.push(term), d) implies holds_any(
                    state,
                    found,
                    d,
                ) by {
                    let k = choose|k: int|
                        0 <= k < found.push(term).len() && state.holds(
                            #[trigger] found.push(term)[k],
                            d,
                        );
                    assert(k < found.len());
                    assert(found[k] == found.push(term)[k]);
                }
                assert forall|d: usize| holds_any(state, found, d) implies holds_any(
                    state,
                    found.push(term),
                    d,
                ) by {
                    let k = choose|k: int| 0 <= k < found.len() && state.holds(#[trigger] found[k], d);
                    assert(found.push(term)[k] == found[k]);
                }
            },
            Some(entry) => {
                let entries = entry.get_entries();
                let ghost pairs = posting_pairs(entries@);
                let mut j: usize = 0;
                while j < entries.len()
                    invariant
                        j <= entries.len(),
                        pairs == posting_pairs(entries@),
                        lists(pairs, state.postings[term]),
                        state.postings.contains_key(term),
                        docs@.no_duplicates(),
                        forall|d: usize| seen@.contains(d) <==> docs@.contains(d),
                        forall|d: usize|
                            docs@.contains(d) <==> (holds_any(state, found, d) || exists|k: int|
                                0 <= k < j && (#[trigger] pairs[k]).0 == d),
                    decreases entries.len() - j,
                {
                    let doc = entries[j].get_index();
                    assert(pairs[j as int].0 == doc);
                    let ghost before = docs@;
                    if !seen.contains(doc) {
                        seen.insert(doc);
                        docs.push(doc);
                        proof {
                            assert forall|d: usize| docs@.contains(d) <==> (before.contains(d) || d
                                == doc) by {
                                if before.contains(d) {
                                    let at = choose|at: int| 0 <= at < before.len() && before[at] == d;
                                    assert(docs@[at] == d);
                                }
                                if d == doc {
                                    assert(docs@[before.len() as int] == d);
                                }
                            }
                        }
                    }
                    proof {
                        assert forall|d: usize|
                            docs@.contains(d) <==> (holds_any(state, found, d) || exists|k: int|
                                0 <= k < j + 1 && (#[trigger] pairs[k]).0 == d) by {
                            if exists|k: int| 0 <= k < j + 1 && (#[trigger] pairs[k]).0 == d {
                                let k = choose|k: int| 0 <= k < j + 1 && (#[trigger] pairs[k]).0 == d;
                                if k < j {
                                    assert(before.contains(d));
                                }
                            }
                            if docs@.contains(d) && !before.contains(d) {
                                assert(pairs[j as int].0 == d);
                            }
                        }
                    }
                    j += 1;
                }
                proof {
                    assert forall|d: usize| docs@.contains(d) <==> holds_any(
                        state,
                        found.push(term),
                        d,
                    ) by {
                        if holds_any(state, found, d) {
                            let k = choose|k: int|
                                0 <= k < found.len() && state.holds(#[trigger] found[k], d);
                            assert(found.push(term)[k] == found[k]);
                        }
                        if exists|k: int| 0 <= k < j && (#[trigger] pairs[k]).0 == d {
                            let k = choose|k: int| 0 <= k < j && (#[trigger] pairs[k]).0 == d;
                            assert(state.postings[term].contains_key(pairs[k].0));
                            assert(found.push(term)[found.len() as int] == term);
                            assert(state.holds(term, d));
                        }
                        if holds_any(state, found.push(term), d) {
                            let k = choose|k: int|
                                0 <= k < found.push(term).len() && state.holds(
                                    #[trigger] found.push(term)[k],
                                    d,
                                );
                            if k < found.len() {
                                assert(found[k] == found.push(term)[k]);
                            } else {
                                assert(state.postings[term].contains_key(d));
                            }
                        }
                    }
                }
            },
        }
        i += 1;
    }
    assert(terms@.take(i as int) == terms@);
    docs
}

/// The weights, in the document `doc`, of those of `terms` that the
/// document holds, in the order of the terms.
pub fn weights<R>(reader: &ReaderContext<'_, R>, terms: &Tokens, doc: usize) -> (r: Vec<Weight>)
    requires
        reader.state().wf(),
    ensures
        r@ == weights_for(reader.state(), terms@, doc),
{
    let ghost state = reader.state();
    let total_documents = reader.total_documents();
    let mut out: Vec<Weight> = Vec::new();
    let mut i: usize = 0;
    assert(terms@.take(0) =~= Seq::<Seq<char>>::empty());
    while i < terms.0.len()
        invariant
            i <= terms.0.len(),
            state == reader.state(),
            state.wf(),
            total_documents == state.total_documents(),
            out@ == weights_for(state, terms@.take(i as int), doc),
        decreases terms.0.len() - i,
    {
        proof {
            assert(terms@.take(i + 1).drop_last() == terms@.take(i as int));
            assert(terms@.take(i + 1).last() == terms@[i as int]);
        }
        match reader.get_entry(terms.0[i].as_str()) {
            None => {},
            Some(entry) => {
                match entry.get(doc) {
                    None => {},
                    Some(frequency) => {
                        let document_frequency = entry.count();
                        let word_count = reader.count(doc);
                        out.push(
                            Weight::new(frequency, word_count, total_documents, document_frequency),
                        );
                    },
                }
            },
        }
        i += 1;
    }
    assert(terms@.take(i as int) == terms@);
    out
}

/// Without terms no document is ranked: a query that is empty, or of which
/// the pipeline leaves nothing, finds nothing.
pub proof fn lemma_no_terms_no_ranking<R, F: Fn(&Vec<Weight>) -> u32>(
    state: IndexState<R>,
    value: F,
    ranked: Seq<Ranked>,
)
    requires
        is_ranking(state, Seq::<Seq<char>>::empty(), value, ranked),
    ensures
        ranked.len() == 0,
{
    if ranked.len() > 0 {
        assert(holds_any(state, Seq::<Seq<char>>::empty(), ranked[0].index));
    }
}

/// Terms that are not in the index find nothing.
pub proof fn lemma_unknown_terms_no_ranking<R, F: Fn(&Vec<Weight>) -> u32>(
    state: IndexState<R>,
    terms: Seq<Seq<char>>,
    value: F,
    ranked: Seq<Ranked>,
)
    requires
        is_ranking(state, terms, value, ranked),
        forall|i: int| 0 <= i < terms.len() ==> !state.postings.contains_key(#[trigger] terms[i]),
    ensures
        ranked.len() == 0,
{
    if ranked.len() > 0 {
        assert(holds_any(state, terms, ranked[0].index));
    }
}

/// If every document that holds one of the terms of a first query holds
/// one of the terms of a second, the second query finds every document
/// that the first finds.
pub proof fn lemma_ranking_monotone<R, F: Fn(&Vec<Weight>) -> u32>(
    state: IndexState<R>,
    narrow: Seq<Seq<char>>,
    wide: Seq<Seq<char>>,
    value: F,
    ranked_narrow: Seq<Ranked>,
    ranked_wide: Seq<Ranked>,
    k: int,
)
    requires
        forall|d: usize| holds_any(state, narrow, d) ==> holds_any(state, wide, d),
        is_ranking(state, narrow, value, ranked_narrow),
        is_ranking(state, wide, value, ranked_wide),
        0 <= k < ranked_narrow.len(),
    ensures
        exists|j: int|
            0 <= j < ranked_wide.len() && (#[trigger] ranked_wide[j]).index
                == ranked_narrow[k].index,
{
    let doc = ranked_narrow[k].index;
    assert(holds_any(state, narrow, doc));
    assert(holds_any(state, wide, doc));
}

/// A term whose documents all hold another term: the query for the other
/// term finds every document that the query for the one finds.
pub proof fn lemma_term_monotone<R, F: Fn(&Vec<Weight>) -> u32>(
    state: IndexState<R>,
    narrow: Seq<char>,
    wide: Seq<char>,
    value: F,
    ranked_narrow: Seq<Ranked>,
    ranked_wide: Seq<Ranked>,
    k: int,
)
    requires
        forall|d: usize| state.holds(narrow, d) ==> state.holds(wide, d),
        is_ranking(state, seq![narrow], value, ranked_narrow),
        is_ranking(state, seq![wide], value, ranked_wide),
        0 <= k < ranked_narrow.len(),
    ensures
        exists|j: int|
            0 <= j < ranked_wide.len() && (#[trigger] ranked_wide[j]).index
                == ranked_narrow[k].index,
{
    assert forall|d: usize| holds_any(state, seq![narrow], d) implies holds_any(
        state,
        seq![wide],
        d,
    ) by {
        let i = choose|i: int| 0 <= i < seq![narrow].len() && state.holds(
            #[trigger] seq![narrow][i],
            d,
        );
        assert(seq![narrow][i] == narrow);
        assert(seq![wide][0] == wide);
    }
    lemma_ranking_monotone(state, seq![narrow], seq![wide], value, ranked_narrow, ranked_wide, k);
}

} // verus!
