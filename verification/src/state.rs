//! The mathematical model of an index, and what holds of it.

use crate::posting::entries_of;
use crate::store::Resource;
use crate::token::occurrences;
use vstd::prelude::*;

verus! {

/// What an index holds: the resources in the order of their document ids,
/// and for each term the frequency of the term in each document that holds
/// it.
pub struct IndexState<R> {
    pub store: Seq<Resource<R>>,
    pub postings: Map<Seq<char>, Map<usize, usize>>,
}

/// The postings after the document `doc` with the terms `tokens` has been
/// indexed: each term of `tokens` has, for `doc`, the number of its
/// occurrences in `tokens`; nothing else has changed.
pub open spec fn index_tokens(
    postings: Map<Seq<char>, Map<usize, usize>>,
    doc: usize,
    tokens: Seq<Seq<char>>,
) -> Map<Seq<char>, Map<usize, usize>> {
    Map::new(
        |t: Seq<char>| postings.contains_key(t) || tokens.contains(t),
        |t: Seq<char>|
            if tokens.contains(t) {
                entries_of(postings, t).insert(doc, occurrences(tokens, t) as usize)
            } else {
                postings[t]
            },
    )
}

impl<R> IndexState<R> {
    /// The index without documents.
    pub open spec fn empty() -> Self {
        IndexState { store: Seq::empty(), postings: Map::empty() }
    }

    /// The number of documents.
    pub open spec fn total_documents(self) -> nat {
        self.store.len()
    }

    /// The number of documents that hold `term`.
    pub open spec fn document_frequency(self, term: Seq<char>) -> nat {
        entries_of(self.postings, term).len()
    }

    /// Whether the document `doc` holds `term`.
    pub open spec fn holds(self, term: Seq<char>, doc: usize) -> bool {
        entries_of(self.postings, term).contains_key(doc)
    }

    /// The number of tokens of the document `doc`.
    pub open spec fn count(self, doc: usize) -> usize
        recommends
            doc < self.store.len(),
    {
        self.store[doc as int].count
    }

    /// The index is well formed: every document has at least one token; no
    /// term is empty; a posting list has finitely many postings and at
    /// least one; and every posting is for a document of the store, with a
    /// frequency of at least one and at most the number of tokens of that
    /// document.
    pub open spec fn wf(self) -> bool {
        &&& forall|d: int| 0 <= d < self.store.len() ==> (#[trigger] self.store[d]).count >= 1
        &&& forall|t: Seq<char>| #[trigger]
            self.postings.contains_key(t) ==> t.len() > 0 && self.postings[t].dom().finite()
                && self.postings[t].len() > 0
        &&& forall|t: Seq<char>, d: usize|
            self.postings.contains_key(t) && #[trigger] self.postings[t].contains_key(d) ==> d
                < self.store.len() && 0 < self.postings[t][d] <= self.store[d as int].count
    }

    /// The index after one more document: `resource`, with `word_count`
    /// tokens, of which `tokens` are indexed.
    pub open spec fn insert(self, resource: R, word_count: usize, tokens: Seq<Seq<char>>) -> Self {
        IndexState {
            store: self.store.push(Resource { resource, count: word_count }),
            postings: index_tokens(self.postings, self.store.len() as usize, tokens),
        }
    }

    /// The index after the documents `docs`, each given by its resource and
    /// its tokens, and counted by its tokens.
    pub open spec fn insert_all(self, docs: Seq<(R, Seq<Seq<char>>)>) -> Self
        decreases docs.len(),
    {
        if docs.len() == 0 {
            self
        } else {
            self.insert_all(docs.drop_last()).insert(
                docs.last().0,
                docs.last().1.len() as usize,
                docs.last().1,
            )
        }
    }
}

/// What may be indexed as one document: tokens that are not empty, at
/// least one token counted, and no more tokens than are counted.
pub open spec fn indexable(word_count: usize, tokens: Seq<Seq<char>>) -> bool {
    &&& word_count >= 1
    &&& tokens.len() <= word_count
    &&& forall|i: int| 0 <= i < tokens.len() ==> (#[trigger] tokens[i]).len() > 0
}

/// A term occurs at most as often as there are tokens, and at least once
/// where it occurs at all.
pub proof fn lemma_occurrences_bounds(tokens: Seq<Seq<char>>, term: Seq<char>)
    ensures
        occurrences(tokens, term) <= tokens.len(),
        tokens.contains(term) <==> occurrences(tokens, term) > 0,
    decreases tokens.len(),
{
    reveal(Seq::filter);
    if tokens.len() > 0 {
        let front = tokens.drop_last();
        lemma_occurrences_bounds(front, term);
        if tokens.contains(term) {
            let i = choose|i: int| 0 <= i < tokens.len() && tokens[i] == term;
            if i < front.len() {
                assert(front[i] == term);
            }
        }
        if front.contains(term) {
            let i = choose|i: int| 0 <= i < front.len() && front[i] == term;
            assert(tokens[i] == term);
        }
        if tokens.last() == term {
            assert(tokens[tokens.len() - 1] == term);
        }
    }
}

/// One more token adds one occurrence of its own term and none of another.
pub proof fn lemma_occurrences_push(tokens: Seq<Seq<char>>, token: Seq<char>, term: Seq<char>)
    ensures
        occurrences(tokens.push(token), term) == occurrences(tokens, term) + if token == term {
            1nat
        } else {
            0nat
        },
{
    reveal(Seq::filter);
    assert(tokens.push(token).drop_last() == tokens);
}

/// The counts of the terms of `tokens`: each term that occurs, with the
/// number of its occurrences.
pub open spec fn term_counts(tokens: Seq<Seq<char>>) -> Map<Seq<char>, usize> {
    Map::new(|t: Seq<char>| tokens.contains(t), |t: Seq<char>| occurrences(tokens, t) as usize)
}

/// A token is in a sequence with one more token if it is that token or was
/// there before.
pub proof fn lemma_contains_push(tokens: Seq<Seq<char>>, token: Seq<char>, term: Seq<char>)
    ensures
        tokens.push(token).contains(term) <==> tokens.contains(term) || token == term,
{
    lemma_occurrences_bounds(tokens, term);
    lemma_occurrences_bounds(tokens.push(token), term);
    lemma_occurrences_push(tokens, token, term);
}

/// Counting one more token: its term has one occurrence more, and the other
/// counts stay.
pub proof fn lemma_term_counts_push(tokens: Seq<Seq<char>>, token: Seq<char>)
    requires
        tokens.len() < usize::MAX,
    ensures
        term_counts(tokens.push(token)) == term_counts(tokens).insert(
            token,
            (occurrences(tokens, token) + 1) as usize,
        ),
{
    let next = term_counts(tokens.push(token));
    let step = term_counts(tokens).insert(token, (occurrences(tokens, token) + 1) as usize);
    assert forall|t: Seq<char>| next.contains_key(t) == step.contains_key(t) by {
        lemma_contains_push(tokens, token, t);
    }
    assert forall|t: Seq<char>| next.contains_key(t) implies next[t] == step[t] by {
        lemma_contains_push(tokens, token, t);
        lemma_occurrences_push(tokens, token, t);
    }
    assert(next =~= step);
}

/// Indexing one more token of a document: the posting of its term for the
/// document gets one occurrence more, and the other postings stay.
pub proof fn lemma_index_tokens_push(
    postings: Map<Seq<char>, Map<usize, usize>>,
    doc: usize,
    tokens: Seq<Seq<char>>,
    token: Seq<char>,
)
    requires
        tokens.len() < usize::MAX,
    ensures
        index_tokens(postings, doc, tokens.push(token)) == index_tokens(
            postings,
            doc,
            tokens,
        ).insert(
            token,
            entries_of(index_tokens(postings, doc, tokens), token).insert(
                doc,
                (occurrences(tokens, token) + 1) as usize,
            ),
        ),
{
    let before = index_tokens(postings, doc, tokens);
    let next = index_tokens(postings, doc, tokens.push(token));
    let step = before.insert(
        token,
        entries_of(before, token).insert(doc, (occurrences(tokens, token) + 1) as usize),
    );
    assert forall|t: Seq<char>| next.contains_key(t) == step.contains_key(t) by {
        lemma_contains_push(tokens, token, t);
    }
    assert forall|t: Seq<char>| next.contains_key(t) implies next[t] =~= step[t] by {
        lemma_contains_push(tokens, token, t);
        lemma_occurrences_push(tokens, token, t);
    }
    assert(next =~~= step);
}

/// Indexing no token changes no posting.
pub proof fn lemma_index_tokens_none(postings: Map<Seq<char>, Map<usize, usize>>, doc: usize)
    ensures
        index_tokens(postings, doc, Seq::<Seq<char>>::empty()) == postings,
        term_counts(Seq::<Seq<char>>::empty()) == Map::<Seq<char>, usize>::empty(),
{
    assert(index_tokens(postings, doc, Seq::<Seq<char>>::empty()) =~~= postings);
    assert(term_counts(Seq::<Seq<char>>::empty()) =~= Map::<Seq<char>, usize>::empty());
}

/// Indexing a document keeps the index well formed: the frequencies stay
/// within the token counts, the postings stay within the store, and every
/// document has at least one token.
pub proof fn lemma_insert_wf<R>(
    state: IndexState<R>,
    resource: R,
    word_count: usize,
    tokens: Seq<Seq<char>>,
)
    requires
        state.wf(),
        indexable(word_count, tokens),
        state.store.len() < usize::MAX,
    ensures
        state.insert(resource, word_count, tokens).wf(),
{
    let next = state.insert(resource, word_count, tokens);
    let doc = state.store.len() as usize;
    assert forall|t: Seq<char>| #[trigger] next.postings.contains_key(t) implies t.len() > 0
        && next.postings[t].dom().finite() && next.postings[t].len() > 0 by {
        if tokens.contains(t) {
            let i = choose|i: int| 0 <= i < tokens.len() && tokens[i] == t;
            assert(tokens[i].len() > 0);
            let before = entries_of(state.postings, t);
            assert(before.dom().finite());
            assert(next.postings[t].dom() =~= before.dom().insert(doc));
            assert(next.postings[t].contains_key(doc));
            if next.postings[t].len() == 0 {
                assert(next.postings[t].dom() =~= Set::<usize>::empty());
            }
        }
    }
    assert forall|t: Seq<char>, d: usize|
        next.postings.contains_key(t) && #[trigger] next.postings[t].contains_key(d) implies d
        < next.store.len() && 0 < next.postings[t][d] <= next.store[d as int].count by {
        lemma_occurrences_bounds(tokens, t);
        if tokens.contains(t) && d == doc {
        } else {
            assert(state.postings.contains_key(t));
            assert(state.postings[t].contains_key(d));
            assert(next.store[d as int] == state.store[d as int]);
        }
    }
    assert forall|d: int| 0 <= d < next.store.len() implies (#[trigger] next.store[d]).count
        >= 1 by {
        if d < state.store.len() {
            assert(next.store[d] == state.store[d]);
        }
    }
}

/// A term that the new document holds `k` times, with `k` at least one, has
/// for that document the frequency `k`.
pub proof fn lemma_insert_frequency<R>(
    state: IndexState<R>,
    resource: R,
    word_count: usize,
    tokens: Seq<Seq<char>>,
    term: Seq<char>,
)
    requires
        tokens.len() <= usize::MAX,
        occurrences(tokens, term) >= 1,
    ensures
        state.insert(resource, word_count, tokens).holds(term, state.store.len() as usize),
        state.insert(resource, word_count, tokens).postings[term][state.store.len() as usize]
            == occurrences(tokens, term),
{
    lemma_occurrences_bounds(tokens, term);
}

/// A document that is indexed changes no posting of an earlier document and
/// no earlier entry of the store.
pub proof fn lemma_insert_keeps<R>(
    state: IndexState<R>,
    resource: R,
    word_count: usize,
    tokens: Seq<Seq<char>>,
    term: Seq<char>,
    doc: usize,
)
    requires
        doc < state.store.len() <= usize::MAX,
    ensures
        state.insert(resource, word_count, tokens).store[doc as int] == state.store[doc as int],
        state.insert(resource, word_count, tokens).holds(term, doc) == state.holds(term, doc),
        state.holds(term, doc) ==> state.insert(resource, word_count, tokens).postings[term][doc]
            == state.postings[term][doc],
{
}

/// An index that began empty holds as many documents as were inserted, and
/// is well formed if each had at least one token, none of them empty.
pub proof fn lemma_total_documents<R>(docs: Seq<(R, Seq<Seq<char>>)>)
    requires
        docs.len() < usize::MAX,
        forall|i: int|
            0 <= i < docs.len() ==> indexable((#[trigger] docs[i]).1.len() as usize, docs[i].1)
                && docs[i].1.len() <= usize::MAX,
    ensures
        IndexState::<R>::empty().insert_all(docs).total_documents() == docs.len(),
        IndexState::<R>::empty().insert_all(docs).wf(),
    decreases docs.len(),
{
    if docs.len() > 0 {
        let front = docs.drop_last();
        assert forall|i: int| 0 <= i < front.len() implies indexable(
            (#[trigger] front[i]).1.len() as usize,
            front[i].1,
        ) && front[i].1.len() <= usize::MAX by {
            assert(front[i] == docs[i]);
        }
        lemma_total_documents(front);
        let last = docs[docs.len() - 1];
        assert(docs.last() == last);
        lemma_insert_wf(
            IndexState::<R>::empty().insert_all(front),
            last.0,
            last.1.len() as usize,
            last.1,
        );
    }
}

/// The same resource with the same tokens inserted twice gets two document
/// ids, one after the other, with equal entries in the store and equal
/// frequencies for every term.
pub proof fn lemma_insert_twice<R>(
    state: IndexState<R>,
    resource: R,
    word_count: usize,
    tokens: Seq<Seq<char>>,
    term: Seq<char>,
)
    requires
        state.wf(),
        state.store.len() + 1 < usize::MAX,
    ensures
        ({
            let first = state.store.len() as usize;
            let second = (first + 1) as usize;
            let twice = state.insert(resource, word_count, tokens).insert(
                resource,
                word_count,
                tokens,
            );
            &&& twice.total_documents() == state.total_documents() + 2
            &&& twice.store[first as int] == twice.store[second as int]
            &&& twice.holds(term, first) == twice.holds(term, second)
            &&& twice.holds(term, first) == tokens.contains(term)
            &&& twice.holds(term, first) ==> twice.postings[term][first]
                == twice.postings[term][second]
        }),
{
    let first = state.store.len() as usize;
    let once = state.insert(resource, word_count, tokens);
    lemma_occurrences_bounds(tokens, term);
    if state.postings.contains_key(term) {
        // A well-formed index has no posting for a document that is not
        // in the store yet.
        assert(!state.postings[term].contains_key(first));
        assert(!state.postings[term].contains_key((first + 1) as usize));
    }
}

} // verus!
