use idx::index::{CoreIndex, Index, IndexOptions, Indexer};
use idx::map::TermCounter;
use idx::posting::{IdfEntry, InvertedIndex, TfEntry};
use idx::rank::TfIdfRanker;
use idx::score::{Score, Scorer, TfIdfScorer, Weight};
use idx::store::{FileEntry, FileIndex, Resource, Store};
use idx::token::{Token, TokenVec};
use idx::util::Counter;
use idx::writer::{ResourceState, WriterContext};

fn tokens(words: &[&str]) -> TokenVec {
    TokenVec::from(words.iter().map(|word| Token::from(*word)).collect::<Vec<Token>>())
}

fn postings(entry: &IdfEntry) -> Vec<(usize, usize)> {
    let mut pairs: Vec<(usize, usize)> = entry
        .get_entries()
        .iter()
        .map(|e| (e.get_index(), e.get_frequency().value()))
        .collect();
    pairs.sort();
    pairs
}

#[test]
fn core_test_map_frequency_basic() {
    let mut map = TermCounter::new();

    let tokens = tokens(&["apple", "banana", "apple", "orange", "banana", "apple"]);

    for token in tokens.0 {
        map.insert(token.inner());
    }

    assert_eq!(map.get("apple"), Some(&Counter::new(3)));
    assert_eq!(map.get("banana"), Some(&Counter::new(2)));
    assert_eq!(map.get("orange"), Some(&Counter::new(1)));
    assert_eq!(map.get("pineapple"), None);
}

#[test]
fn map_test_map_frequency_basic() {
    let mut map = TermCounter::new();

    let tokens = tokens(&["apple", "banana", "apple", "orange", "banana", "apple"]);

    for token in tokens.0 {
        map.insert(token.as_str().to_string());
    }

    assert_eq!(map.get("apple"), Some(&Counter::new(3)));
    assert_eq!(map.get("banana"), Some(&Counter::new(2)));
    assert_eq!(map.get("orange"), Some(&Counter::new(1)));
    assert_eq!(map.get("pineapple"), None);
}

#[test]
fn test_term_counter_reset_and_unchecked() {
    let mut map = TermCounter::new();
    map.insert("a".to_string());
    map.insert("a".to_string());
    map.insert("b".to_string());
    assert_eq!(map.get_unchecked("a"), 2);
    assert_eq!(map.get_unchecked("b"), 1);
    map.reset();
    assert_eq!(map.get("a"), None);
    assert_eq!(map.get("b"), None);
    map.insert("a".to_string());
    assert_eq!(map.get_unchecked("a"), 1);
}

#[test]
fn test_counter() {
    let mut counter = Counter::new(7);
    assert_eq!(*counter.inner_ref(), 7);
    counter.increment();
    assert_eq!(counter.value(), 8);
    counter.decrement();
    counter.decrement();
    assert_eq!(counter, Counter::new(6));
    assert_eq!(Counter::default().value(), 0);
}

#[test]
fn test_idx_api() {
    let mut indexer: CoreIndex<String> = CoreIndex::with_capacity(20);
    let mut writer = indexer.writer();
    writer.insert_counter("t".into());
    assert_eq!(writer.get_word_frequency_unchecked("t"), 1);

    let reader = indexer.reader();
    let entries = reader.get_term_entries("t");
    assert!(entries.is_none());
    assert_eq!(reader.get_word_frequency_unchecked("t"), 1);
    assert_eq!(reader.total_documents(), 0);
}

#[test]
fn test_store_ids_are_dense() {
    let mut store: Store<String> = Store::with_capacity(2);
    assert_eq!(store.len(), 0);
    assert!(store.get(0).is_none());
    assert_eq!(store.insert(Resource::new("a".to_string(), 3)), 0);
    assert_eq!(store.insert(Resource::new("b".to_string(), 1)), 1);
    assert_eq!(store.insert(Resource::new("a".to_string(), 3)), 2);
    assert_eq!(store.len(), 3);
    assert_eq!(store.get(0).unwrap().count(), 3);
    assert_eq!(store.get(1).unwrap().resource(), "b");
    assert_eq!(store.get(2).unwrap().resource(), store.get(0).unwrap().resource());
    assert_eq!(store.get(2).unwrap().count(), store.get(0).unwrap().count());
    assert!(store.get(3).is_none());
    assert_eq!(store.get_path(1), Some("b".to_string()));
    assert_eq!(store.get_path(3), None);
}

#[test]
fn test_file_index() {
    let mut files = FileIndex::new();
    assert_eq!(files.len(), 0);
    assert_eq!(files.insert(FileEntry::new("one.txt".to_string(), 4)), 0);
    assert_eq!(files.insert(FileEntry::new("two.txt".to_string(), 9)), 1);
    assert_eq!(files.len(), 2);
    assert_eq!(files.get(1).unwrap().count(), 9);
    assert_eq!(files.get(0).unwrap().path, "one.txt");
    assert!(files.get(2).is_none());
    assert_eq!(FileIndex::with_capacity(0).len(), 0);
}

#[test]
fn test_idf_entry_is_keyed_by_document() {
    let mut entry = IdfEntry::with_capacity(4, 3);
    assert_eq!(entry.count(), 0);
    entry.add_entry(TfEntry::new(5, 1));
    entry.add_entry(TfEntry::new(2, 7));
    assert_eq!(entry.count(), 2);
    entry.add_entry(TfEntry::new(5, 2));
    assert_eq!(entry.count(), 2);
    assert_eq!(entry.get(5), Some(2));
    assert_eq!(entry.get(2), Some(7));
    assert_eq!(entry.get(0), None);
    assert_eq!(postings(&entry), vec![(2, 7), (5, 2)]);
}

#[test]
fn test_tf_entry() {
    let mut entry = TfEntry::new(3, 1);
    entry.increment_frequency();
    assert_eq!(entry.get_index(), 3);
    assert_eq!(entry.get_frequency(), Counter::new(2));
}

#[test]
fn test_inverted_index_add_term() {
    let mut index = InvertedIndex::new(8);
    assert!(index.get_term_entries("cat").is_none());

    index.add_term("cat".to_string(), TfEntry::new(0, 1));
    index.add_term("cat".to_string(), TfEntry::new(1, 1));
    index.add_term("dog".to_string(), TfEntry::new(1, 1));
    index.add_term("cat".to_string(), TfEntry::new(1, 2));

    assert_eq!(postings(index.get_term_entries("cat").unwrap()), vec![(0, 1), (1, 2)]);
    assert_eq!(postings(index.get_term_entries("dog").unwrap()), vec![(1, 1)]);
    assert!(index.get_term_entries("").is_none());
    assert_eq!(index.get_entry_with("cat", |entry| entry.count()), Some(2));
    assert_eq!(index.get_entry_with("cow", |entry| entry.count()), None);
}

#[test]
fn test_writer_context_frequency_accumulation() {
    let mut core: CoreIndex<String> = CoreIndex::with_capacity(4);
    {
        let writer = core.writer();
        let begin = WriterContext::<ResourceState, String>::new(writer);
        let mut per_resource = begin.entry("doc".to_string(), 5);
        for term in ["a", "b", "a", "c"] {
            per_resource.insert_term(term.to_string());
        }
        per_resource.insert_term_with(|| Token::from("a"));
        per_resource.reset_counter();
    }
    let reader = core.reader();
    assert_eq!(reader.total_documents(), 1);
    assert_eq!(reader.get_index(0).unwrap().count(), 5);
    assert_eq!(postings(reader.get_term_entries("a").unwrap()), vec![(0, 3)]);
    assert_eq!(postings(reader.get_term_entries("b").unwrap()), vec![(0, 1)]);
    assert_eq!(postings(reader.get_term_entries("c").unwrap()), vec![(0, 1)]);
    assert_eq!(core.count.get("a"), None);
}

#[test]
fn test_index_frequency_accumulation() {
    let mut index: Index<String> = Index::new(10, 8);
    let mut terms = tokens(&["a", "b", "a", "c", "a"]);
    index.insert("doc".to_string(), 5, &mut terms);
    assert_eq!(terms, tokens(&["", "", "", "", ""]));

    let reader = index.reader();
    assert_eq!(reader.total_documents(), 1);
    assert_eq!(reader.count(0), 5);
    assert_eq!(postings(reader.get_entry("a").unwrap()), vec![(0, 3)]);
    assert_eq!(postings(reader.get_entry("b").unwrap()), vec![(0, 1)]);
    assert_eq!(postings(reader.get_entry("c").unwrap()), vec![(0, 1)]);
    assert_eq!(reader.document_frequency("a"), Some(1));
    assert_eq!(reader.document_frequency("d"), None);
    assert_eq!(reader.get_entry_with("a", |entry| entry.get(0)), Some(Some(3)));
    assert_eq!(index.get(0), Some("doc".to_string()));
    assert_eq!(index.get(1), None);
}

#[test]
fn test_index_identical_resources() {
    let mut index: Index<String> = Index::new(10, 8);
    let mut first = tokens(&["same", "text", "same"]);
    let mut second = tokens(&["same", "text", "same"]);
    index.insert("r".to_string(), 3, &mut first);
    index.insert("r".to_string(), 3, &mut second);

    assert_eq!(index.total_docs(), 2);
    assert_eq!(index.get(0), index.get(1));
    let reader = index.reader();
    assert_eq!(reader.count(0), reader.count(1));
    assert_eq!(postings(reader.get_entry("same").unwrap()), vec![(0, 2), (1, 2)]);
    assert_eq!(postings(reader.get_entry("text").unwrap()), vec![(0, 1), (1, 1)]);
    assert_eq!(index.document_frequency("same"), Some(2));
    assert_eq!(index.document_frequency("text"), Some(2));
}

#[test]
fn test_index_invariants_hold_after_inserts() {
    let docs: Vec<Vec<&str>> = vec![
        vec!["cat", "sat", "mat"],
        vec!["cat", "sat"],
        vec!["dog", "barked", "dog", "dog"],
        vec!["cat"],
    ];
    let mut index: Index<usize> = Index::new(4, 3);
    for (n, doc) in docs.iter().enumerate() {
        let mut terms = tokens(doc);
        index.insert(n, doc.len(), &mut terms);
        assert_eq!(index.total_docs(), n + 1);
    }
    let reader = index.reader();
    for d in 0..docs.len() {
        assert!(reader.count(d) >= 1);
        assert_eq!(reader.get_resource(d), Some(d));
    }
    for term in ["cat", "sat", "mat", "dog", "barked"] {
        let entry = reader.get_entry(term).unwrap();
        assert!(entry.count() > 0);
        assert_eq!(reader.document_frequency(term), Some(entry.count()));
        for (d, f) in postings(entry) {
            assert!(d < reader.total_documents());
            assert!(0 < f && f <= reader.count(d));
            assert_eq!(f, docs[d].iter().filter(|t| **t == term).count());
        }
    }
    assert_eq!(postings(reader.get_entry("dog").unwrap()), vec![(2, 3)]);
}

#[test]
fn test_index_keeps_its_advice() {
    let mut index: Index<u8> = Index::new(12, 9);
    assert_eq!((index.capacity, index.threshold), (12, 9));
    index.insert(1, 1, &mut tokens(&["a"]));
    assert_eq!((index.capacity, index.threshold), (12, 9));
}

#[test]
fn test_index_with_options() {
    let plain: Index<String> = Index::with_options(None);
    assert_eq!((plain.capacity, plain.threshold), (10_000, 9_500));
    assert_eq!(plain.total_docs(), 0);
    let sized: Index<String> =
        Index::with_options(Some(IndexOptions { capacity: 7, threshold: 5 }));
    assert_eq!((sized.capacity, sized.threshold), (7, 5));
}

#[test]
fn test_tfidf_scorer_weights() {
    let mut index: Index<String> = Index::new(4, 3);
    index.insert("zero".to_string(), 3, &mut tokens(&["cat", "sat", "mat"]));
    index.insert("one".to_string(), 2, &mut tokens(&["cat", "sat"]));
    index.insert("two".to_string(), 2, &mut tokens(&["dog", "barked"]));

    let reader = index.reader();
    let scorer = Scorer::new(TfIdfScorer::new(&reader));
    let mut cat = scorer.score("cat").unwrap();
    cat.sort_by_key(|s| s.0);
    assert_eq!(cat, vec![(0, Weight::new(1, 3, 3, 2)), (1, Weight::new(1, 2, 3, 2))]);
    assert_eq!(scorer.score("dog").unwrap(), vec![(2, Weight::new(1, 2, 3, 1))]);
    assert_eq!(scorer.score("xyzzy"), None);

    let all = scorer.from_tokens(&tokens(&["dog", "xyzzy", "mat"]));
    assert_eq!(
        all,
        vec![Some(vec![(2, Weight::new(1, 2, 3, 1))]), None, Some(vec![(0, Weight::new(1, 3, 3, 1))])]
    );

    let present = scorer.present_scores(&tokens(&["dog", "xyzzy", "mat", "dog"]));
    assert_eq!(
        present,
        vec![
            vec![(2, Weight::new(1, 2, 3, 1))],
            vec![(0, Weight::new(1, 3, 3, 1))],
            vec![(2, Weight::new(1, 2, 3, 1))]
        ]
    );
    assert!(scorer.present_scores(&tokens(&["xyzzy"])).is_empty());

    let plain = TfIdfScorer::new(&reader);
    assert_eq!(plain.score("barked"), Some(vec![(2, Weight::new(1, 2, 3, 1))]));

    let ranker = TfIdfRanker::new(&reader);
    let ranked = ranker.get("mat").unwrap();
    assert_eq!(ranked.len(), 1);
    assert_eq!(ranked[0].get_index(), 0);
    assert_eq!(ranked[0].get_score(), Weight::new(1, 3, 3, 1));
    assert!(ranker.get("xyzzy").is_none());
}

#[test]
fn test_single_document_weights_are_common() {
    let mut index: Index<String> = Index::new(1, 1);
    index.insert("only".to_string(), 4, &mut tokens(&["a", "b", "a", "c"]));
    let reader = index.reader();
    let scorer = TfIdfScorer::new(&reader);
    for term in ["a", "b", "c"] {
        let scored = scorer.score(term).unwrap();
        assert_eq!(scored.len(), 1);
        let weight = scored[0].1;
        assert!(weight.is_common());
        assert_eq!((weight.total_documents, weight.document_frequency), (1, 1));
        let idf = (weight.total_documents as f32 / weight.document_frequency as f32).log10();
        let tf = weight.frequency as f32 / weight.word_count as f32;
        assert_eq!(tf * idf, 0.0);
    }
}

#[test]
fn test_token_sequence_capabilities() {
    let mut list = tokens(&["The", "cat", "sat"]);

    let seen: Vec<&str> = list.iter().map(|token| token.as_str()).collect();
    assert_eq!(seen, vec!["The", "cat", "sat"]);

    list.get_mut(0).inner_mut().push('!');
    assert_eq!(list, tokens(&["The!", "cat", "sat"]));

    list.for_each_mut(|token| Token::from(token.inner().to_uppercase()));
    assert_eq!(list, tokens(&["THE!", "CAT", "SAT"]));

    list.retain_mut(|token| token.as_str().len() == 3);
    assert_eq!(list, tokens(&["CAT", "SAT"]));

    let text: String = Token::from("owned").inner();
    assert_eq!(text, "owned");
    assert_eq!(Token::from("ref").inner_ref(), "ref");
    assert!(Token::from("a").same_text(&Token::from(String::from("a"))));
    assert!(!Token::from("a").same_text(&Token::from("A")));
}
