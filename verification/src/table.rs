//! The hash tables of the index.
//!
//! The tables are `hashbrown` maps. The verifier does not look inside them:
//! what a table holds has a name, and each operation on a table states what
//! it does to what the table holds, as `hashbrown` documents it.

use crate::posting::IdfEntry;
use crate::util::Counter;
use vstd::prelude::*;

verus! {

/// A `hashbrown` map from a term to its count.
#[verifier::external_body]
pub struct CountTable {
    map: hashbrown::HashMap<String, Counter>,
}

/// A `hashbrown` map from a document id to a number, such as the frequency
/// of a term in the document.
#[verifier::external_body]
pub struct PostingTable {
    map: hashbrown::HashMap<usize, usize>,
}

/// A `hashbrown` map from a term to its posting list.
#[verifier::external_body]
pub struct TermTable {
    map: hashbrown::HashMap<String, IdfEntry>,
}

/// What a count table holds: the count of each term in it.
pub uninterp spec fn counts_of(table: CountTable) -> Map<Seq<char>, usize>;

/// What a posting table holds: the number of each document id in it.
pub uninterp spec fn postings_of(table: PostingTable) -> Map<usize, usize>;

/// What a term table holds: the posting list of each term in it, as the
/// mapping from document id to frequency.
pub uninterp spec fn terms_of(table: TermTable) -> Map<Seq<char>, Map<usize, usize>>;

/// `pairs` lists `map`: each pair is an entry of `map`, no key comes twice,
/// and every key of `map` comes.
pub open spec fn lists(pairs: Seq<(usize, usize)>, map: Map<usize, usize>) -> bool {
    &&& forall|i: int|
        0 <= i < pairs.len() ==> map.contains_key((#[trigger] pairs[i]).0) && map[pairs[i].0]
            == pairs[i].1
    &&& forall|i: int, j: int|
        0 <= i < j < pairs.len() ==> (#[trigger] pairs[i]).0 != (#[trigger] pairs[j]).0
    &&& forall|d: usize|
        map.contains_key(d) ==> exists|i: int| 0 <= i < pairs.len() && (#[trigger] pairs[i]).0 == d
}

/// `map` has finitely many entries, and `n` is their number.
pub open spec fn is_len_of(n: usize, map: Map<usize, usize>) -> bool {
    map.dom().finite() && n == map.len()
}

/// `HashMap::new`: a table that holds nothing.
#[verifier::external_body]
pub(crate) fn count_table_new() -> (out: CountTable)
    ensures
        counts_of(out).dom() == Set::<Seq<char>>::empty(),
{
    CountTable { map: hashbrown::HashMap::new() }
}

/// `HashMap::get`: the count of `key`, if the table holds it.
#[verifier::external_body]
pub(crate) fn count_table_get<'a>(table: &'a CountTable, key: &str) -> (out: Option<&'a Counter>)
    ensures
        (out is Some) == counts_of(*table).contains_key(key@),
        out matches Some(counter) ==> counter.0 == counts_of(*table)[key@],
{
    table.map.get(key)
}

/// `HashMap::insert`: afterwards the table holds `value` for `key`, and for
/// every other key what it held.
#[verifier::external_body]
pub(crate) fn count_table_insert(table: &mut CountTable, key: String, value: Counter)
    ensures
        counts_of(*final(table)) == counts_of(*old(table)).insert(key@, value.0),
{
    table.map.insert(key, value);
}

/// `HashMap::clear`: afterwards the table holds nothing.
#[verifier::external_body]
pub(crate) fn count_table_clear(table: &mut CountTable)
    ensures
        counts_of(*final(table)).dom() == Set::<Seq<char>>::empty(),
{
    table.map.clear();
}

/// `HashMap::new`: a table that holds nothing.
#[verifier::external_body]
pub(crate) fn posting_table_new() -> (out: PostingTable)
    ensures
        postings_of(out).dom() == Set::<usize>::empty(),
{
    PostingTable { map: hashbrown::HashMap::new() }
}

/// `HashMap::try_reserve`: room is asked for, what the table holds stays.
#[verifier::external_body]
pub(crate) fn posting_table_reserve(table: &mut PostingTable, additional: usize)
    ensures
        postings_of(*final(table)) == postings_of(*old(table)),
{
    let _ = table.map.try_reserve(additional);
}

/// `HashMap::len`: the number of entries, which is finite.
#[verifier::external_body]
pub(crate) fn posting_table_len(table: &PostingTable) -> (out: usize)
    ensures
        is_len_of(out, postings_of(*table)),
{
    table.map.len()
}

/// `HashMap::get`: the frequency of `doc`, if the table holds it.
#[verifier::external_body]
pub(crate) fn posting_table_get(table: &PostingTable, doc: usize) -> (out: Option<usize>)
    ensures
        (out is Some) == postings_of(*table).contains_key(doc),
        out is Some ==> out->0 == postings_of(*table)[doc],
{
    table.map.get(&doc).copied()
}

/// `HashMap::insert`: afterwards the table holds `frequency` for `doc`, and
/// for every other document what it held.
#[verifier::external_body]
pub(crate) fn posting_table_insert(table: &mut PostingTable, doc: usize, frequency: usize)
    ensures
        postings_of(*final(table)) == postings_of(*old(table)).insert(doc, frequency),
{
    table.map.insert(doc, frequency);
}

/// `HashMap::iter`: the entries of the table, each once, in the order in
/// which the table happens to hold them.
#[verifier::external_body]
pub(crate) fn posting_table_pairs(table: &PostingTable) -> (out: Vec<(usize, usize)>)
    ensures
        lists(out@, postings_of(*table)),
{
    table.map.iter().map(|(doc, frequency)| (*doc, *frequency)).collect()
}

/// `HashMap::new`: a table that holds nothing.
#[verifier::external_body]
pub(crate) fn term_table_new() -> (out: TermTable)
    ensures
        terms_of(out).dom() == Set::<Seq<char>>::empty(),
{
    TermTable { map: hashbrown::HashMap::new() }
}

/// `HashMap::try_reserve`: room is asked for, what the table holds stays.
#[verifier::external_body]
pub(crate) fn term_table_reserve(table: &mut TermTable, additional: usize)
    ensures
        terms_of(*final(table)) == terms_of(*old(table)),
{
    let _ = table.map.try_reserve(additional);
}

/// `HashMap::get`: the posting list of `term`, if the table holds it.
#[verifier::external_body]
pub(crate) fn term_table_get<'a>(table: &'a TermTable, term: &str) -> (out: Option<&'a IdfEntry>)
    ensures
        (out is Some) == terms_of(*table).contains_key(term@),
        out is Some ==> out->0@ == terms_of(*table)[term@],
{
    table.map.get(term)
}

/// `HashMap::remove`: the posting list of `term` leaves the table and is
/// handed out, if the table held it.
#[verifier::external_body]
pub(crate) fn term_table_remove(table: &mut TermTable, term: &str) -> (out: Option<IdfEntry>)
    ensures
        (out is Some) == terms_of(*old(table)).contains_key(term@),
        out is Some ==> out->0@ == terms_of(*old(table))[term@],
        terms_of(*final(table)) == terms_of(*old(table)).remove(term@),
{
    table.map.remove(term)
}

/// `HashMap::insert`: afterwards the table holds `entry` for `term`, and for
/// every other term what it held.
#[verifier::external_body]
pub(crate) fn term_table_insert(table: &mut TermTable, term: String, entry: IdfEntry)
    ensures
        terms_of(*final(table)) == terms_of(*old(table)).insert(term@, entry@),
{
    table.map.insert(term, entry);
}

} // verus!
