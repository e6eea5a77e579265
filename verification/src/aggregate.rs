//! Ranking documents by a key.
//!
//! A key is an integer that stands for the score of a document: the
//! greater the score, the greater the key. Among documents with the same
//! key the one with the smaller id comes first, in either order.

use vstd::prelude::*;

verus! {

/// Sort direction of a ranked result.
#[derive(Clone, Copy, Debug, PartialEq, Eq, Structural)]
pub enum Order {
    Ascending,
    Descending,
}

/// A document with the key by which it is ranked.
#[derive(Clone, Copy, Debug, PartialEq, Eq, Structural)]
pub struct Ranked {
    pub index: usize,
    pub key: u32,
}

/// Whether `a` may stand before `b` in a result of the order `order`.
pub open spec fn precedes(a: Ranked, b: Ranked, order: Order) -> bool {
    match order {
        Order::Ascending => a.key < b.key || (a.key == b.key && a.index <= b.index),
        Order::Descending => a.key > b.key || (a.key == b.key && a.index <= b.index),
    }
}

/// Whether `items` is in the order `order`.
pub open spec fn sorted(items: Seq<Ranked>, order: Order) -> bool {
    forall|i: int, j: int| 0 <= i < j < items.len() ==> precedes(items[i], items[j], order)
}

/// Whether no document comes twice in `items`.
pub open spec fn ranked_once(items: Seq<Ranked>) -> bool {
    forall|i: int, j: int| 0 <= i < j < items.len() ==> items[i].index != items[j].index
}

impl Ranked {
    pub fn new(index: usize, key: u32) -> (r: Self)
        ensures
            r == (Ranked { index, key }),
    {
        Ranked { index, key }
    }

    /// Whether this document may stand before `other` in a result of the
    /// order `order`.
    pub fn comes_before(&self, other: &Ranked, order: Order) -> (r: bool)
        ensures
            r == precedes(*self, *other, order),
    {
        match order {
            Order::Ascending => self.key < other.key || (self.key == other.key && self.index
                <= other.index),
            Order::Descending => self.key > other.key || (self.key == other.key && self.index
                <= other.index),
        }
    }
}

/// Whether no document of `left` is a document of `right`.
pub open spec fn apart(left: Seq<Ranked>, right: Seq<Ranked>) -> bool {
    forall|p: int, q: int|
        0 <= p < left.len() && 0 <= q < right.len() ==> left[p].index != right[q].index
}

/// Whether `x` is one of the first `n` documents of `from`.
pub open spec fn taken_from(x: Ranked, from: Seq<Ranked>, n: int) -> bool {
    exists|p: int| 0 <= p < n && p < from.len() && from[p] == x
}

/// Whether `out` is the first `i` documents of `a` and the first `j` of `b`
/// in one ordered sequence, with nothing in it that must stand after the
/// next document of `a` or of `b`.
pub open spec fn merged(
    out: Seq<Ranked>,
    a: Seq<Ranked>,
    i: int,
    b: Seq<Ranked>,
    j: int,
    order: Order,
) -> bool {
    &&& 0 <= i <= a.len()
    &&& 0 <= j <= b.len()
    &&& sorted(out, order)
    &&& out.len() == i + j
    &&& out.to_multiset() == a.take(i).to_multiset().add(b.take(j).to_multiset())
    &&& forall|k: int| 0 <= k < out.len() && i < a.len() ==> precedes(#[trigger] out[k], a[i], order)
    &&& forall|k: int| 0 <= k < out.len() && j < b.len() ==> precedes(#[trigger] out[k], b[j], order)
    &&& forall|k: int|
        0 <= k < out.len() ==> taken_from(#[trigger] out[k], a, i) || taken_from(out[k], b, j)
    &&& ranked_once(a) && ranked_once(b) && apart(a, b) ==> ranked_once(out)
}

/// Merging is the same from either side.
proof fn lemma_merged_swap(
    out: Seq<Ranked>,
    a: Seq<Ranked>,
    i: int,
    b: Seq<Ranked>,
    j: int,
    order: Order,
)
    requires
        merged(out, a, i, b, j, order),
    ensures
        merged(out, b, j, a, i, order),
{
    assert(a.take(i).to_multiset().add(b.take(j).to_multiset()) =~= b.take(j).to_multiset().add(
        a.take(i).to_multiset(),
    ));
    if ranked_once(b) && ranked_once(a) && apart(b, a) {
        assert forall|p: int, q: int| 0 <= p < a.len() && 0 <= q < b.len() implies a[p].index
            != b[q].index by {
            assert(b[q].index != a[p].index);
        }
    }
}

/// One step of merging: the next document of `a` may be appended where it
/// may stand before the next document of `b`.
proof fn lemma_merge_step(
    out: Seq<Ranked>,
    a: Seq<Ranked>,
    i: int,
    b: Seq<Ranked>,
    j: int,
    order: Order,
)
    requires
        merged(out, a, i, b, j, order),
        sorted(a, order),
        i < a.len(),
        j < b.len() ==> precedes(a[i], b[j], order),
    ensures
        merged(out.push(a[i]), a, i + 1, b, j, order),
{
    let item = a[i];
    let next = out.push(item);
    assert(a.take(i + 1) == a.take(i).push(item));
    vstd::seq_lib::to_multiset_build(a.take(i), item);
    vstd::seq_lib::to_multiset_build(out, item);
    assert(next.to_multiset() =~= a.take(i + 1).to_multiset().add(b.take(j).to_multiset()));
    assert forall|k: int| 0 <= k < next.len() implies taken_from(#[trigger] next[k], a, i + 1)
        || taken_from(next[k], b, j) by {
        if k < out.len() {
            assert(next[k] == out[k]);
            if taken_from(out[k], a, i) {
                let p = choose|p: int| 0 <= p < i && p < a.len() && a[p] == out[k];
                assert(a[p] == next[k]);
            }
        } else {
            assert(a[i] == next[k]);
        }
    }
    assert forall|k: int| 0 <= k < next.len() && i + 1 < a.len() implies precedes(
        #[trigger] next[k],
        a[i + 1],
        order,
    ) by {
        assert(precedes(a[i], a[i + 1], order));
        if k < out.len() {
            assert(next[k] == out[k]);
        }
    }
    assert forall|k: int| 0 <= k < next.len() && j < b.len() implies precedes(
        #[trigger] next[k],
        b[j],
        order,
    ) by {
        if k < out.len() {
            assert(next[k] == out[k]);
        }
    }
    assert forall|x: int, y: int| 0 <= x < y < next.len() implies precedes(
        next[x],
        next[y],
        order,
    ) by {
        assert(next[x] == out[x]);
        if y < out.len() {
            assert(next[y] == out[y]);
        }
    }
    if ranked_once(a) && ranked_once(b) && apart(a, b) {
        assert forall|x: int, y: int| 0 <= x < y < next.len() implies next[x].index
            != next[y].index by {
            assert(next[x] == out[x]);
            if y < out.len() {
                assert(next[y] == out[y]);
            } else if taken_from(out[x], a, i) {
                let p = choose|p: int| 0 <= p < i && p < a.len() && a[p] == out[x];
                assert(a[p].index != a[i].index);
            } else {
                let q = choose|q: int| 0 <= q < j && q < b.len() && b[q] == out[x];
                assert(a[i].index != b[q].index);
            }
        }
    }
}

/// The documents of two ordered sequences in one ordered sequence.
fn merge(left: &Vec<Ranked>, right: &Vec<Ranked>, order: Order) -> (out: Vec<Ranked>)
    requires
        sorted(left@, order),
        sorted(right@, order),
        left@.len() + right@.len() <= usize::MAX,
    ensures
        sorted(out@, order),
        out@.len() == left@.len() + right@.len(),
        out@.to_multiset() == left@.to_multiset().add(right@.to_multiset()),
        forall|k: int|
            0 <= k < out@.len() ==> left@.contains(#[trigger] out@[k]) || right@.contains(out@[k]),
        ranked_once(left@) && ranked_once(right@) && apart(left@, right@) ==> ranked_once(out@),
{
    let mut out: Vec<Ranked> = Vec::new();
    let mut i: usize = 0;
    let mut j: usize = 0;
    proof {
        assert(out@ =~= left@.take(0) + right@.take(0));
        vstd::seq_lib::lemma_multiset_commutative(left@.take(0), right@.take(0));
    }
    while i < left.len() || j < right.len()
        invariant
            sorted(left@, order),
            sorted(right@, order),
            merged(out@, left@, i as int, right@, j as int, order),
        decreases left.len() - i + right.len() - j,
    {
        let from_left = if j == right.len() {
            true
        } else if i == left.len() {
            false
        } else {
            left[i].comes_before(&right[j], order)
        };
        if from_left {
            proof {
                lemma_merge_step(out@, left@, i as int, right@, j as int, order);
            }
            out.push(left[i]);
            i += 1;
        } else {
            proof {
                lemma_merged_swap(out@, left@, i as int, right@, j as int, order);
                lemma_merge_step(out@, right@, j as int, left@, i as int, order);
                lemma_merged_swap(out@.push(right@[j as int]), right@, j + 1, left@, i as int, order);
            }
            out.push(right[j]);
            j += 1;
        }
    }
    proof {
        assert(left@.take(i as int) == left@);
        assert(right@.take(j as int) == right@);
    }
    out
}

/// The documents of `items` from the place `lo` up to the place `hi`, in the
/// order `order`.
fn sort_range(items: &Vec<Ranked>, lo: usize, hi: usize, order: Order) -> (out: Vec<Ranked>)
    requires
        lo <= hi <= items@.len(),
    ensures
        sorted(out@, order),
        out@.len() == hi - lo,
        out@.to_multiset() == items@.subrange(lo as int, hi as int).to_multiset(),
        forall|k: int|
            0 <= k < out@.len() ==> items@.subrange(lo as int, hi as int).contains(
                #[trigger] out@[k],
            ),
        ranked_once(items@.subrange(lo as int, hi as int)) ==> ranked_once(out@),
    decreases hi - lo,
{
    let ghost range = items@.subrange(lo as int, hi as int);
    if hi - lo == 0 {
        let out: Vec<Ranked> = Vec::new();
        assert(out@ =~= range);
        out
    } else if hi - lo == 1 {
        let mut out: Vec<Ranked> = Vec::new();
        out.push(items[lo]);
        assert(out@ =~= range);
        out
    } else {
        let mid = lo + (hi - lo) / 2;
        let left = sort_range(items, lo, mid, order);
        let right = sort_range(items, mid, hi, order);
        let ghost first = items@.subrange(lo as int, mid as int);
        let ghost second = items@.subrange(mid as int, hi as int);
        proof {
            assert(range =~= first + second);
            vstd::seq_lib::lemma_multiset_commutative(first, second);
            if ranked_once(range) {
                assert forall|a: int, b: int| 0 <= a < b < first.len() implies first[a].index
                    != first[b].index by {
                    assert(first[a] == range[a] && first[b] == range[b]);
                }
                assert forall|a: int, b: int| 0 <= a < b < second.len() implies second[a].index
                    != second[b].index by {
                    assert(second[a] == range[a + first.len()] && second[b] == range[b
                        + first.len()]);
                }
                assert forall|p: int, q: int|
                    0 <= p < left@.len() && 0 <= q < right@.len() implies left@[p].index
                    != right@[q].index by {
                    assert(first.contains(left@[p]));
                    assert(second.contains(right@[q]));
                    let a = choose|a: int| 0 <= a < first.len() && first[a] == left@[p];
                    let b = choose|b: int| 0 <= b < second.len() && second[b] == right@[q];
                    assert(range[a] == left@[p] && range[b + first.len()] == right@[q]);
                }
            }
        }
        let out = merge(&left, &right, order);
        proof {
            assert forall|k: int| 0 <= k < out@.len() implies range.contains(
                #[trigger] out@[k],
            ) by {
                if left@.contains(out@[k]) {
                    let p = choose|p: int| 0 <= p < left@.len() && left@[p] == out@[k];
                    assert(first.contains(left@[p]));
                    let a = choose|a: int| 0 <= a < first.len() && first[a] == out@[k];
                    assert(range[a] == out@[k]);
                } else {
                    let q = choose|q: int| 0 <= q < right@.len() && right@[q] == out@[k];
                    assert(second.contains(right@[q]));
                    let b = choose|b: int| 0 <= b < second.len() && second[b] == out@[k];
                    assert(range[b + first.len()] == out@[k]);
                }
            }
        }
        out
    }
}

/// The documents of `items` in the order `order`: the same documents with
/// the same keys, each as often as in `items`.
pub fn sort_by(items: &Vec<Ranked>, order: Order) -> (out: Vec<Ranked>)
    ensures
        sorted(out@, order),
        out@.to_multiset() == items@.to_multiset(),
        out@.len() == items@.len(),
        forall|x: Ranked| out@.contains(x) <==> items@.contains(x),
        ranked_once(items@) ==> ranked_once(out@),
{
    let out = sort_range(items, 0, items.len(), order);
    proof {
        assert(items@.subrange(0, items@.len() as int) == items@);
        assert forall|x: Ranked| out@.contains(x) <==> items@.contains(x) by {
            vstd::seq_lib::to_multiset_contains(out@, x);
            vstd::seq_lib::to_multiset_contains(items@, x);
        }
    }
    out
}

} // verus!
