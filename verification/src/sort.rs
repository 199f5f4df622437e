//! Stable sorting by byte-string keys.

use vstd::prelude::*;

use crate::seqs;
use crate::seqs::bytes_before;

verus! {

/// Position `a` goes before position `b`: its key is smaller, or the keys are equal and
/// it stands first.
pub open spec fn precedes(keys: Seq<Seq<u8>>, a: int, b: int) -> bool {
    seqs::bytes_less(keys[a], keys[b]) || (keys[a] == keys[b] && a < b)
}

/// `order` lists the positions from `lo` to `hi`, each of them once and in stable key order.
pub open spec fn orders_range(keys: Seq<Seq<u8>>, order: Seq<usize>, lo: int, hi: int) -> bool {
    &&& order.len() == hi - lo
    &&& forall|i: int| 0 <= i < order.len() ==> lo <= #[trigger] order[i] < hi
    &&& forall|k: usize| lo <= k < hi ==> #[trigger] order.contains(k)
    &&& forall|i: int, j: int|
        0 <= i < j < order.len() ==> precedes(
            keys,
            #[trigger] order[i] as int,
            #[trigger] order[j] as int,
        )
}

/// `order` lists every position of `keys` in stable key order.
pub open spec fn is_stable_order(keys: Seq<Seq<u8>>, order: Seq<usize>) -> bool {
    orders_range(keys, order, 0, keys.len() as int)
}

proof fn lemma_precedes_transitive(keys: Seq<Seq<u8>>, a: int, b: int, c: int)
    requires
        precedes(keys, a, b),
        precedes(keys, b, c),
    ensures
        precedes(keys, a, c),
{
    if seqs::bytes_less(keys[a], keys[b]) && seqs::bytes_less(keys[b], keys[c]) {
        seqs::lemma_bytes_less_transitive(keys[a], keys[b], keys[c]);
    }
}

proof fn lemma_precedes_total(keys: Seq<Seq<u8>>, a: int, b: int)
    requires
        a != b,
    ensures
        precedes(keys, a, b) != precedes(keys, b, a),
{
    if keys[a] == keys[b] {
        seqs::lemma_bytes_less_irreflexive(keys[a]);
    } else {
        seqs::lemma_bytes_less_total(keys[a], keys[b]);
        if seqs::bytes_less(keys[a], keys[b]) && seqs::bytes_less(keys[b], keys[a]) {
            seqs::lemma_bytes_less_transitive(keys[a], keys[b], keys[a]);
            seqs::lemma_bytes_less_irreflexive(keys[a]);
        }
    }
}

/// Every list of keys has a stable order.
pub proof fn lemma_stable_order_exists(keys: Seq<Seq<u8>>)
    requires
        keys.len() <= usize::MAX,
    ensures
        exists|order: Seq<usize>| is_stable_order(keys, order),
{
    lemma_prefix_order_exists(keys, keys.len() as int);
    let order = choose|order: Seq<usize>| orders_range(keys, order, 0, keys.len() as int);
    assert(is_stable_order(keys, order));
}

proof fn lemma_prefix_order_exists(keys: Seq<Seq<u8>>, count: int)
    requires
        0 <= count <= keys.len() <= usize::MAX,
    ensures
        exists|order: Seq<usize>| orders_range(keys, order, 0, count),
    decreases count,
{
    if count == 0 {
        assert(orders_range(keys, Seq::<usize>::empty(), 0, 0));
    } else {
        let fewer = count - 1;
        lemma_prefix_order_exists(keys, fewer);
        let order = choose|order: Seq<usize>| orders_range(keys, order, 0, fewer);
        let last = (count - 1) as usize;
        let place = lemma_insertion_place(keys, order, last, order.len() as int);
        let longer = order.insert(place, last);
        assert forall|i: int, j: int| 0 <= i < j < longer.len() implies precedes(
            keys,
            #[trigger] longer[i] as int,
            #[trigger] longer[j] as int,
        ) by {
            let ii = if i < place { i } else { i - 1 };
            let jj = if j < place { j } else { j - 1 };
            if i != place && j != place {
                assert(precedes(keys, order[ii] as int, order[jj] as int));
            }
        }
        assert forall|k: usize| 0 <= k < count implies #[trigger] longer.contains(k) by {
            if k == last {
                assert(longer[place] == last);
            } else {
                assert(order.contains(k));
                let p = choose|p: int| 0 <= p < order.len() && order[p] == k;
                if p < place {
                    assert(longer[p] == k);
                } else {
                    assert(longer[p + 1] == k);
                }
            }
        }
        assert forall|i: int| 0 <= i < longer.len() implies 0 <= #[trigger] longer[i] < count by {
            if i < place {
                assert(longer[i] == order[i]);
            } else if i > place {
                assert(longer[i] == order[i - 1]);
            }
        }
        assert(orders_range(keys, longer, 0, count));
    }
}

/// Where a position belongs among ordered ones, of which the last ones from `end` on go behind it.
proof fn lemma_insertion_place(keys: Seq<Seq<u8>>, order: Seq<usize>, last: usize, end: int) -> (
    place: int)
    requires
        orders_range(keys, order, 0, last as int),
        0 <= end <= order.len(),
        forall|k: int|
            end <= k < order.len() ==> precedes(keys, last as int, #[trigger] order[k] as int),
    ensures
        0 <= place <= order.len(),
        forall|k: int|
            0 <= k < place ==> precedes(keys, #[trigger] order[k] as int, last as int),
        forall|k: int|
            place <= k < order.len() ==> precedes(keys, last as int, #[trigger] order[k] as int),
    decreases end,
{
    if end == 0 {
        0
    } else {
        let before = order[end - 1] as int;
        lemma_precedes_total(keys, before, last as int);
        if precedes(keys, before, last as int) {
            assert forall|k: int| 0 <= k < end implies precedes(
                keys,
                #[trigger] order[k] as int,
                last as int,
            ) by {
                if k < end - 1 {
                    assert(precedes(keys, order[k] as int, order[end - 1] as int));
                    lemma_precedes_transitive(keys, order[k] as int, before, last as int);
                }
            }
            end
        } else {
            lemma_insertion_place(keys, order, last, end - 1)
        }
    }
}

/// There is only one stable order of a list of keys.
pub proof fn lemma_stable_order_unique(keys: Seq<Seq<u8>>, left: Seq<usize>, right: Seq<usize>)
    requires
        is_stable_order(keys, left),
        is_stable_order(keys, right),
    ensures
        left == right,
{
    assert forall|i: int| 0 <= i < left.len() implies left[i] == right[i] by {
        lemma_stable_order_agrees(keys, left, right, i);
    }
    assert(left =~= right);
}

proof fn lemma_stable_order_agrees(
    keys: Seq<Seq<u8>>,
    left: Seq<usize>,
    right: Seq<usize>,
    i: int,
)
    requires
        is_stable_order(keys, left),
        is_stable_order(keys, right),
        0 <= i < left.len(),
    ensures
        left[i] == right[i],
    decreases i,
{
    assert forall|k: int| 0 <= k < i implies left[k] == right[k] by {
        lemma_stable_order_agrees(keys, left, right, k);
    }
    if left[i] != right[i] {
        let a = left[i];
        let b = right[i];
        assert(right.contains(a));
        assert(left.contains(b));
        let p = choose|p: int| 0 <= p < right.len() && right[p] == a;
        let q = choose|q: int| 0 <= q < left.len() && left[q] == b;
        if p < i {
            assert(left[p] == right[p]);
            assert(precedes(keys, left[p] as int, left[i] as int));
            lemma_precedes_irreflexive(keys, a as int);
        }
        if q < i {
            assert(left[q] == right[q]);
            assert(precedes(keys, right[q] as int, right[i] as int));
            lemma_precedes_irreflexive(keys, b as int);
        }
        assert(precedes(keys, right[i] as int, right[p] as int));
        assert(precedes(keys, left[i] as int, left[q] as int));
        lemma_precedes_total(keys, a as int, b as int);
    }
}

proof fn lemma_precedes_irreflexive(keys: Seq<Seq<u8>>, a: int)
    ensures
        !precedes(keys, a, a),
{
    seqs::lemma_bytes_less_irreflexive(keys[a]);
}

fn merge(
    keys: &Vec<Vec<u8>>,
    a: &Vec<usize>,
    b: &Vec<usize>,
    lo: usize,
    mid: usize,
    hi: usize,
) -> (out: Vec<usize>)
    requires
        lo <= mid <= hi <= keys.len(),
        orders_range(seqs::views(keys@), a@, lo as int, mid as int),
        orders_range(seqs::views(keys@), b@, mid as int, hi as int),
    ensures
        orders_range(seqs::views(keys@), out@, lo as int, hi as int),
{
    let ghost all = seqs::views(keys@);
    let mut out: Vec<usize> = Vec::new();
    let mut i: usize = 0;
    let mut j: usize = 0;
    while i < a.len() || j < b.len()
        invariant
            all == seqs::views(keys@),
            lo <= mid <= hi <= keys.len(),
            orders_range(all, a@, lo as int, mid as int),
            orders_range(all, b@, mid as int, hi as int),
            i <= a.len(),
            j <= b.len(),
            out.len() == i + j,
            forall|k: int| 0 <= k < out.len() ==> lo <= #[trigger] out@[k] < hi,
            forall|k: int| 0 <= k < i ==> out@.contains(#[trigger] a@[k]),
            forall|k: int| 0 <= k < j ==> out@.contains(#[trigger] b@[k]),
            forall|k: int, l: int|
                0 <= k < l < out.len() ==> precedes(
                    all,
                    #[trigger] out@[k] as int,
                    #[trigger] out@[l] as int,
                ),
            forall|k: int, l: int|
                0 <= k < out.len() && i <= l < a.len() ==> precedes(
                    all,
                    #[trigger] out@[k] as int,
                    #[trigger] a@[l] as int,
                ),
            forall|k: int, l: int|
                0 <= k < out.len() && j <= l < b.len() ==> precedes(
                    all,
                    #[trigger] out@[k] as int,
                    #[trigger] b@[l] as int,
                ),
        decreases a.len() - i + (b.len() - j),
    {
        let from_a = if i == a.len() {
            false
        } else if j == b.len() {
            true
        } else {
            let after = bytes_before(keys[b[j]].as_slice(), keys[a[i]].as_slice());
            proof {
                let x = a@[i as int] as int;
                let y = b@[j as int] as int;
                assert(lo <= a@[i as int] < mid);
                assert(mid <= b@[j as int] < hi);
                assert(all[x] == keys@[x]@);
                assert(all[y] == keys@[y]@);
                lemma_precedes_total(all, x, y);
                if !after && all[x] != all[y] {
                    seqs::lemma_bytes_less_total(all[x], all[y]);
                }
                if after {
                    assert(precedes(all, y, x));
                }
                assert(after == precedes(all, y, x));
            }
            !after
        };
        let ghost before = out@;
        if from_a {
            let next: usize = a[i];
            proof {
                assert forall|l: int| j <= l < b.len() implies precedes(
                    all,
                    next as int,
                    #[trigger] b@[l] as int,
                ) by {
                    if l > j {
                        assert(precedes(all, b@[j as int] as int, b@[l] as int));
                        lemma_precedes_transitive(
                            all,
                            next as int,
                            b@[j as int] as int,
                            b@[l] as int,
                        );
                    }
                }
            }
            out.push(next);
            i = i + 1;
        } else {
            let next: usize = b[j];
            proof {
                assert forall|l: int| i <= l < a.len() implies precedes(
                    all,
                    next as int,
                    #[trigger] a@[l] as int,
                ) by {
                    if l > i {
                        assert(precedes(all, a@[i as int] as int, a@[l] as int));
                        lemma_precedes_transitive(
                            all,
                            next as int,
                            a@[i as int] as int,
                            a@[l] as int,
                        );
                    }
                }
            }
            out.push(next);
            j = j + 1;
        }
        proof {
            assert forall|k: int| 0 <= k < i implies out@.contains(#[trigger] a@[k]) by {
                if k < a.len() && before.contains(a@[k]) {
                    let p = choose|p: int| 0 <= p < before.len() && before[p] == a@[k];
                    assert(out@[p] == a@[k]);
                } else {
                    assert(out@[before.len() as int] == a@[k]);
                }
            }
            assert forall|k: int| 0 <= k < j implies out@.contains(#[trigger] b@[k]) by {
                if before.contains(b@[k]) {
                    let p = choose|p: int| 0 <= p < before.len() && before[p] == b@[k];
                    assert(out@[p] == b@[k]);
                } else {
                    assert(out@[before.len() as int] == b@[k]);
                }
            }
        }
    }
    proof {
        assert forall|k: usize| lo <= k < hi implies #[trigger] out@.contains(k) by {
            if k < mid {
                assert(a@.contains(k));
                let p = choose|p: int| 0 <= p < a@.len() && a@[p] == k;
                assert(out@.contains(a@[p]));
            } else {
                assert(b@.contains(k));
                let p = choose|p: int| 0 <= p < b@.len() && b@[p] == k;
                assert(out@.contains(b@[p]));
            }
        }
    }
    out
}

fn sort_range(keys: &Vec<Vec<u8>>, lo: usize, hi: usize) -> (order: Vec<usize>)
    requires
        lo <= hi <= keys.len(),
    ensures
        orders_range(seqs::views(keys@), order@, lo as int, hi as int),
    decreases hi - lo,
{
    if hi - lo == 0 {
        return Vec::new();
    }
    if hi - lo == 1 {
        let mut order: Vec<usize> = Vec::new();
        order.push(lo);
        assert(order@[0] == lo);
        return order;
    }
    let mid: usize = lo + (hi - lo) / 2;
    let a = sort_range(keys, lo, mid);
    let b = sort_range(keys, mid, hi);
    merge(keys, &a, &b, lo, mid, hi)
}

/// Returns the positions of `keys` in stable key order.
pub fn stable_order(keys: &Vec<Vec<u8>>) -> (order: Vec<usize>)
    ensures
        is_stable_order(seqs::views(keys@), order@),
{
    assert(seqs::views(keys@).len() == keys@.len());
    sort_range(keys, 0, keys.len())
}

} // verus!
