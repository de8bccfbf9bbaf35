//! Generic facts about sequences used by the queries: the first element
//! that satisfies a predicate, reorderings of a sequence, and a verified
//! stable insertion sort of keys.

use vstd::prelude::*;

verus! {

/// Index of the first element of `s` that satisfies `pred`, or -1.
pub open spec fn first_match<V>(s: Seq<V>, pred: spec_fn(V) -> bool) -> int
    decreases s.len(),
{
    if s.len() == 0 {
        -1
    } else {
        let k = first_match(s.drop_last(), pred);
        if k >= 0 {
            k
        } else if pred(s.last()) {
            s.len() - 1
        } else {
            -1
        }
    }
}

/// `first_match` is -1 exactly when no element matches; otherwise it names
/// a matching element with no match before it.
pub proof fn lemma_first_match<V>(s: Seq<V>, pred: spec_fn(V) -> bool)
    ensures
        -1 <= first_match(s, pred) < s.len(),
        first_match(s, pred) == -1 <==> (forall|i: int| 0 <= i < s.len() ==> !pred(#[trigger] s[i])),
        first_match(s, pred) >= 0 ==> pred(s[first_match(s, pred)]),
        first_match(s, pred) >= 0 ==> (forall|i: int|
            0 <= i < first_match(s, pred) ==> !pred(#[trigger] s[i])),
    decreases s.len(),
{
    if s.len() > 0 {
        lemma_first_match(s.drop_last(), pred);
        assert forall|i: int| 0 <= i < s.len() - 1 implies s.drop_last()[i] == s[i] by {}
    }
}

/// A match at `k` with no match before it is the first match.
pub proof fn lemma_first_match_at<V>(s: Seq<V>, pred: spec_fn(V) -> bool, k: int)
    requires
        0 <= k < s.len(),
        pred(s[k]),
        forall|i: int| 0 <= i < k ==> !pred(#[trigger] s[i]),
    ensures
        first_match(s, pred) == k,
{
    lemma_first_match(s, pred);
    let f = first_match(s, pred);
    if f < k {
        assert(!pred(s[f]));
    } else if f > k {
        assert(!pred(s[k]));
    }
}

/// Appending an element keeps an earlier match, and otherwise the new
/// element is the first match exactly when it satisfies `pred`.
pub proof fn lemma_first_match_push<V>(s: Seq<V>, x: V, pred: spec_fn(V) -> bool)
    ensures
        first_match(s.push(x), pred) == (if first_match(s, pred) >= 0 {
            first_match(s, pred)
        } else if pred(x) {
            s.len() as int
        } else {
            -1
        }),
{
    assert(s.push(x).drop_last() =~= s);
}

/// Two sequences whose elements agree on the predicates, position by
/// position, have their first matches at the same place.
pub proof fn lemma_first_match_pointwise<V>(
    s1: Seq<V>,
    p1: spec_fn(V) -> bool,
    s2: Seq<V>,
    p2: spec_fn(V) -> bool,
)
    requires
        s1.len() == s2.len(),
        forall|i: int| 0 <= i < s1.len() ==> p1(#[trigger] s1[i]) == p2(s2[i]),
    ensures
        first_match(s1, p1) == first_match(s2, p2),
    decreases s1.len(),
{
    if s1.len() > 0 {
        assert forall|i: int| 0 <= i < s1.len() - 1 implies p1(#[trigger] s1.drop_last()[i]) == p2(
            s2.drop_last()[i],
        ) by {
            assert(s1.drop_last()[i] == s1[i]);
            assert(s2.drop_last()[i] == s2[i]);
        }
        lemma_first_match_pointwise(s1.drop_last(), p1, s2.drop_last(), p2);
        assert(p1(s1[s1.len() - 1]) == p2(s2[s2.len() - 1]));
    }
}

/// Where an element satisfies `pred` at most once, removing position `idx`
/// moves its first match one place earlier if it came after `idx`, keeps
/// it if it came before, and leaves no match if the match was at `idx`.
pub proof fn lemma_first_match_remove<V>(s: Seq<V>, idx: int, pred: spec_fn(V) -> bool)
    requires
        0 <= idx < s.len(),
        forall|a: int, b: int|
            0 <= a < s.len() && 0 <= b < s.len() && pred(#[trigger] s[a]) && pred(#[trigger] s[b]) ==> a == b,
    ensures
        first_match(s.remove(idx), pred) == (if first_match(s, pred) == -1 || first_match(s, pred) == idx {
            -1
        } else if first_match(s, pred) < idx {
            first_match(s, pred)
        } else {
            first_match(s, pred) - 1
        }),
{
    lemma_first_match(s, pred);
    let f = first_match(s, pred);
    let r = s.remove(idx);
    assert forall|i: int| 0 <= i < r.len() implies #[trigger] r[i] == s[if i < idx { i } else { i + 1 }] by {}
    if f == -1 || f == idx {
        assert forall|i: int| 0 <= i < r.len() implies !pred(#[trigger] r[i]) by {
            let k = if i < idx { i } else { i + 1 };
            assert(r[i] == s[k]);
            if pred(s[k]) && f == idx {
                assert(pred(s[idx]));
            }
        }
        lemma_first_match(r, pred);
    } else {
        let j = if f < idx { f } else { f - 1 };
        assert(r[j] == s[f]);
        assert forall|i: int| 0 <= i < j implies !pred(#[trigger] r[i]) by {
            let k = if i < idx { i } else { i + 1 };
            assert(r[i] == s[k]);
            if pred(s[k]) {
                assert(pred(s[f]));
            }
        }
        lemma_first_match_at(r, pred, j);
    }
}

/// Removing the one element that satisfies `pred` leaves exactly the
/// elements that do not.
pub proof fn lemma_remove_unique_match<V>(s: Seq<V>, idx: int, pred: spec_fn(V) -> bool)
    requires
        0 <= idx < s.len(),
        pred(s[idx]),
        forall|a: int, b: int|
            0 <= a < s.len() && 0 <= b < s.len() && pred(#[trigger] s[a]) && pred(#[trigger] s[b]) ==> a == b,
    ensures
        forall|i: int| 0 <= i < s.remove(idx).len() ==> !pred(#[trigger] s.remove(idx)[i]),
        forall|x: V| s.remove(idx).contains(x) <==> (s.contains(x) && !pred(x)),
{
    let r = s.remove(idx);
    assert forall|i: int| 0 <= i < r.len() implies #[trigger] r[i] == s[if i < idx { i } else { i + 1 }] by {}
    assert forall|i: int| 0 <= i < r.len() implies !pred(#[trigger] r[i]) by {
        let k = if i < idx { i } else { i + 1 };
        assert(r[i] == s[k]);
        if pred(s[k]) {
            assert(pred(s[idx]));
        }
    }
    assert forall|x: V| r.contains(x) <==> (s.contains(x) && !pred(x)) by {
        if r.contains(x) {
            let i = choose|i: int| 0 <= i < r.len() && r[i] == x;
            let k = if i < idx { i } else { i + 1 };
            assert(r[i] == s[k]);
            assert(!pred(r[i]));
        }
        if s.contains(x) && !pred(x) {
            let j = choose|j: int| 0 <= j < s.len() && s[j] == x;
            assert(j != idx);
            let i = if j < idx { j } else { j - 1 };
            assert(r[i] == s[j]);
        }
    }
}

/// `p` lists `n` distinct indices, each below `n`.
pub open spec fn is_index_perm(p: Seq<int>, n: nat) -> bool {
    &&& p.len() == n
    &&& forall|k: int| 0 <= k < n ==> 0 <= #[trigger] p[k] < n
    &&& forall|a: int, b: int| 0 <= a < b < n ==> #[trigger] p[a] != #[trigger] p[b]
}

/// `dst` holds the elements of `src`, each exactly once, in some order.
pub open spec fn is_reordering<V>(src: Seq<V>, dst: Seq<V>) -> bool {
    &&& dst.len() == src.len()
    &&& exists|p: Seq<int>|
        is_index_perm(p, src.len()) && forall|k: int| 0 <= k < dst.len() ==> #[trigger] dst[k] == src[p[k]]
}

/// Distinct indices below `n`, `n` of them, take every value below `n`.
pub proof fn lemma_index_perm_onto(p: Seq<int>, n: nat, j: int)
    requires
        is_index_perm(p, n),
        0 <= j < n,
    ensures
        exists|k: int| 0 <= k < n && p[k] == j,
{
    broadcast use vstd::seq_lib::seq_to_set_is_finite;
    assert(p.no_duplicates()) by {
        assert forall|a: int, b: int| 0 <= a < p.len() && 0 <= b < p.len() && a != b implies p[a] != p[b] by {
            if a < b {
                assert(p[a] != p[b]);
            } else {
                assert(p[b] != p[a]);
            }
        }
    }
    p.unique_seq_to_set();
    vstd::set_lib::lemma_int_range(0, n as int);
    let range = vstd::set_lib::set_int_range(0, n as int);
    assert(p.to_set().subset_of(range)) by {
        assert forall|x: int| p.to_set().contains(x) implies range.contains(x) by {
            let k = choose|k: int| 0 <= k < p.len() && p[k] == x;
        }
    }
    vstd::set_lib::lemma_subset_equality(p.to_set(), range);
    assert(range.contains(j));
    assert(p.to_set().contains(j));
    assert(p.contains(j));
}

/// Every element of `src` appears in any reordering of it.
pub proof fn lemma_reordering_onto<V>(src: Seq<V>, dst: Seq<V>, i: int)
    requires
        is_reordering(src, dst),
        0 <= i < src.len(),
    ensures
        exists|k: int| 0 <= k < dst.len() && dst[k] == src[i],
{
    let p = choose|p: Seq<int>|
        is_index_perm(p, src.len()) && forall|k: int| 0 <= k < dst.len() ==> #[trigger] dst[k] == src[p[k]];
    lemma_index_perm_onto(p, src.len(), i);
    let k = choose|k: int| 0 <= k < src.len() && p[k] == i;
    assert(dst[k] == src[i]);
}

/// Every element of a reordering of `src` comes from `src`.
pub proof fn lemma_reordering_from<V>(src: Seq<V>, dst: Seq<V>, k: int)
    requires
        is_reordering(src, dst),
        0 <= k < dst.len(),
    ensures
        exists|i: int| 0 <= i < src.len() && dst[k] == src[i],
{
    let p = choose|p: Seq<int>|
        is_index_perm(p, src.len()) && forall|k: int| 0 <= k < dst.len() ==> #[trigger] dst[k] == src[p[k]];
    assert(dst[k] == src[p[k]]);
}

/// Every element kept by a filter comes from the filtered sequence.
pub proof fn lemma_filter_from<V>(s: Seq<V>, pred: spec_fn(V) -> bool, k: int)
    requires
        0 <= k < s.filter(pred).len(),
    ensures
        s.contains(s.filter(pred)[k]),
    decreases s.len(),
{
    reveal(Seq::filter);
    if s.len() > 0 {
        let rest = s.drop_last().filter(pred);
        if k < rest.len() {
            assert(s.filter(pred)[k] == rest[k]);
            lemma_filter_from(s.drop_last(), pred, k);
            let j = choose|j: int| 0 <= j < s.drop_last().len() && s.drop_last()[j] == rest[k];
            assert(s[j] == rest[k]);
        } else {
            assert(s.filter(pred)[k] == s[s.len() - 1]);
        }
    }
}

/// An element is kept by a filter exactly when it is in the sequence and
/// satisfies the predicate.
pub proof fn lemma_filter_contains_iff<V>(s: Seq<V>, pred: spec_fn(V) -> bool, x: V)
    ensures
        s.filter(pred).contains(x) <==> (s.contains(x) && pred(x)),
{
    broadcast use vstd::seq_lib::group_filter_ensures;

    if s.filter(pred).contains(x) {
        let k = choose|k: int| 0 <= k < s.filter(pred).len() && s.filter(pred)[k] == x;
        lemma_filter_from(s, pred, k);
        assert(pred(s.filter(pred)[k]));
    }
    if s.contains(x) && pred(x) {
        let i = choose|i: int| 0 <= i < s.len() && s[i] == x;
        assert(s.filter(pred).contains(s[i]));
    }
}

/// A filter of a sequence without repeats has no repeats.
pub proof fn lemma_filter_no_dup<V>(s: Seq<V>, pred: spec_fn(V) -> bool)
    requires
        s.no_duplicates(),
    ensures
        s.filter(pred).no_duplicates(),
    decreases s.len(),
{
    reveal(Seq::filter);
    if s.len() > 0 {
        let d = s.drop_last();
        assert forall|i: int, j: int| 0 <= i < d.len() && 0 <= j < d.len() && i != j implies d[i] != d[j] by {
            assert(d[i] == s[i] && d[j] == s[j]);
        }
        lemma_filter_no_dup(d, pred);
        if pred(s.last()) {
            let f = d.filter(pred);
            lemma_filter_contains_iff(d, pred, s.last());
            assert(!d.contains(s.last())) by {
                if d.contains(s.last()) {
                    let i = choose|i: int| 0 <= i < d.len() && d[i] == s.last();
                    assert(s[i] == s[s.len() - 1]);
                }
            }
            let g = f.push(s.last());
            assert forall|i: int, j: int| 0 <= i < g.len() && 0 <= j < g.len() && i != j implies g[i] != g[j] by {
                if i < f.len() && j < f.len() {
                } else if i < f.len() {
                    assert(f.contains(g[i]));
                } else {
                    assert(f.contains(g[j]));
                }
            }
        }
    }
}

/// A reordering of a sequence without repeats has none either, and holds
/// the same elements.
pub proof fn lemma_reordering_no_dup<V>(src: Seq<V>, dst: Seq<V>)
    requires
        is_reordering(src, dst),
        src.no_duplicates(),
    ensures
        dst.no_duplicates(),
        forall|x: V| dst.contains(x) <==> src.contains(x),
{
    let p = choose|p: Seq<int>|
        is_index_perm(p, src.len()) && forall|k: int| 0 <= k < dst.len() ==> #[trigger] dst[k] == src[p[k]];
    assert forall|a: int, b: int| 0 <= a < dst.len() && 0 <= b < dst.len() && a != b implies dst[a] != dst[b] by {
        assert(dst[a] == src[p[a]] && dst[b] == src[p[b]]);
        if a < b {
            assert(p[a] != p[b]);
        } else {
            assert(p[b] != p[a]);
        }
    }
    assert forall|x: V| dst.contains(x) <==> src.contains(x) by {
        if dst.contains(x) {
            let k = choose|k: int| 0 <= k < dst.len() && dst[k] == x;
            lemma_reordering_from(src, dst, k);
        }
        if src.contains(x) {
            let i = choose|i: int| 0 <= i < src.len() && src[i] == x;
            lemma_reordering_onto(src, dst, i);
        }
    }
}

/// Two sequences without repeats that hold the same elements are
/// reorderings of each other.
pub proof fn lemma_same_elements_reordering<V>(src: Seq<V>, dst: Seq<V>)
    requires
        src.no_duplicates(),
        dst.no_duplicates(),
        forall|x: V| src.contains(x) <==> dst.contains(x),
    ensures
        is_reordering(src, dst),
{
    broadcast use vstd::seq_lib::seq_to_set_is_finite;

    assert(src.to_set() =~= dst.to_set()) by {
        assert forall|x: V| src.to_set().contains(x) <==> dst.to_set().contains(x) by {
            assert(src.contains(x) <==> dst.contains(x));
        }
    }
    src.unique_seq_to_set();
    dst.unique_seq_to_set();
    let n = src.len();
    let p = Seq::new(n, |k: int| choose|i: int| 0 <= i < src.len() && src[i] == dst[k]);
    assert forall|k: int| 0 <= k < n implies 0 <= #[trigger] p[k] < n && dst[k] == src[p[k]] by {
        assert(src.contains(dst[k]));
    }
    assert forall|a: int, b: int| 0 <= a < b < n implies #[trigger] p[a] != #[trigger] p[b] by {
        assert(dst[a] == src[p[a]] && dst[b] == src[p[b]]);
        assert(dst[a] != dst[b]);
    }
    assert(is_index_perm(p, n));
    assert forall|k: int| 0 <= k < dst.len() implies #[trigger] dst[k] == src[p[k]] by {}
}

/// `x` may come before `y` in a list sorted ascending (or descending).
pub open spec fn in_order(x: i64, y: i64, descending: bool) -> bool {
    if descending {
        x >= y
    } else {
        x <= y
    }
}

/// The keys, read through `order`, are sorted.
pub open spec fn sorted_by(keys: Seq<i64>, order: Seq<usize>, descending: bool) -> bool {
    forall|a: int, b: int|
        0 <= a < b < order.len() ==> in_order(
            keys[#[trigger] order[a] as int],
            keys[#[trigger] order[b] as int],
            descending,
        )
}

/// The indices in `order`, as mathematical integers.
pub open spec fn as_ints(order: Seq<usize>) -> Seq<int> {
    order.map_values(|i: usize| i as int)
}

/// Returns the indices of `keys` arranged so that the keys come out sorted
/// (ascending, or descending when `descending`); equal keys keep their
/// original relative order.
pub fn sort_order(keys: &Vec<i64>, descending: bool) -> (order: Vec<usize>)
    ensures
        is_index_perm(as_ints(order@), keys@.len()),
        sorted_by(keys@, order@, descending),
        forall|a: int, b: int|
            0 <= a < b < order@.len() && keys@[order@[a] as int] == keys@[order@[b] as int]
                ==> order@[a] < order@[b],
{
    let n = keys.len();
    let mut order: Vec<usize> = Vec::new();
    let mut i: usize = 0;
    while i < n
        invariant
            i <= n,
            n == keys@.len(),
            order@.len() == i,
            forall|k: int| 0 <= k < i ==> (#[trigger] order@[k]) < i,
            forall|a: int, b: int| 0 <= a < b < i ==> #[trigger] order@[a] != #[trigger] order@[b],
            sorted_by(keys@, order@, descending),
            forall|a: int, b: int|
                0 <= a < b < order@.len() && keys@[order@[a] as int] == keys@[order@[b] as int]
                    ==> order@[a] < order@[b],
        decreases n - i,
    {
        let key = keys[i];
        let mut pos: usize = 0;
        while pos < i && in_order_exec(keys[order[pos]], key, descending)
            invariant
                pos <= i,
                i < n,
                n == keys@.len(),
                order@.len() == i,
                key == keys@[i as int],
                forall|k: int| 0 <= k < i ==> (#[trigger] order@[k]) < i,
                forall|k: int| 0 <= k < pos ==> in_order(keys@[#[trigger] order@[k] as int], key, descending),
            decreases i - pos,
        {
            pos = pos + 1;
        }
        let ghost old_order = order@;
        order.insert(pos, i);
        proof {
            assert(order@ == old_order.insert(pos as int, i));
            // every element after the insertion point is strictly out of order with the new key
            assert forall|k: int| pos <= k < i implies !in_order(keys@[#[trigger] old_order[k] as int], key, descending) by {
                if pos < i {
                    assert(!in_order(keys@[old_order[pos as int] as int], key, descending));
                    if k > pos {
                        assert(in_order(keys@[old_order[pos as int] as int], keys@[old_order[k] as int], descending));
                    }
                }
            }
            assert forall|a: int, b: int| 0 <= a < b < order@.len() implies
                in_order(keys@[#[trigger] order@[a] as int], keys@[#[trigger] order@[b] as int], descending) by {
                if b < pos {
                } else if b == pos {
                } else if a < pos {
                    assert(order@[b] == old_order[b - 1]);
                } else if a == pos {
                    assert(order@[b] == old_order[b - 1]);
                    assert(!in_order(keys@[old_order[b - 1] as int], key, descending));
                } else {
                    assert(order@[a] == old_order[a - 1]);
                    assert(order@[b] == old_order[b - 1]);
                }
            }
            assert forall|a: int, b: int|
                0 <= a < b < order@.len() && keys@[order@[a] as int] == keys@[order@[b] as int]
                    implies order@[a] < order@[b] by {
                if b < pos {
                } else if b == pos {
                    assert(order@[a] == old_order[a]);
                } else if a < pos {
                    assert(order@[b] == old_order[b - 1]);
                } else if a == pos {
                    assert(order@[b] == old_order[b - 1]);
                    assert(!in_order(keys@[old_order[b - 1] as int], key, descending));
                } else {
                    assert(order@[a] == old_order[a - 1]);
                    assert(order@[b] == old_order[b - 1]);
                }
            }
            assert forall|a: int, b: int| 0 <= a < b < i + 1 implies #[trigger] order@[a] != #[trigger] order@[b] by {
                if b < pos {
                } else if b == pos {
                    assert(order@[a] == old_order[a]);
                } else if a < pos {
                    assert(order@[b] == old_order[b - 1]);
                } else if a == pos {
                    assert(order@[b] == old_order[b - 1]);
                } else {
                    assert(order@[a] == old_order[a - 1]);
                    assert(order@[b] == old_order[b - 1]);
                }
            }
            assert forall|k: int| 0 <= k < i + 1 implies (#[trigger] order@[k]) < i + 1 by {
                if k < pos {
                } else if k > pos {
                    assert(order@[k] == old_order[k - 1]);
                }
            }
        }
        i = i + 1;
    }
    proof {
        assert forall|k: int| 0 <= k < n implies 0 <= #[trigger] as_ints(order@)[k] < n by {}
        assert forall|a: int, b: int| 0 <= a < b < n implies #[trigger] as_ints(order@)[a] != #[trigger] as_ints(order@)[b] by {}
    }
    order
}

/// Executable form of `in_order`.
fn in_order_exec(x: i64, y: i64, descending: bool) -> (r: bool)
    ensures
        r == in_order(x, y, descending),
{
    if descending {
        x >= y
    } else {
        x <= y
    }
}

} // verus!
