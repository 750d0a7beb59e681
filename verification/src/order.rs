//! The orders in which lists are walked: signatures of the library by id,
//! and annotation indices for removal one by one.
use vstd::prelude::*;

verus! {

broadcast use vstd::seq_lib::group_to_multiset_ensures;

/// Each element is at least as large as every element after it.
pub open spec fn descending(s: Seq<usize>) -> bool {
    forall|i: int, j: int| 0 <= i < j < s.len() ==> s[i] >= s[j]
}

/// The indices in `indices`, largest first: removing entries of a list at
/// these indices one after another never shifts an entry still to be
/// removed.
pub fn deletion_order(indices: Vec<usize>) -> (r: Vec<usize>)
    ensures
        descending(r@),
        r@.to_multiset() == indices@.to_multiset(),
{
    let mut r: Vec<usize> = Vec::new();
    let mut k: usize = 0;
    while k < indices.len()
        invariant
            k <= indices.len(),
            descending(r@),
            r@.to_multiset() == indices@.subrange(0, k as int).to_multiset(),
        decreases indices.len() - k,
    {
        let x = indices[k];
        let mut p: usize = 0;
        while p < r.len() && r[p] >= x
            invariant
                p <= r.len(),
                descending(r@),
                forall|j: int| 0 <= j < p ==> r@[j] >= x,
            decreases r.len() - p,
        {
            p = p + 1;
        }
        let ghost old_r = r@;
        r.insert(p, x);
        proof {
            assert(r@ == old_r.insert(p as int, x));
            assert forall|i: int, j: int| 0 <= i < j < r@.len() implies r@[i] >= r@[j] by {
                if p < old_r.len() {
                    assert(old_r[p as int] < x);
                }
                if j < p {
                } else if j == p {
                } else if i < p {
                    assert(old_r[j - 1] <= old_r[p as int]);
                } else if i == p {
                    assert(old_r[j - 1] <= old_r[p as int]);
                } else {
                }
            }
            assert(indices@.subrange(0, k + 1) == indices@.subrange(0, k as int).push(x));
            vstd::seq_lib::to_multiset_insert(old_r, p as int, x);
        }
        k = k + 1;
    }
    proof {
        assert(indices@.subrange(0, indices@.len() as int) == indices@);
    }
    r
}

/// In a list whose entries carry the keys `keys`, entry `a` comes before
/// entry `b`: its key is smaller, or the keys are equal and `a` came first.
pub open spec fn key_before(keys: Seq<u64>, a: int, b: int) -> bool {
    keys[a] < keys[b] || (keys[a] == keys[b] && a < b)
}

/// `order` lists the positions of all entries of a list with keys `keys`,
/// by ascending key, entries with equal keys in the order they came.
pub open spec fn is_stable_key_order(keys: Seq<u64>, order: Seq<usize>) -> bool {
    &&& order.len() == keys.len()
    &&& forall|i: int| 0 <= i < order.len() ==> #[trigger] order[i] < keys.len()
    &&& forall|i: int, j: int| 0 <= i < j < order.len() ==> key_before(keys, order[i] as int, order[j] as int)
}

/// The positions of the entries with ids `ids`, by ascending id, entries
/// with equal ids in the order they came: the order in which the library
/// lists its signatures, the same on every run.
pub fn order_by_id(ids: &Vec<u64>) -> (order: Vec<usize>)
    ensures
        is_stable_key_order(ids@, order@),
{
    let ghost keys = ids@;
    let mut r: Vec<usize> = Vec::new();
    let mut k: usize = 0;
    while k < ids.len()
        invariant
            keys == ids@,
            k <= ids.len(),
            r@.len() == k,
            forall|i: int| 0 <= i < r@.len() ==> #[trigger] r@[i] < k,
            forall|i: int, j: int| 0 <= i < j < r@.len() ==> key_before(keys, r@[i] as int, r@[j] as int),
        decreases ids.len() - k,
    {
        let x = ids[k];
        let mut p: usize = 0;
        while p < r.len() && ids[r[p]] <= x
            invariant
                keys == ids@,
                k < ids.len(),
                x == keys[k as int],
                p <= r.len(),
                forall|i: int| 0 <= i < r@.len() ==> #[trigger] r@[i] < k,
                forall|j: int| 0 <= j < p ==> keys[#[trigger] r@[j] as int] <= x,
            decreases r.len() - p,
        {
            p = p + 1;
        }
        let ghost old_r = r@;
        r.insert(p, k);
        proof {
            assert(r@ == old_r.insert(p as int, k));
            assert forall|i: int| 0 <= i < r@.len() implies #[trigger] r@[i] < k + 1 by {
                if i < p {
                    assert(r@[i] == old_r[i]);
                } else if i > p {
                    assert(r@[i] == old_r[i - 1]);
                }
            }
            assert forall|i: int, j: int| 0 <= i < j < r@.len() implies key_before(
                keys,
                r@[i] as int,
                r@[j] as int,
            ) by {
                if p < old_r.len() {
                    assert(keys[old_r[p as int] as int] > x);
                }
                if j < p {
                    assert(r@[i] == old_r[i] && r@[j] == old_r[j]);
                } else if j == p {
                    assert(r@[i] == old_r[i]);
                    assert(keys[old_r[i] as int] <= x);
                } else if i < p {
                    assert(r@[i] == old_r[i] && r@[j] == old_r[j - 1]);
                } else if i == p {
                    assert(r@[j] == old_r[j - 1]);
                    assert(key_before(keys, old_r[p as int] as int, old_r[j - 1] as int) || j - 1 == p);
                } else {
                    assert(r@[i] == old_r[i - 1] && r@[j] == old_r[j - 1]);
                }
            }
        }
        k = k + 1;
    }
    r
}

/// A stable key order lists every position of the list.
proof fn lemma_key_order_covers(keys: Seq<u64>, order: Seq<usize>, q: usize)
    requires
        keys.len() <= usize::MAX,
        is_stable_key_order(keys, order),
        q < keys.len(),
    ensures
        order.contains(q),
{
    broadcast use vstd::set::group_set_axioms;
    broadcast use vstd::seq_lib::seq_to_set_is_finite;
    broadcast use vstd::set_lib::range_set_properties;

    let n = keys.len() as usize;
    assert(order.no_duplicates()) by {
        assert forall|i: int, j: int| 0 <= i < order.len() && 0 <= j < order.len() && i != j implies order[i]
            != order[j] by {
            if i < j {
                assert(key_before(keys, order[i] as int, order[j] as int));
            } else {
                assert(key_before(keys, order[j] as int, order[i] as int));
            }
        }
    }
    order.unique_seq_to_set();
    let all = Set::<usize>::range(0, n);
    assert(order.to_set().subset_of(all)) by {
        assert forall|v: usize| order.to_set().contains(v) implies all.contains(v) by {
            let i = choose|i: int| 0 <= i < order.len() && order[i] == v;
            assert(order[i] < keys.len());
        }
    }
    vstd::set_lib::lemma_subset_equality(order.to_set(), all);
    assert(all.contains(q));
    assert(order.to_set().contains(q));
}

/// Two stable key orders of the same keys agree on their first `i` entries.
proof fn lemma_key_orders_agree_below(keys: Seq<u64>, a: Seq<usize>, b: Seq<usize>, i: int)
    requires
        keys.len() <= usize::MAX,
        is_stable_key_order(keys, a),
        is_stable_key_order(keys, b),
        0 <= i <= a.len(),
    ensures
        forall|j: int| 0 <= j < i ==> a[j] == b[j],
    decreases i,
{
    if i > 0 {
        let k = i - 1;
        lemma_key_orders_agree_below(keys, a, b, k);
        if a[k] != b[k] {
            lemma_key_order_covers(keys, b, a[k]);
            lemma_key_order_covers(keys, a, b[k]);
            let jb = choose|j: int| 0 <= j < b.len() && b[j] == a[k];
            let ja = choose|j: int| 0 <= j < a.len() && a[j] == b[k];
            if jb < k {
                assert(a[jb] == a[k]);
                assert(key_before(keys, a[jb] as int, a[k] as int));
            }
            if ja < k {
                assert(b[ja] == b[k]);
                assert(key_before(keys, b[ja] as int, b[k] as int));
            }
            assert(key_before(keys, b[k] as int, b[jb] as int));
            assert(key_before(keys, a[k] as int, a[ja] as int));
        }
    }
}

/// The stable key order of a list is determined by its keys: ordering the
/// same ids twice gives the same order, on every run.
pub proof fn lemma_stable_key_order_unique(keys: Seq<u64>, a: Seq<usize>, b: Seq<usize>)
    requires
        keys.len() <= usize::MAX,
        is_stable_key_order(keys, a),
        is_stable_key_order(keys, b),
    ensures
        a == b,
{
    lemma_key_orders_agree_below(keys, a, b, a.len() as int);
    assert(a =~= b);
}

/// The removal order is determined by the indices: any two descending
/// arrangements of the same indices are the same sequence.
pub proof fn lemma_deletion_order_unique(a: Seq<usize>, b: Seq<usize>)
    requires
        descending(a),
        descending(b),
        a.to_multiset() == b.to_multiset(),
    ensures
        a == b,
{
    let geq = |x: usize, y: usize| x >= y;
    assert(vstd::relations::sorted_by(a, geq));
    assert(vstd::relations::sorted_by(b, geq));
    assert(vstd::relations::total_ordering(geq));
    vstd::seq_lib::lemma_sorted_unique(a, b, geq);
}

} // verus!
