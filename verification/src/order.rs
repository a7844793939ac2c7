//! Stable ordering of items by an integer key, as `slice::sort_by_key` and
//! `slice::sort_by` order them: a permutation of the positions, ordered by
//! key, with equal keys kept in their original order.
use vstd::prelude::*;

verus! {

/// `a` may come before `b` in ascending (or, with `desc`, descending) order.
pub open spec fn in_order(a: u64, b: u64, desc: bool) -> bool {
    if desc {
        a >= b
    } else {
        a <= b
    }
}

/// `order` lists the positions `0..keys.len()` once each, sorted by key, and
/// positions with equal keys appear in increasing order (a stable sort).
pub open spec fn is_stable_order(order: Seq<usize>, keys: Seq<u64>, desc: bool) -> bool {
    &&& order.len() == keys.len()
    &&& forall|i: int| 0 <= i < order.len() ==> #[trigger] order[i] < keys.len()
    &&& forall|i: int, j: int| 0 <= i < j < order.len() ==> order[i] != order[j]
    &&& forall|i: int, j: int|
        0 <= i < j < order.len() ==> in_order(keys[order[i] as int], keys[order[j] as int], desc)
    &&& forall|i: int, j: int|
        0 <= i < j < order.len() && keys[order[i] as int] == keys[order[j] as int] ==> order[i]
            < order[j]
}

/// The positions of `keys` in stable sorted order (ascending, or descending
/// with `desc`).
pub fn stable_order(keys: &Vec<u64>, desc: bool) -> (order: Vec<usize>)
    ensures
        is_stable_order(order@, keys@, desc),
{
    let mut order: Vec<usize> = Vec::new();
    let mut k: usize = 0;
    while k < keys.len()
        invariant
            0 <= k <= keys.len(),
            is_stable_order(order@, keys@.take(k as int), desc),
        decreases keys.len() - k,
    {
        let ghost pre = keys@.take(k as int);
        let ghost post = keys@.take(k + 1);
        assert forall|i: int| 0 <= i < order.len() implies pre[order@[i] as int] == post[order@[i] as int]
            && pre[order@[i] as int] == keys@[order@[i] as int] by {
            assert(order@[i] < k);
        }
        let key = keys[k];
        let mut p: usize = 0;
        while p < order.len() && in_order_exec(keys[order[p]], key, desc)
            invariant
                0 <= p <= order.len(),
                k < keys.len(),
                key == keys@[k as int],
                is_stable_order(order@, pre, desc),
                pre == keys@.take(k as int),
                forall|i: int| 0 <= i < order.len() ==> #[trigger] order@[i] < k,
                forall|i: int| 0 <= i < p ==> in_order(keys@[#[trigger] order@[i] as int], key, desc),
            decreases order.len() - p,
        {
            proof {
                assert(order@[p as int] < k);
            }
            p = p + 1;
        }
        let ghost old_order = order@;
        order.insert(p, k);
        proof {
            let o = order@;
            assert(o == old_order.insert(p as int, k));
            assert forall|i: int| 0 <= i < o.len() implies #[trigger] o[i] < post.len() by {
                if i < p {
                    assert(o[i] == old_order[i]);
                } else if i > p {
                    assert(o[i] == old_order[i - 1]);
                }
            }
            assert forall|i: int| 0 <= i < o.len() implies post[#[trigger] o[i] as int] == keys@[o[i] as int] by {
                if i < p {
                    assert(o[i] == old_order[i]);
                } else if i > p {
                    assert(o[i] == old_order[i - 1]);
                }
            }
            assert forall|i: int, j: int| 0 <= i < j < o.len() implies o[i] != o[j] by {
                if i < p {
                    assert(o[i] == old_order[i]);
                } else if i > p {
                    assert(o[i] == old_order[i - 1]);
                }
                if j < p {
                    assert(o[j] == old_order[j]);
                } else if j > p {
                    assert(o[j] == old_order[j - 1]);
                }
            }
            assert forall|i: int, j: int| 0 <= i < j < o.len() implies in_order(
                post[o[i] as int],
                post[o[j] as int],
                desc,
            ) && (post[o[i] as int] == post[o[j] as int] ==> o[i] < o[j]) by {
                if i < p {
                    assert(o[i] == old_order[i]);
                } else if i > p {
                    assert(o[i] == old_order[i - 1]);
                }
                if j < p {
                    assert(o[j] == old_order[j]);
                } else if j > p {
                    assert(o[j] == old_order[j - 1]);
                }
                if i < p && j == p {
                    assert(in_order(keys@[old_order[i] as int], key, desc));
                } else if i == p && j > p {
                    let q = j - 1;
                    assert(!in_order(keys@[old_order[p as int] as int], key, desc));
                    if q > p {
                        assert(in_order(keys@[old_order[p as int] as int], keys@[old_order[q] as int], desc));
                    }
                } else if i < p && j > p {
                    assert(in_order(keys@[old_order[i] as int], keys@[old_order[j - 1] as int], desc));
                } else if i > p && j > p {
                    assert(in_order(keys@[old_order[i - 1] as int], keys@[old_order[j - 1] as int], desc));
                }
            }
        }
        k = k + 1;
    }
    assert(keys@.take(keys.len() as int) == keys@);
    order
}

fn in_order_exec(a: u64, b: u64, desc: bool) -> (r: bool)
    ensures
        r == in_order(a, b, desc),
{
    if desc {
        a >= b
    } else {
        a <= b
    }
}

}
