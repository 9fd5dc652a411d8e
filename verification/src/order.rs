//! Stable ordering by a numeric key, largest first.

use vstd::prelude::*;

verus! {

/// `order` lists every position of `keys` once, largest key first, equal
/// keys in their original order.
pub open spec fn desc_order(keys: Seq<u64>, order: Seq<usize>) -> bool {
    &&& order.len() == keys.len()
    &&& forall|j: int| 0 <= j < order.len() ==> (#[trigger] order[j]) < keys.len()
    &&& forall|k: int| 0 <= k < keys.len() ==> #[trigger] order.contains(k as usize)
    &&& forall|j1: int, j2: int|
        0 <= j1 < j2 < order.len() ==> {
            ||| keys[#[trigger] order[j1] as int] > keys[#[trigger] order[j2] as int]
            ||| (keys[order[j1] as int] == keys[order[j2] as int] && order[j1] < order[j2])
        }
}

/// The positions of `keys`, largest key first; a stable sort (insertion sort).
pub fn stable_desc_order(keys: &Vec<u64>) -> (order: Vec<usize>)
    ensures
        desc_order(keys@, order@),
{
    let m = keys.len();
    let mut order: Vec<usize> = Vec::new();
    for i in 0..m
        invariant
            m == keys.len(),
            order.len() == i,
            forall|j: int| 0 <= j < order.len() ==> #[trigger] order@[j] < i,
            forall|k: int| 0 <= k < i ==> #[trigger] order@.contains(k as usize),
            forall|j1: int, j2: int|
                0 <= j1 < j2 < order.len() ==> {
                    ||| keys@[#[trigger] order@[j1] as int] > keys@[#[trigger] order@[j2] as int]
                    ||| (keys@[order@[j1] as int] == keys@[order@[j2] as int] && order@[j1]
                        < order@[j2])
                },
    {
        let ki = keys[i];
        let mut pos: usize = 0;
        while pos < order.len() && keys[order[pos]] >= ki
            invariant
                m == keys.len(),
                pos <= order.len(),
                forall|j: int| 0 <= j < order.len() ==> #[trigger] order@[j] < i,
                i < m,
                forall|j: int| 0 <= j < pos ==> keys@[#[trigger] order@[j] as int] >= ki,
            decreases order.len() - pos,
        {
            pos = pos + 1;
        }
        let ghost old_order = order@;
        order.insert(pos, i);
        proof {
            assert(order@ == old_order.insert(pos as int, i));
            assert forall|j: int| 0 <= j < order.len() implies #[trigger] order@[j] < i + 1 by {
                if j < pos {
                    assert(order@[j] == old_order[j]);
                } else if j > pos {
                    assert(order@[j] == old_order[j - 1]);
                }
            }
            assert forall|k: int| 0 <= k < i + 1 implies #[trigger] order@.contains(k as usize) by {
                if k == i {
                    assert(order@[pos as int] == i);
                } else {
                    assert(old_order.contains(k as usize));
                    let j = choose|j: int| 0 <= j < old_order.len() && old_order[j] == k as usize;
                    if j < pos {
                        assert(order@[j] == k as usize);
                    } else {
                        assert(order@[j + 1] == k as usize);
                    }
                }
            }
            assert forall|j1: int, j2: int| 0 <= j1 < j2 < order.len() implies {
                ||| keys@[#[trigger] order@[j1] as int] > keys@[#[trigger] order@[j2] as int]
                ||| (keys@[order@[j1] as int] == keys@[order@[j2] as int] && order@[j1]
                    < order@[j2])
            } by {
                if j2 < pos {
                    assert(order@[j1] == old_order[j1] && order@[j2] == old_order[j2]);
                } else if j2 == pos {
                    assert(order@[j1] == old_order[j1]);
                    assert(keys@[old_order[j1] as int] >= ki);
                } else if j1 > pos {
                    assert(order@[j1] == old_order[j1 - 1] && order@[j2] == old_order[j2 - 1]);
                } else if j1 == pos {
                    assert(order@[j2] == old_order[j2 - 1]);
                    assert(pos < old_order.len());
                    assert(keys@[old_order[pos as int] as int] < ki);
                    if j2 - 1 > pos {
                        assert(keys@[old_order[pos as int] as int] >= keys@[old_order[j2
                            - 1] as int]);
                    }
                } else {
                    assert(order@[j1] == old_order[j1] && order@[j2] == old_order[j2 - 1]);
                }
            }
        }
    }
    order
}

} // verus!
