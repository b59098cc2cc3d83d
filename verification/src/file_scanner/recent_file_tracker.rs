//! Recently active files: the files of a vault in the order they were
//! created.
use vstd::prelude::*;

verus! {

/// File `a` comes before file `b` in creation order: created earlier, or at
/// the same time and listed earlier (the order of a stable sort).
pub open spec fn created_before(created: Seq<i128>, a: int, b: int) -> bool {
    created[a] < created[b] || (created[a] == created[b] && a < b)
}

/// `order` lists every index of `created` once, in creation order.
pub open spec fn is_creation_order(created: Seq<i128>, order: Seq<usize>) -> bool {
    &&& order.len() == created.len()
    &&& forall|a: int| 0 <= a < order.len() ==> #[trigger] order[a] < created.len()
    &&& forall|a: int, b: int| 0 <= a < b < order.len() ==> created_before(created, order[a] as int, order[b] as int)
}

/// The files (by index) ordered by their creation times `created`, files
/// created at the same time kept in the order given, as the stable
/// `sort_by` on creation times orders them.
pub fn order_by_creation(created: &Vec<i128>) -> (r: Vec<usize>)
    ensures
        is_creation_order(created@, r@),
{
    let mut order: Vec<usize> = Vec::new();
    let mut i: usize = 0;
    while i < created.len()
        invariant
            0 <= i <= created@.len(),
            order@.len() == i,
            forall|a: int| 0 <= a < order@.len() ==> #[trigger] order@[a] < i,
            forall|a: int, b: int|
                0 <= a < b < order@.len() ==> created_before(created@, order@[a] as int, order@[b] as int),
        decreases created.len() - i,
    {
        let mut p: usize = 0;
        while p < order.len() && created[order[p]] <= created[i]
            invariant
                0 <= p <= order@.len(),
                i < created@.len(),
                forall|a: int| 0 <= a < order@.len() ==> #[trigger] order@[a] < i,
                forall|a: int| 0 <= a < p ==> created@[#[trigger] order@[a] as int] <= created@[i as int],
            decreases order.len() - p,
        {
            p += 1;
        }
        let ghost before = order@;
        proof {
            assert forall|a: int| p <= a < before.len() implies created@[i as int] < created@[#[trigger] before[a] as int] by {
                if created@[before[a] as int] <= created@[i as int] {
                    assert(created_before(created@, before[p as int] as int, before[a] as int) || a == p);
                }
            }
        }
        order.insert(p, i);
        proof {
            assert forall|a: int| 0 <= a < order@.len() implies #[trigger] order@[a] < i + 1 by {
                if a < p {
                    assert(order@[a] == before[a]);
                } else if a > p {
                    assert(order@[a] == before[a - 1]);
                }
            }
            assert forall|a: int, b: int| 0 <= a < b < order@.len() implies created_before(created@, order@[a] as int, order@[b] as int) by {
                if b < p {
                    assert(order@[a] == before[a] && order@[b] == before[b]);
                } else if b == p {
                    assert(order@[a] == before[a]);
                } else if a < p {
                    assert(order@[a] == before[a] && order@[b] == before[b - 1]);
                } else if a == p {
                    assert(order@[b] == before[b - 1]);
                } else {
                    assert(order@[a] == before[a - 1] && order@[b] == before[b - 1]);
                }
            }
        }
        i += 1;
    }
    order
}

/// A creation order is a permutation: no index is listed twice.
pub proof fn law_creation_order_lists_each_file_once(created: Seq<i128>, order: Seq<usize>)
    requires
        is_creation_order(created, order),
    ensures
        forall|a: int, b: int| 0 <= a < b < order.len() ==> order[a] != order[b],
{
    assert forall|a: int, b: int| 0 <= a < b < order.len() implies order[a] != order[b] by {
        assert(created_before(created, order[a] as int, order[b] as int));
    }
}

} // verus!
