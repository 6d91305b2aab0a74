//! Putting rows in order: a stable sort of indices by integer keys.

use vstd::prelude::*;

verus! {

/// A key by which rows are put in order, compared field by field.
#[derive(Clone, Copy, Debug, PartialEq, Eq, Structural)]
pub struct SortKey {
    pub major: u64,
    pub middle: u64,
    pub minor: u64,
}

impl SortKey {
    /// Whether a row with this key may come before a row with the other.
    pub open spec fn spec_le(self, other: SortKey) -> bool {
        ||| self.major < other.major
        ||| (self.major == other.major && self.middle < other.middle)
        ||| (self.major == other.major && self.middle == other.middle && self.minor <= other.minor)
    }

    /// Whether a row with this key may come before a row with the other.
    pub fn le(&self, other: &SortKey) -> (r: bool)
        ensures
            r == self.spec_le(*other),
    {
        self.major < other.major || (self.major == other.major && self.middle < other.middle) || (
        self.major == other.major && self.middle == other.middle && self.minor <= other.minor)
    }
}

/// Whether `order` names each of the first `n` indices exactly once.
pub open spec fn spec_is_permutation(order: Seq<usize>, n: int) -> bool {
    &&& order.len() == n
    &&& forall|j: int| 0 <= j < n ==> (#[trigger] order[j]) < n
    &&& forall|i: int, j: int| 0 <= i < j < n ==> #[trigger] order[i] != #[trigger] order[j]
    &&& forall|k: int| 0 <= k < n ==> #[trigger] order.contains(k as usize)
}

/// Whether the keys, taken in the given order, never go down.
pub open spec fn spec_is_ascending(order: Seq<usize>, keys: Seq<SortKey>) -> bool {
    forall|i: int, j: int|
        0 <= i < j < order.len() ==> keys[(#[trigger] order[i]) as int].spec_le(
            keys[(#[trigger] order[j]) as int],
        )
}

/// Whether rows with equal keys keep, in the given order, the order in
/// which they stand.
pub open spec fn spec_is_stable(order: Seq<usize>, keys: Seq<SortKey>) -> bool {
    forall|i: int, j: int|
        0 <= i < j < order.len() && keys[(#[trigger] order[i]) as int] == keys[(
        #[trigger] order[j]) as int] ==> order[i] < order[j]
}

/// The order in which the keys ascend: a permutation of their indices.
/// Equal keys keep the order in which they stand.
pub fn sorted_order(keys: &Vec<SortKey>) -> (order: Vec<usize>)
    ensures
        spec_is_permutation(order@, keys@.len() as int),
        spec_is_ascending(order@, keys@),
        spec_is_stable(order@, keys@),
{
    let mut order: Vec<usize> = Vec::new();
    let mut n: usize = 0;
    while n < keys.len()
        invariant
            n <= keys@.len(),
            spec_is_permutation(order@, n as int),
            spec_is_ascending(order@, keys@),
            spec_is_stable(order@, keys@),
        decreases keys@.len() - n,
    {
        let key = keys[n];
        let mut p: usize = 0;
        while p < order.len() && keys[order[p]].le(&key)
            invariant
                p <= order@.len(),
                n < keys@.len(),
                key == keys@[n as int],
                spec_is_permutation(order@, n as int),
                forall|j: int| 0 <= j < p ==> keys@[(#[trigger] order@[j]) as int].spec_le(key),
            decreases order@.len() - p,
        {
            p = p + 1;
        }
        let ghost before = order@;
        order.insert(p, n);
        proof {
            let after = order@;
            assert forall|j: int| 0 <= j < n + 1 implies (#[trigger] after[j]) < n + 1 by {
                if j < p {
                    assert(after[j] == before[j]);
                } else if j > p {
                    assert(after[j] == before[j - 1]);
                }
            }
            assert forall|i: int, j: int| 0 <= i < j < n + 1 implies #[trigger] after[i]
                != #[trigger] after[j] by {
                if i != p {
                    assert(after[i] == before[if i < p {
                        i
                    } else {
                        i - 1
                    }]);
                }
                if j != p {
                    assert(after[j] == before[if j < p {
                        j
                    } else {
                        j - 1
                    }]);
                }
            }
            assert forall|k: int| 0 <= k < n + 1 implies #[trigger] after.contains(k as usize) by {
                if k == n {
                    assert(after[p as int] == k as usize);
                } else {
                    assert(before.contains(k as usize));
                    let j0 = choose|j: int| 0 <= j < n && before[j] == k as usize;
                    if j0 < p {
                        assert(after[j0] == k as usize);
                    } else {
                        assert(after[j0 + 1] == k as usize);
                    }
                }
            }
            assert forall|i: int, j: int| 0 <= i < j < after.len() implies keys@[(
            #[trigger] after[i]) as int].spec_le(keys@[(#[trigger] after[j]) as int]) by {
                let a = if i < p {
                    i
                } else {
                    i - 1
                };
                let b = if j < p {
                    j
                } else {
                    j - 1
                };
                if i != p {
                    assert(after[i] == before[a]);
                }
                if j != p {
                    assert(after[j] == before[b]);
                }
                if i == p {
                    // The key behind the new one is the first that does not
                    // come before it, and the keys behind that one follow it.
                    assert(!keys@[before[p as int] as int].spec_le(key));
                    if b > p {
                        assert(keys@[before[p as int] as int].spec_le(keys@[before[b] as int]));
                    }
                }
            }
            assert forall|i: int, j: int|
                0 <= i < j < after.len() && keys@[(#[trigger] after[i]) as int] == keys@[(
                #[trigger] after[j]) as int] implies after[i] < after[j] by {
                let a = if i < p {
                    i
                } else {
                    i - 1
                };
                let b = if j < p {
                    j
                } else {
                    j - 1
                };
                if i != p {
                    assert(after[i] == before[a]);
                }
                if j != p {
                    assert(after[j] == before[b]);
                }
                if i == p {
                    assert(!keys@[before[p as int] as int].spec_le(key));
                    if b > p {
                        assert(keys@[before[p as int] as int].spec_le(keys@[before[b] as int]));
                    }
                }
            }
        }
        n = n + 1;
    }
    order
}

} // verus!
