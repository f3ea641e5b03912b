//! Request validation: the single source of truth for the valid count
//! range and the valid id set. Every query path rejects here before it
//! touches catalog state.

use vstd::prelude::*;

verus! {

/// True exactly when `count` lies in `[1, total]`.
pub fn is_valid_count(count: i32, total: usize) -> (r: bool)
    ensures
        r == (1 <= count && count as int <= total as int),
{
    0 < count && count as u64 <= total as u64
}

/// True exactly when `id` is a member of `known_ids`.
pub fn is_valid_id(id: i64, known_ids: &Vec<i64>) -> (r: bool)
    ensures
        r == known_ids@.contains(id),
{
    let mut i: usize = 0;
    while i < known_ids.len()
        invariant
            i <= known_ids@.len(),
            forall|j: int| 0 <= j < i ==> known_ids@[j] != id,
        decreases known_ids.len() - i,
    {
        if known_ids[i] == id {
            return true;
        }
        i = i + 1;
    }
    proof {
        if known_ids@.contains(id) {
            let j = choose|j: int| 0 <= j < known_ids@.len() && known_ids@[j] == id;
            assert(false);
        }
    }
    false
}

} // verus!
