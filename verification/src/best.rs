use vstd::prelude::*;

pub mod with_default;
pub mod with_panic;

use crate::{increasing_offsets, Stamp};

verus! {

/// Partition lookup over the view `[lo, hi)` of the stamps: repeatedly halve
/// the range around a pivot, keeping the half that can still hold the target
/// offset, until one stamp is left or the range is empty. Returns the index
/// of the stamp whose offset equals `offset`, if the range holds one.
pub fn recursive_get_score_part(
    game_stamps: &[Stamp],
    offset: i32,
    lo: usize,
    hi: usize,
) -> (r: Option<usize>)
    requires
        lo <= hi <= game_stamps@.len(),
        increasing_offsets(game_stamps@),
    ensures
        match r {
            Some(i) => lo <= i < hi && game_stamps@[i as int].offset == offset,
            None => forall|j: int| lo <= j < hi ==> game_stamps@[j].offset != offset,
        },
    decreases hi - lo,
{
    let len: usize = hi - lo;
    if len == 0 {
        return None;
    }
    if len == 1 {
        let stamp = vstd::slice::slice_index_get(game_stamps, lo);
        return if stamp.offset == offset {
            Some(lo)
        } else {
            None
        };
    }
    let pivot_idx: usize = lo + len / 2;
    let pivot = vstd::slice::slice_index_get(game_stamps, pivot_idx);
    if pivot.offset <= offset {
        recursive_get_score_part(game_stamps, offset, pivot_idx, hi)
    } else {
        recursive_get_score_part(game_stamps, offset, lo, pivot_idx)
    }
}

} // verus!
