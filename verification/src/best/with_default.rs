use vstd::prelude::*;

use crate::best::recursive_get_score_part;
use crate::{has_offset, increasing_offsets, match_at, Stamp};

verus! {

/// Partition lookup with default substitution: find the stamp whose offset
/// equals `offset` by halving the sorted series, and return its score; on a
/// miss (the empty series included), fall back to the canonical initial
/// score 0-0.
pub fn get_score(game_stamps: &[Stamp], offset: i32) -> (r: (i32, i32))
    requires
        increasing_offsets(game_stamps@),
    ensures
        forall|i: int|
            match_at(game_stamps@, offset, i) ==> r == (
                game_stamps@[i].score.home,
                game_stamps@[i].score.away,
            ),
        !has_offset(game_stamps@, offset) ==> r == (0i32, 0i32),
{
    let found = recursive_get_score_part(game_stamps, offset, 0, game_stamps.len());
    match found {
        Some(i) => {
            let stamp = vstd::slice::slice_index_get(game_stamps, i);
            (stamp.score.home, stamp.score.away)
        },
        None => (0, 0),
    }
}

} // verus!
