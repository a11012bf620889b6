use vstd::prelude::*;

use crate::{has_offset, match_at, Stamp};

verus! {

/// Linear lookup with default substitution: scan the stamps in order and
/// return the score of the first stamp whose offset equals `offset`; on a
/// miss, fall back to the canonical initial score 0-0.
pub fn get_score(game_stamps: &[Stamp], offset: i32) -> (r: (i32, i32))
    ensures
        forall|i: int|
            match_at(game_stamps@, offset, i) ==> r == (
                game_stamps@[i].score.home,
                game_stamps@[i].score.away,
            ),
        !has_offset(game_stamps@, offset) ==> r == (0i32, 0i32),
{
    let n: usize = game_stamps.len();
    let mut k: usize = 0;
    while k < n
        invariant
            n == game_stamps@.len(),
            k <= n,
            forall|j: int| 0 <= j < k ==> game_stamps@[j].offset != offset,
        decreases n - k,
    {
        let stamp = vstd::slice::slice_index_get(game_stamps, k);
        if stamp.offset == offset {
            return (stamp.score.home, stamp.score.away);
        }
        k = k + 1;
    }
    (0, 0)
}

} // verus!
