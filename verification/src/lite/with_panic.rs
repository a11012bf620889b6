use vstd::prelude::*;

use crate::{has_offset, match_at, LookupError, Stamp};

verus! {

/// Linear lookup, strict policy: scan the stamps in order and return the
/// score of the first stamp whose offset equals `offset`; on a miss, fail
/// with `NotFound` carrying the requested offset.
pub fn get_score(game_stamps: &[Stamp], offset: i32) -> (r: Result<(i32, i32), LookupError>)
    ensures
        forall|i: int|
            match_at(game_stamps@, offset, i) ==> r == Ok::<(i32, i32), LookupError>((
                game_stamps@[i].score.home,
                game_stamps@[i].score.away,
            )),
        !has_offset(game_stamps@, offset) ==> r == Err::<(i32, i32), LookupError>(
            LookupError::NotFound(offset),
        ),
{
    let n: usize = game_stamps.len();
    let mut k: usize = 0;
    while k < n
        invariant
            n == game_stamps@.len(),
            k <= n,
            forall|j: int| 0 <= j < k ==> game_stamps@[j].offset != offset,
        decreases n - k,
    {
        let stamp = vstd::slice::slice_index_get(game_stamps, k);
        if stamp.offset == offset {
            return Ok((stamp.score.home, stamp.score.away));
        }
        k = k + 1;
    }
    Err(LookupError::NotFound(offset))
}

} // verus!
