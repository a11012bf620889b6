use vstd::prelude::*;

use crate::best::recursive_get_score_part;
use crate::{has_offset, increasing_offsets, match_at, LookupError, Stamp};

verus! {

/// Partition lookup, strict policy: find the stamp whose offset equals
/// `offset` by halving the sorted series and return its score. On an empty
/// series fail with `EmptySeries`; on any other miss fail with `NotFound`
/// carrying the requested offset.
pub fn get_score(game_stamps: &[Stamp], offset: i32) -> (r: Result<(i32, i32), LookupError>)
    requires
        increasing_offsets(game_stamps@),
    ensures
        forall|i: int|
            match_at(game_stamps@, offset, i) ==> r == Ok::<(i32, i32), LookupError>((
                game_stamps@[i].score.home,
                game_stamps@[i].score.away,
            )),
        game_stamps@.len() == 0 ==> r == Err::<(i32, i32), LookupError>(LookupError::EmptySeries),
        game_stamps@.len() > 0 && !has_offset(game_stamps@, offset) ==> r == Err::<
            (i32, i32),
            LookupError,
        >(LookupError::NotFound(offset)),
{
    if game_stamps.is_empty() {
        return Err(LookupError::EmptySeries);
    }
    let found = recursive_get_score_part(game_stamps, offset, 0, game_stamps.len());
    match found {
        Some(i) => {
            let stamp = vstd::slice::slice_index_get(game_stamps, i);
            Ok((stamp.score.home, stamp.score.away))
        },
        None => Err(LookupError::NotFound(offset)),
    }
}

} // verus!
