use rand::Rng;
use vstd::prelude::*;

pub mod best;
pub mod lite;

verus! {

/// How many stamps the generator appends after the initial one.
pub const TIMESTAMPS_COUNT: usize = 50000;

/// The most a single step may advance the offset; every step advances it by
/// at least one time unit.
pub const OFFSET_MAX_STEP: i32 = 3;

/// Chance denominators are expressed in ten-thousandths.
pub const CHANCE_SCALE: i32 = 10000;

/// Chance, in ten-thousandths, that a step changes the score at all.
pub const SCORE_CHANGED_CHANCES: i32 = 1;

/// Chance, in ten-thousandths, that a score change goes to the home side.
pub const HOME_SCORE_CHANCES: i32 = 4500;

/// Goals scored so far by each side of the match.
#[derive(Debug, Clone, Copy, PartialEq, Eq, Structural)]
pub struct Score {
    pub home: i32,
    pub away: i32,
}

/// One observation of the score: the elapsed time `offset` and the
/// score in effect at that moment.
#[derive(Debug, Clone, Copy, PartialEq, Eq, Structural)]
pub struct Stamp {
    pub offset: i32,
    pub score: Score,
}

/// Why a strict lookup failed: either no stamp carries the requested
/// offset, or there was no data to search at all.
#[derive(Debug, Clone, Copy, PartialEq, Eq, Structural)]
pub enum LookupError {
    NotFound(i32),
    EmptySeries,
}

/// The canonical initial observation: offset zero, score 0-0.
pub open spec fn initial_stamp() -> Stamp {
    Stamp { offset: 0, score: Score { home: 0, away: 0 } }
}

/// The core invariant of a series: offsets grow strictly along the sequence.
/// The partition lookup is unsound without it.
pub open spec fn increasing_offsets(s: Seq<Stamp>) -> bool {
    forall|i: int, j: int| 0 <= i < j < s.len() ==> s[i].offset < s[j].offset
}

/// Some stamp of the series carries exactly this offset.
pub open spec fn has_offset(s: Seq<Stamp>, offset: i32) -> bool {
    exists|i: int| 0 <= i < s.len() && s[i].offset == offset
}

/// Index `i` holds the first stamp of the series whose offset is exactly
/// `offset`. Both lookup algorithms return the score of this stamp.
pub open spec fn match_at(s: Seq<Stamp>, offset: i32, i: int) -> bool {
    &&& 0 <= i < s.len()
    &&& s[i].offset == offset
    &&& forall|j: int| 0 <= j < i ==> s[j].offset != offset
}

/// A single step may leave the score unchanged or award one goal to exactly
/// one side; it never lowers a tally.
pub open spec fn valid_score_step(prev: Score, next: Score) -> bool {
    ||| (next.home == prev.home && next.away == prev.away)
    ||| (next.home == prev.home + 1 && next.away == prev.away)
    ||| (next.home == prev.home && next.away == prev.away + 1)
}

/// Relies on rand's `Rng::random_range` over an inclusive `i32` range: the
/// sampled value lies within the given range, and the call panics only on an
/// empty range, which `lo <= hi` rules out.
#[verifier::external_body]
fn random_in_range(lo: i32, hi: i32) -> (r: i32)
    requires
        lo <= hi,
    ensures
        lo <= r <= hi,
{
    rand::rng().random_range(lo..=hi)
}

/// Draw the next stamp of the stochastic walk: advance the offset by one to
/// `OFFSET_MAX_STEP` time units, and with a small chance credit one goal to
/// one of the sides.
fn generate_stamp(previous_value: Stamp) -> (r: Stamp)
    requires
        previous_value.offset + OFFSET_MAX_STEP <= i32::MAX,
        previous_value.score.home < i32::MAX,
        previous_value.score.away < i32::MAX,
    ensures
        previous_value.offset < r.offset <= previous_value.offset + OFFSET_MAX_STEP,
        valid_score_step(previous_value.score, r.score),
{
    let change_draw: i32 = random_in_range(0, CHANCE_SCALE - 1);
    let score_changed: bool = change_draw < SCORE_CHANGED_CHANCES;
    let side_draw: i32 = random_in_range(0, CHANCE_SCALE - 1);
    let home_score_change: bool = side_draw < HOME_SCORE_CHANCES;
    let offset_change: i32 = random_in_range(1, OFFSET_MAX_STEP);

    Stamp {
        offset: previous_value.offset + offset_change,
        score: Score {
            home: previous_value.score.home
                + if score_changed && home_score_change {
                    1
                } else {
                    0
                },
            away: previous_value.score.away
                + if score_changed && !home_score_change {
                    1
                } else {
                    0
                },
        },
    }
}

/// Generate a full series: the canonical initial stamp followed by
/// `TIMESTAMPS_COUNT` stochastic steps. Offsets grow strictly along the
/// result, every score moves by at most one goal per step, and no tally is
/// ever negative.
pub fn generate_game() -> (r: Vec<Stamp>)
    ensures
        r@.len() == TIMESTAMPS_COUNT + 1,
        r@[0] == initial_stamp(),
        increasing_offsets(r@),
        forall|i: int| 0 <= i < r@.len() - 1 ==> #[trigger] valid_score_step(r@[i].score, r@[i + 1].score),
        forall|i: int| 0 <= i < r@.len() ==> 0 <= r@[i].score.home && 0 <= r@[i].score.away,
{
    let mut stamps: Vec<Stamp> = Vec::new();
    let mut current_stamp = Stamp { offset: 0, score: Score { home: 0, away: 0 } };
    stamps.push(current_stamp);

    let mut k: usize = 0;
    while k < TIMESTAMPS_COUNT
        invariant
            k <= TIMESTAMPS_COUNT,
            stamps@.len() == k + 1,
            stamps@[0] == initial_stamp(),
            current_stamp == stamps@[stamps@.len() - 1],
            current_stamp.offset <= OFFSET_MAX_STEP * k,
            0 <= current_stamp.score.home <= k,
            0 <= current_stamp.score.away <= k,
            increasing_offsets(stamps@),
            forall|i: int|
                0 <= i < stamps@.len() - 1 ==> #[trigger] valid_score_step(
                    stamps@[i].score,
                    stamps@[i + 1].score,
                ),
            forall|i: int|
                0 <= i < stamps@.len() ==> 0 <= stamps@[i].score.home
                    && 0 <= stamps@[i].score.away,
        decreases TIMESTAMPS_COUNT - k,
    {
        let next_stamp = generate_stamp(current_stamp);
        proof {
            assert forall|i: int| 0 <= i < stamps@.len() implies stamps@[i].offset
                < next_stamp.offset by {
                if i < stamps@.len() - 1 {
                    assert(stamps@[i].offset < stamps@[stamps@.len() - 1].offset);
                }
            }
        }
        current_stamp = next_stamp;
        stamps.push(current_stamp);
        k = k + 1;
    }

    stamps
}

/// Law: the first stamp of any non-empty series is the first match for its
/// own offset, so a lookup at `series[0].offset` returns the score that
/// index 0 holds — for a generated series, the canonical 0-0.
pub proof fn lemma_first_stamp_matches(s: Seq<Stamp>)
    requires
        s.len() > 0,
    ensures
        match_at(s, s[0].offset, 0),
{
}

/// Law: at most one index holds the first match for a given offset, so the
/// lookup contracts determine the returned score uniquely: the linear and
/// the partition lookup agree on every series and offset, and repeated
/// lookups with the same arguments always yield the same result.
pub proof fn lemma_match_unique(s: Seq<Stamp>, offset: i32, i: int, j: int)
    requires
        match_at(s, offset, i),
        match_at(s, offset, j),
    ensures
        i == j,
{
}

/// Law: in a series with strictly increasing offsets, every stamp is the
/// first match for its own offset, so a lookup at `s[i].offset` returns
/// `s[i].score` under either algorithm.
pub proof fn lemma_exact_match(s: Seq<Stamp>, i: int)
    requires
        increasing_offsets(s),
        0 <= i < s.len(),
    ensures
        match_at(s, s[i].offset, i),
        has_offset(s, s[i].offset),
{
}

/// Some stamp at or before index `k` matches `offset`, so a first match for
/// `offset` exists: walk toward the front while an earlier match remains.
proof fn lemma_first_match_from(s: Seq<Stamp>, offset: i32, k: int)
    requires
        0 <= k < s.len(),
        s[k].offset == offset,
    ensures
        exists|i: int| match_at(s, offset, i),
    decreases k,
{
    if forall|j: int| 0 <= j < k ==> s[j].offset != offset {
        assert(match_at(s, offset, k));
    } else {
        let j = choose|j: int| 0 <= j < k && s[j].offset == offset;
        lemma_first_match_from(s, offset, j);
    }
}

/// Law: whenever some stamp carries the requested offset, a first match for
/// it exists. Together with `lemma_match_unique` this shows the lookup
/// contracts pin the returned score on every input: exactly one index
/// satisfies `match_at`, and on a miss the policy clause applies.
pub proof fn lemma_first_match_exists(s: Seq<Stamp>, offset: i32)
    requires
        has_offset(s, offset),
    ensures
        exists|i: int| match_at(s, offset, i),
{
    let k = choose|k: int| 0 <= k < s.len() && s[k].offset == offset;
    lemma_first_match_from(s, offset, k);
}

/// Law: an offset strictly greater than the last (hence greatest) offset of
/// the series matches no stamp, so default substitution returns 0-0 and the
/// strict policy reports `NotFound`.
pub proof fn lemma_miss_above_max(s: Seq<Stamp>, offset: i32)
    requires
        increasing_offsets(s),
        s.len() > 0,
        s[s.len() - 1].offset < offset,
    ensures
        !has_offset(s, offset),
{
    assert forall|i: int| 0 <= i < s.len() implies s[i].offset != offset by {
        if i < s.len() - 1 {
            assert(s[i].offset < s[s.len() - 1].offset);
        }
    }
}

} // verus!
