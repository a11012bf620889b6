use get_score::{generate_game, LookupError, Score, Stamp};
use rand::Rng;

#[test]
fn can_find_score_by_offset() {
    let game = generate_game();

    // We select, except for the first one, since it is the initiator and has zero values.
    let score_idx = rand::rng().random_range(1..game.len());
    let expected_stamp = game[score_idx];

    let found_score = get_score::lite::with_default::get_score(&game, expected_stamp.offset);
    let expected_score = (expected_stamp.score.home, expected_stamp.score.away);

    assert_eq!(
        found_score, expected_score,
        "Score found: {:?}, should be equal to expected: {:?}",
        found_score, expected_score
    );
}

#[test]
fn find_first_score_by_offset() {
    let game = generate_game();

    let score_idx = 0;
    let expected_stamp = game[score_idx];

    let found_score = get_score::lite::with_default::get_score(&game, expected_stamp.offset);
    let expected_score = (expected_stamp.score.home, expected_stamp.score.away);

    assert_eq!(
        found_score, expected_score,
        "Score found: {:?}, should be equal to expected: {:?}",
        found_score, expected_score
    );
}

#[test]
fn default_score_by_offset() {
    let game = generate_game();

    let latest_stamp = game.last().unwrap();

    let found_score = get_score::lite::with_default::get_score(&game, latest_stamp.offset + 1);
    let expected_score = (0, 0);

    assert_eq!(
        found_score, expected_score,
        "Score found: {:?}, should be equal to expected: {:?}",
        found_score, expected_score
    );
}

#[test]
fn lib_can_find_score_by_offset() {
    let game = generate_game();

    // We select, except for the first one, since it is the initiator and has zero values.
    let score_idx = rand::rng().random_range(1..game.len());
    let expected_stamp = game[score_idx];

    let found_score = get_score::lite::with_panic::get_score(&game, expected_stamp.offset).unwrap();
    let expected_score = (expected_stamp.score.home, expected_stamp.score.away);

    assert_eq!(
        found_score, expected_score,
        "Score found: {:?}, should be equal to expected: {:?}",
        found_score, expected_score
    );
}

#[test]
fn lib_find_first_score_by_offset() {
    let game = generate_game();

    let score_idx = 0;
    let expected_stamp = game[score_idx];

    let found_score = get_score::lite::with_panic::get_score(&game, expected_stamp.offset).unwrap();
    let expected_score = (expected_stamp.score.home, expected_stamp.score.away);

    assert_eq!(
        found_score, expected_score,
        "Score found: {:?}, should be equal to expected: {:?}",
        found_score, expected_score
    );
}

#[test]
fn panic_by_empty() {
    let game = Vec::<Stamp>::new();

    let found_score_res = get_score::lite::with_panic::get_score(&game, 1);

    assert!(
        found_score_res.is_err(),
        "Should panic because was not found"
    );
}

#[test]
fn panic_by_not_found() {
    let game = generate_game();

    let latest_stamp = game.last().unwrap();

    let found_score_res = get_score::lite::with_panic::get_score(&game, latest_stamp.offset + 1);

    assert!(
        found_score_res.is_err(),
        "Should panic because was not found"
    );
}

#[test]
fn lite_strict_not_found_carries_offset() {
    let game = vec![
        Stamp { offset: 0, score: Score { home: 0, away: 0 } },
        Stamp { offset: 4, score: Score { home: 1, away: 0 } },
    ];

    let found = get_score::lite::with_panic::get_score(&game, 3);

    assert_eq!(found, Err(LookupError::NotFound(3)));
}

#[test]
fn lite_strict_empty_reports_not_found() {
    let game = Vec::<Stamp>::new();

    let found = get_score::lite::with_panic::get_score(&game, 3);

    assert_eq!(found, Err(LookupError::NotFound(3)));
}

#[test]
fn lite_finds_first_of_duplicate_offsets() {
    // The linear scan makes no assumption about ordering: on duplicate
    // offsets it must return the first match.
    let game = vec![
        Stamp { offset: 7, score: Score { home: 2, away: 1 } },
        Stamp { offset: 7, score: Score { home: 3, away: 1 } },
    ];

    assert_eq!(get_score::lite::with_default::get_score(&game, 7), (2, 1));
    assert_eq!(get_score::lite::with_panic::get_score(&game, 7), Ok((2, 1)));
}
