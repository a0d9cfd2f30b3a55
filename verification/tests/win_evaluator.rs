use mahjong_engine::card::Card;
use mahjong_engine::card::Pairing;
use mahjong_engine::game::GameState;
use mahjong_engine::win::bank;

fn hand_of(ids: &[u8]) -> Vec<Card> {
    ids.iter().map(|n| Card(*n)).collect()
}

#[test]
fn test_hu() {
    // 0 1 2 / 0 1 2 / 3 3 3 / 3 4 5 / 6 7 8 / 6 7 8 / 8 6
    let hand = [
        0, 4, 8, 1, 5, 9, 12, 13, 14, 15, 16, 20, 24, 28, 32, 25, 29, 33, 34, 26,
    ];
    let hand = hand.into_iter().map(|n| Card(n)).collect();
    assert_eq!(GameState::is_hu(&hand, 0, Card(90)), true);
    // 0 1 2 / 0 1 2 / 3 3 3 / 3 4 5 / 6 7 8 / 6 7 8 / 8 9
    let hand = [
        0, 4, 8, 1, 5, 9, 12, 13, 14, 15, 16, 20, 24, 28, 32, 25, 29, 33, 34, 36,
    ];
    let hand = hand.into_iter().map(|n| Card(n)).collect();
    assert_eq!(GameState::is_hu(&hand, 0, Card(90)), false);
    // 1 2 / 0 1 2 / 3 3 3 / 3 4 5 / 6 7 8 / 6 7 8 / 7 8 9
    let hand = [
        4, 8, 1, 5, 9, 12, 13, 14, 15, 16, 20, 24, 28, 32, 25, 29, 33, 30, 34, 36,
    ];
    let hand = hand.into_iter().map(|n| Card(n)).collect();
    assert_eq!(GameState::is_hu(&hand, 0, Card(90)), false);
}

#[test]
fn empty_hand_does_not_win() {
    assert_eq!(GameState::is_hu(&Vec::new(), 255, Card(0)), false);
}

#[test]
fn pair_alone_wins_on_banked_score() {
    // the tiles 24 and 32 are of two kinds of one category
    let hand = hand_of(&[24, 32]);
    assert_eq!(GameState::is_hu(&hand, 12, Card(90)), true);
    assert_eq!(GameState::is_hu(&hand, 11, Card(90)), false);
}

#[test]
fn pair_of_two_categories_does_not_win() {
    // the tiles 32 and 36 are of two categories
    let hand = hand_of(&[32, 36]);
    assert_eq!(GameState::is_hu(&hand, 200, Card(90)), false);
}

#[test]
fn two_tiles_of_one_kind_are_one_kind_left() {
    let hand = hand_of(&[24, 25]);
    assert_eq!(GameState::is_hu(&hand, 200, Card(90)), false);
}

#[test]
fn run_scores_four_in_first_category_and_four_in_wildcards() {
    // run 0 1 2 and the pair 6 8
    let hand = hand_of(&[0, 4, 8, 24, 32]);
    // wildcard elsewhere: the run is worth 4
    assert_eq!(GameState::is_hu(&hand, 8, Card(90)), true);
    assert_eq!(GameState::is_hu(&hand, 7, Card(90)), false);
    // wildcard in the first category: the run is worth 8
    assert_eq!(GameState::is_hu(&hand, 4, Card(5)), true);
    assert_eq!(GameState::is_hu(&hand, 3, Card(5)), false);
    // run 3 4 5 is worth nothing without the wildcard, 4 with it
    let hand = hand_of(&[12, 16, 20, 24, 32]);
    assert_eq!(GameState::is_hu(&hand, 12, Card(90)), true);
    assert_eq!(GameState::is_hu(&hand, 11, Card(90)), false);
    assert_eq!(GameState::is_hu(&hand, 8, Card(13)), true);
    assert_eq!(GameState::is_hu(&hand, 7, Card(13)), false);
}

#[test]
fn set_scores_four_and_eight_more_for_first_kind_and_wildcard() {
    // a set of the tiles 12 to 14 and the pair 24 32
    let hand = hand_of(&[12, 13, 14, 24, 32]);
    assert_eq!(GameState::is_hu(&hand, 8, Card(90)), true);
    assert_eq!(GameState::is_hu(&hand, 7, Card(90)), false);
    // the wildcard is of the kind of the set: 4 + 8
    assert_eq!(GameState::is_hu(&hand, 0, Card(15)), true);
    // wildcard of the same category but another kind gives nothing
    assert_eq!(GameState::is_hu(&hand, 7, Card(16)), false);
    // a set of the first kind: 4 + 8
    let hand = hand_of(&[0, 1, 2, 24, 32]);
    assert_eq!(GameState::is_hu(&hand, 0, Card(90)), true);
    // a set of the first kind with the wildcard of that kind: 4 + 8 + 8
    assert_eq!(GameState::is_hu(&hand, 0, Card(3)), true);
}

#[test]
fn runs_are_taken_before_sets() {
    // three tiles of one kind and one of each of the two next: the run leaves two tiles of
    // one kind
    let hand = hand_of(&[12, 13, 14, 16, 20]);
    assert_eq!(GameState::is_hu(&hand, 200, Card(90)), false);
}

#[test]
fn four_of_a_kind_leaves_one_tile() {
    // four tiles of one kind and one of another: a set, and a pair of one category
    let hand = hand_of(&[24, 25, 26, 27, 32]);
    assert_eq!(GameState::is_hu(&hand, 8, Card(90)), true);
    assert_eq!(GameState::is_hu(&hand, 7, Card(90)), false);
}

#[test]
fn tiles_outside_the_deck_count_as_kinds_left() {
    // the ids 100 and 104 are of two kinds of one category
    let hand = hand_of(&[100, 104]);
    assert_eq!(GameState::is_hu(&hand, 12, Card(90)), true);
    // three tiles of a kind outside the deck form no set
    let hand = hand_of(&[100, 101, 102, 24, 32]);
    assert_eq!(GameState::is_hu(&hand, 200, Card(90)), false);
}

#[test]
fn melds_bank_their_score() {
    let melds = vec![
        Pairing::Triplet(Card(0)),
        Pairing::Quadlet(Card(4)),
        Pairing::Triplet(Card(90)),
    ];
    assert_eq!(bank(&Vec::new()), 0);
    assert_eq!(bank(&melds), 16);
    assert_eq!(bank(&vec![Pairing::Triplet(Card(7))]), 4);
    assert_eq!(bank(&vec![Pairing::Quadlet(Card(7))]), 8);
    // a byte holds no more than 255
    let many: Vec<Pairing> = (0..31).map(|n| Pairing::Quadlet(Card(n))).collect();
    assert_eq!(bank(&many), 248);
    let many: Vec<Pairing> = (0..40).map(|n| Pairing::Quadlet(Card(n))).collect();
    assert_eq!(bank(&many), 255);
}
