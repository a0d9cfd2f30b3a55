use mahjong_engine::agent::Agent;
use mahjong_engine::agent::Strategy;
use mahjong_engine::card::Card;
use mahjong_engine::card::Pairing;
use mahjong_engine::game::GameState;

fn cards(ids: &[u8]) -> Vec<Card> {
    ids.iter().map(|n| Card(*n)).collect()
}

/// A seat that holds the given hand and has seen its right neighbour discard `seen`.
fn seat_with(hand: &[u8], seen: &[u8], strategy: Strategy) -> Agent {
    let mut seat = Agent::default();
    seat.hand = cards(hand);
    seat.player_right_out = cards(seen);
    seat.strategy = strategy;
    seat.is_robot = true;
    seat
}

#[test]
fn same_kind_goes_by_fours() {
    assert!(Card(0).is_same_kind(&Card(3)));
    assert!(!Card(3).is_same_kind(&Card(4)));
    assert!(Card(92).is_same_kind(&Card(95)));
    assert!(!Card(91).is_same_kind(&Card(92)));
    assert!(Card(7).is_same_kind(&Card(7)));
}

#[test]
fn counting_the_tiles_of_a_kind() {
    let hand = cards(&[16, 0, 17, 20, 18, 19, 15]);
    assert_eq!(GameState::count_same_type(&hand, &Card(16)), 4);
    assert_eq!(GameState::count_same_type(&hand, &Card(3)), 1);
    assert_eq!(GameState::count_same_type(&hand, &Card(12)), 1);
    assert_eq!(GameState::count_same_type(&hand, &Card(40)), 0);
    assert_eq!(GameState::count_same_type(&Vec::new(), &Card(40)), 0);
}

#[test]
fn quadlet_needs_three_and_triplet_two() {
    let three = cards(&[16, 17, 18, 0]);
    let two = cards(&[16, 18, 0]);
    let four = cards(&[16, 17, 18, 19]);
    let one = cards(&[16, 0]);
    assert!(GameState::can_form_quadlet(&three, &Card(19)));
    assert!(!GameState::can_form_triplet(&three, &Card(19)));
    assert!(GameState::can_form_triplet(&two, &Card(19)));
    assert!(!GameState::can_form_quadlet(&two, &Card(19)));
    assert!(!GameState::can_form_quadlet(&four, &Card(19)));
    assert!(!GameState::can_form_triplet(&four, &Card(19)));
    assert!(!GameState::can_form_quadlet(&one, &Card(19)));
    assert!(!GameState::can_form_triplet(&one, &Card(19)));
}

#[test]
fn strategies_answer_claims() {
    for toss in [0u8, 1, 2, 3, 254, 255] {
        assert_eq!(Strategy::Random.takes_triplet(toss), toss % 2 == 1);
        assert_eq!(Strategy::Random.takes_quadlet(toss), toss % 2 == 1);
        assert!(Strategy::Level1.takes_triplet(toss));
        assert!(Strategy::Level1.takes_quadlet(toss));
        assert!(Strategy::Test.takes_triplet(toss));
        assert!(!Strategy::Test.takes_quadlet(toss));
    }
}

#[test]
fn triplet_takes_two_tiles_of_the_kind() {
    let mut seat = seat_with(&[0, 16, 40, 18, 41], &[7, 19], Strategy::Test);
    seat.player_left_out = cards(&[17, 80]);
    assert!(seat.ding_card(Card(19)));
    assert_eq!(seat.hand, cards(&[0, 40, 41]));
    assert_eq!(seat.pairing, vec![Pairing::Triplet(Card(19))]);
    // the claimed tile is off the pile it lay on; the other pile is as it was
    assert_eq!(seat.player_right_out, cards(&[7]));
    assert_eq!(seat.player_left_out, cards(&[17, 80]));
    assert!(seat.out.is_empty());
    // the belief is worked out anew: of the tiles 16 to 19 the triplet and the tile 17 are seen
    assert_eq!(seat.prob[4], 0);
    assert_eq!(seat.prob[0], 3);
    assert_eq!(seat.prob[1], 3);
    assert_eq!(seat.prob[10], 2);
    assert_eq!(seat.prob[20], 3);
    assert_eq!(seat.remaining, 96 - 9);
}

#[test]
fn triplet_is_refused_without_two_tiles_of_the_kind() {
    for hand in [&[0u8, 16, 40][..], &[16, 17, 18, 40][..], &[40, 41][..]] {
        let mut seat = seat_with(hand, &[19], Strategy::Level1);
        seat.ting = Some(vec![3]);
        assert!(!seat.ding_card(Card(19)));
        assert_eq!(seat.hand, cards(hand));
        assert!(seat.pairing.is_empty());
        assert_eq!(seat.player_right_out, cards(&[19]));
        assert_eq!(seat.prob, [0u8; 24]);
        assert_eq!(seat.remaining, 0);
        assert_eq!(seat.ting, Some(vec![3]));
    }
}

#[test]
fn quadlet_takes_three_tiles_of_the_kind() {
    let mut seat = seat_with(&[16, 0, 17, 18, 41], &[19], Strategy::Level1);
    seat.player_left_out = cards(&[17]);
    assert!(seat.pao_card(Card(19)));
    assert_eq!(seat.hand, cards(&[0, 41]));
    assert_eq!(seat.pairing, vec![Pairing::Quadlet(Card(19))]);
    // a tile of the kind on top of either pile is forgotten
    assert!(seat.player_right_out.is_empty());
    assert!(seat.player_left_out.is_empty());
    assert_eq!(seat.prob[4], 0);
    assert_eq!(seat.remaining, 96 - 6);
}

#[test]
fn quadlet_is_refused_without_three_tiles_of_the_kind() {
    for hand in [&[0u8, 16, 17][..], &[16, 17, 18, 19][..], &[40][..]] {
        let mut seat = seat_with(hand, &[19], Strategy::Level1);
        assert!(!seat.pao_card(Card(19)));
        assert_eq!(seat.hand, cards(hand));
        assert!(seat.pairing.is_empty());
        assert_eq!(seat.player_right_out, cards(&[19]));
        assert_eq!(seat.prob, [0u8; 24]);
    }
}

#[test]
fn test_player_leaves_quadlets() {
    let mut seat = seat_with(&[16, 17, 18, 41], &[19], Strategy::Test);
    assert!(!seat.pao_card(Card(19)));
    assert_eq!(seat.hand, cards(&[16, 17, 18, 41]));
    assert!(seat.pairing.is_empty());
    assert_eq!(seat.player_right_out, cards(&[19]));
    assert_eq!(seat.prob, [0u8; 24]);
}

#[test]
fn random_player_takes_or_leaves() {
    let mut taken = 0;
    let mut left = 0;
    for _ in 0..200 {
        let mut seat = seat_with(&[16, 17, 18, 41], &[19], Strategy::Random);
        if seat.pao_card(Card(19)) {
            taken += 1;
            assert_eq!(seat.hand, cards(&[41]));
            assert_eq!(seat.pairing, vec![Pairing::Quadlet(Card(19))]);
            assert!(seat.player_right_out.is_empty());
            assert_eq!(seat.remaining, 96 - 5);
        } else {
            left += 1;
            assert_eq!(seat.hand, cards(&[16, 17, 18, 41]));
            assert!(seat.pairing.is_empty());
            assert_eq!(seat.player_right_out, cards(&[19]));
            // the belief is worked out all the same
            assert_eq!(seat.remaining, 96 - 5);
        }
        let mut seat = seat_with(&[16, 18, 41], &[19], Strategy::Random);
        if seat.ding_card(Card(19)) {
            assert_eq!(seat.hand, cards(&[41]));
            assert_eq!(seat.pairing, vec![Pairing::Triplet(Card(19))]);
        } else {
            assert_eq!(seat.hand, cards(&[16, 18, 41]));
            assert!(seat.pairing.is_empty());
        }
    }
    // two hundred tosses of a fair coin do not all fall alike
    assert!(taken > 0 && left > 0);
}

#[test]
fn meld_of_a_seat() {
    let mut seat = seat_with(&[16, 0, 18], &[19], Strategy::Test);
    seat.meld(Pairing::Triplet(Card(19)));
    assert_eq!(seat.hand, cards(&[0]));
    assert_eq!(seat.pairing, vec![Pairing::Triplet(Card(19))]);
    assert!(seat.player_right_out.is_empty());
    assert_eq!(seat.prob[4], 1);
    assert_eq!(seat.prob[0], 3);
}
