use mahjong_engine::agent::Agent;
use mahjong_engine::agent::Strategy;
use mahjong_engine::card::Card;
use mahjong_engine::card::Pairing;

fn cards(ids: &[u8]) -> Vec<Card> {
    ids.iter().map(|n| Card(*n)).collect()
}

#[test]
fn new_seat_holds_nothing() {
    let seat = Agent::default();
    assert!(seat.hand.is_empty() && seat.out.is_empty() && seat.pairing.is_empty());
    assert!(seat.player_left_out.is_empty() && seat.player_right_out.is_empty());
    assert!(seat.player_left_pairing.is_empty() && seat.player_right_pairing.is_empty());
    assert!(!seat.is_robot && !seat.ready);
    assert_eq!(seat.strategy, Strategy::Level1);
    assert_eq!(Strategy::default(), Strategy::Level1);
    assert_eq!(seat.prob, [0u8; 24]);
    assert_eq!(seat.remaining, 0);
    assert_eq!(seat.ting, None);
    assert_eq!(seat.jing, Card(0));
}

#[test]
fn belief_of_a_seat_that_sees_nothing_is_the_whole_deck() {
    let mut seat = Agent::default();
    assert!(seat.is_accountable());
    seat.update_probability();
    assert_eq!(seat.prob, [4u8; 24]);
    assert_eq!(seat.remaining, 96);
}

#[test]
fn belief_takes_off_one_for_each_tile_seen() {
    let mut seat = Agent::default();
    seat.hand = cards(&[0, 1, 4]);
    seat.out = cards(&[2]);
    seat.player_left_out = cards(&[8, 95]);
    seat.player_right_out = cards(&[9]);
    seat.update_probability();
    let mut expected = [4u8; 24];
    expected[0] = 1;
    expected[1] = 3;
    expected[2] = 2;
    expected[23] = 3;
    assert_eq!(seat.prob, expected);
    assert_eq!(seat.remaining, 96 - 7);
    // nothing but the belief has changed
    assert_eq!(seat.hand, cards(&[0, 1, 4]));
    assert_eq!(seat.out, cards(&[2]));
    assert_eq!(seat.player_left_out, cards(&[8, 95]));
    assert_eq!(seat.player_right_out, cards(&[9]));
}

#[test]
fn belief_takes_off_three_for_a_triplet_and_four_for_a_quadlet() {
    let mut seat = Agent::default();
    seat.pairing = vec![Pairing::Triplet(Card(13))];
    seat.player_left_pairing = vec![Pairing::Quadlet(Card(40))];
    seat.player_right_pairing = vec![Pairing::Triplet(Card(91))];
    seat.hand = cards(&[12]);
    seat.update_probability();
    let mut expected = [4u8; 24];
    expected[3] = 0;
    expected[10] = 0;
    expected[22] = 1;
    assert_eq!(seat.prob, expected);
    assert_eq!(seat.remaining, 96 - 11);
}

#[test]
fn fifth_copy_of_a_kind_is_not_accountable() {
    let mut seat = Agent::default();
    seat.hand = cards(&[0, 1, 2, 3]);
    assert!(seat.is_accountable());
    seat.out = cards(&[0]);
    assert!(!seat.is_accountable());
    let mut seat = Agent::default();
    seat.pairing = vec![Pairing::Quadlet(Card(5))];
    assert!(seat.is_accountable());
    seat.player_right_out = cards(&[6]);
    assert!(!seat.is_accountable());
    let mut seat = Agent::default();
    seat.pairing = vec![Pairing::Triplet(Card(5))];
    seat.hand = cards(&[7]);
    assert!(seat.is_accountable());
    seat.hand = cards(&[7, 7]);
    assert!(!seat.is_accountable());
}

#[test]
fn tiles_outside_the_deck_do_not_count() {
    let mut seat = Agent::default();
    seat.hand = cards(&[96, 97, 98, 99, 100, 255]);
    assert!(seat.is_accountable());
    seat.update_probability();
    assert_eq!(seat.prob, [4u8; 24]);
    assert_eq!(seat.remaining, 96);
}

#[test]
fn working_the_belief_out_twice_gives_the_same() {
    let mut seat = Agent::default();
    seat.hand = cards(&[0, 5, 9, 13, 17, 90]);
    seat.out = cards(&[44, 45]);
    seat.pairing = vec![Pairing::Triplet(Card(60))];
    seat.update_probability();
    let prob = seat.prob;
    let remaining = seat.remaining;
    seat.update_probability();
    assert_eq!(seat.prob, prob);
    assert_eq!(seat.remaining, remaining);
    assert_eq!(remaining, 96 - 11);
    for kind in 0..24 {
        assert!(seat.prob[kind] <= 4);
    }
    assert_eq!(seat.prob.iter().map(|n| *n as u32).sum::<u32>(), remaining as u32);
}

#[test]
fn clear_forgets_the_hand_and_keeps_the_seat() {
    let mut seat = Agent::default();
    seat.hand = cards(&[0, 5]);
    seat.out = cards(&[44]);
    seat.pairing = vec![Pairing::Triplet(Card(60))];
    seat.player_left_out = cards(&[1]);
    seat.player_right_out = cards(&[2]);
    seat.player_left_pairing = vec![Pairing::Triplet(Card(64))];
    seat.player_right_pairing = vec![Pairing::Quadlet(Card(68))];
    seat.round = 3;
    seat.turn = 2;
    seat.is_robot = true;
    seat.ready = true;
    seat.strategy = Strategy::Random;
    seat.jing = Card(33);
    seat.ting = Some(vec![1, 2]);
    seat.update_probability();
    seat.clear();
    assert!(seat.hand.is_empty() && seat.out.is_empty() && seat.pairing.is_empty());
    assert!(seat.player_left_out.is_empty() && seat.player_right_out.is_empty());
    assert!(seat.player_left_pairing.is_empty() && seat.player_right_pairing.is_empty());
    assert_eq!(seat.ting, None);
    assert_eq!(seat.round, 0);
    assert_eq!(seat.prob, [0u8; 24]);
    assert_eq!(seat.remaining, 0);
    assert_eq!(seat.turn, 2);
    assert!(seat.is_robot && seat.ready);
    assert_eq!(seat.strategy, Strategy::Random);
    assert_eq!(seat.jing, Card(33));
}
