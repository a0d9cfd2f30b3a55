use mahjong_engine::agent::Agent;
use mahjong_engine::agent::Strategy;
use mahjong_engine::card::Card;
use mahjong_engine::card::Pairing;
use mahjong_engine::game::GameState;
use mahjong_engine::heuristic::divide_into_group;
use mahjong_engine::heuristic::first_minimum;
use mahjong_engine::heuristic::RunShape;
use mahjong_engine::heuristic::SetShape;
use mahjong_engine::win::bank;

fn cards(ids: &[u8]) -> Vec<Card> {
    ids.iter().map(|n| Card(*n)).collect()
}

fn sum_of_ids(_seat: &Agent, group: &Vec<Card>) -> usize {
    group.iter().map(|c| c.0 as usize).sum()
}

fn size(_seat: &Agent, group: &Vec<Card>) -> usize {
    group.len()
}

/// Nineteen tiles that wait for the kinds 6 and 7.
const WAITING: [u8; 19] = [0, 4, 8, 1, 5, 9, 12, 13, 14, 15, 16, 20, 24, 28, 32, 25, 29, 33, 34];

#[test]
fn hand_is_divided_by_category() {
    let hand = cards(&[13, 0, 25, 12, 1, 95, 0, 100]);
    assert_eq!(
        divide_into_group(&hand),
        vec![cards(&[0, 1]), cards(&[12, 13]), cards(&[25]), cards(&[95])]
    );
    assert_eq!(divide_into_group(&Vec::new()), Vec::<Vec<Card>>::new());
    assert_eq!(divide_into_group(&cards(&[200])), Vec::<Vec<Card>>::new());
    let all: Vec<Card> = (0..96).rev().map(|n| Card(n)).collect();
    let groups = divide_into_group(&all);
    assert_eq!(groups.len(), 8);
    for (category, group) in groups.iter().enumerate() {
        let first = 12 * category as u8;
        assert_eq!(*group, (first..first + 12).map(|n| Card(n)).collect::<Vec<Card>>());
    }
}

#[test]
fn shape_of_a_group_for_runs() {
    let mut seat = Agent::default();
    assert!(matches!(seat.form_shun(&Vec::new()), RunShape::Empty));
    assert!(matches!(seat.form_shun(&cards(&[0, 4, 8])), RunShape::Complete));
    assert!(matches!(seat.form_shun(&cards(&[0, 4, 8, 1, 5, 9])), RunShape::Complete));
    match seat.form_shun(&cards(&[0, 4])) {
        RunShape::Wanting { kinds, doubled } => {
            assert_eq!(kinds, vec![2]);
            assert!(doubled);
        }
        _ => panic!("tiles are left"),
    }
    match seat.form_shun(&cards(&[0, 1, 4, 8])) {
        RunShape::Wanting { kinds, doubled } => {
            assert_eq!(kinds, vec![1, 2]);
            assert!(doubled);
        }
        _ => panic!("tiles are left"),
    }
    match seat.form_shun(&cards(&[16])) {
        RunShape::Wanting { kinds, doubled } => {
            assert_eq!(kinds, vec![3, 5]);
            assert!(!doubled);
        }
        _ => panic!("tiles are left"),
    }
    seat.jing = Card(23);
    match seat.form_shun(&cards(&[16, 20])) {
        RunShape::Wanting { kinds, doubled } => {
            assert_eq!(kinds, vec![3]);
            assert!(doubled);
        }
        _ => panic!("tiles are left"),
    }
}

#[test]
fn shape_of_a_group_for_sets() {
    let mut seat = Agent::default();
    assert!(matches!(seat.form_ke(&Vec::new()), SetShape::Empty));
    assert!(matches!(seat.form_ke(&cards(&[0, 1, 2])), SetShape::Complete));
    assert!(matches!(seat.form_ke(&cards(&[0, 1, 2, 4, 5, 6])), SetShape::Complete));
    match seat.form_ke(&cards(&[0, 1, 2, 3])) {
        SetShape::Wanting { rest, doubled } => {
            assert_eq!(rest, vec![(0, 1)]);
            assert!(doubled);
        }
        _ => panic!("tiles are left"),
    }
    match seat.form_ke(&cards(&[16, 13, 12])) {
        SetShape::Wanting { rest, doubled } => {
            assert_eq!(rest, vec![(3, 2), (4, 1)]);
            assert!(!doubled);
        }
        _ => panic!("tiles are left"),
    }
    seat.jing = Card(12);
    match seat.form_ke(&cards(&[20, 21, 22, 16])) {
        SetShape::Wanting { rest, doubled } => {
            assert_eq!(rest, vec![(4, 1)]);
            assert!(doubled);
        }
        _ => panic!("tiles are left"),
    }
}

#[test]
fn lowest_score_that_stands_first() {
    assert_eq!(first_minimum(&vec![7]), 0);
    assert_eq!(first_minimum(&vec![5, 3, 3, 9]), 1);
    assert_eq!(first_minimum(&vec![2, 2, 2]), 0);
    assert_eq!(first_minimum(&vec![9, 8, 7, 0]), 3);
}

#[test]
fn worst_tile_of_a_group() {
    let seat = Agent::default();
    let group = cards(&[12, 13, 16]);
    // without 12 the rest sums to 29, without 13 to 28, without 16 to 25
    assert_eq!(seat.select_worst_one_from_group(&group, &sum_of_ids), Card(16));
    // all alike: the first
    assert_eq!(seat.select_worst_one_from_group(&group, &size), Card(12));
    assert_eq!(seat.select_worst_one_from_group(&cards(&[40]), &sum_of_ids), Card(40));
}

#[test]
fn discard_by_the_appraiser() {
    let mut seat = Agent::default();
    seat.hand = cards(&[16, 0, 12, 13, 1]);
    // the groups are 0 1 and 12 13 16; the smaller is thought less of; of it the first tile
    assert_eq!(seat.choose_discard_card(&size), 1);
    // by the sum of ids the group 0 1 is thought less of, and without the tile 1 less is left
    assert_eq!(seat.choose_discard_card(&sum_of_ids), 4);
    // the appraiser is asked about the seat it is given
    seat.prob[4] = 9;
    let by_belief = |seat: &Agent, group: &Vec<Card>| {
        100 - group.iter().map(|c| seat.prob[(c.0 / 4) as usize] as usize).sum::<usize>()
    };
    // the group 12 13 16 scores 91 against 100; without the tile 16 it scores 100
    assert_eq!(seat.choose_discard_card(&by_belief), 2);
}

#[test]
fn kinds_a_hand_waits_for() {
    let mut seat = Agent::default();
    seat.jing = Card(90);
    seat.hand = cards(&WAITING);
    seat.update_probability();
    assert_eq!(seat.is_ting(&cards(&WAITING)), Some(vec![6, 7]));
    // a kind of which no copy is unseen is not waited for
    seat.out = cards(&[26, 27]);
    seat.update_probability();
    assert_eq!(seat.prob[6], 0);
    assert_eq!(seat.is_ting(&cards(&WAITING)), Some(vec![7]));
    seat.player_left_out = cards(&[30, 31]);
    seat.update_probability();
    assert_eq!(seat.is_ting(&cards(&WAITING)), None);
}

#[test]
fn banked_melds_count_four_and_eight_for_waiting() {
    let mut seat = Agent::default();
    seat.jing = Card(90);
    // one run of the second category and the tile 24: nothing is scored
    let hand = cards(&[12, 16, 20, 24]);
    seat.hand = hand.clone();
    seat.update_probability();
    assert_eq!(seat.is_ting(&hand), None);
    // a quadlet and a triplet bank twelve: the two other kinds of the category of the tile
    // 24 complete the hand
    seat.pairing = vec![Pairing::Quadlet(Card(40)), Pairing::Triplet(Card(44))];
    seat.update_probability();
    assert_eq!(seat.is_ting(&hand), Some(vec![7, 8]));
    seat.pairing = vec![
        Pairing::Triplet(Card(40)),
        Pairing::Triplet(Card(44)),
        Pairing::Triplet(Card(48)),
    ];
    seat.update_probability();
    assert_eq!(seat.is_ting(&hand), Some(vec![7, 8]));
    // eight are not enough
    seat.pairing = vec![Pairing::Quadlet(Card(40))];
    seat.update_probability();
    assert_eq!(seat.is_ting(&hand), None);
    seat.pairing = vec![Pairing::Triplet(Card(40)), Pairing::Triplet(Card(44))];
    seat.update_probability();
    assert_eq!(seat.is_ting(&hand), None);
}

#[test]
fn seat_with_a_meld_waits_for_what_wins_at_the_table() {
    // two runs of the first category, one of the second, two of the third, and the tile 36;
    // the two runs of the first category score eight, the triplet banks four
    let hand = cards(&[0, 4, 8, 1, 5, 9, 12, 16, 20, 24, 28, 32, 25, 29, 33, 36]);
    let mut seat = Agent::default();
    seat.jing = Card(90);
    seat.hand = hand.clone();
    seat.pairing = vec![Pairing::Triplet(Card(60))];
    seat.update_probability();
    assert_eq!(seat.is_ting(&hand), Some(vec![10, 11]));
    // what the seat waits for is what the table finds won, whichever copy is drawn
    let score = bank(&seat.pairing);
    assert_eq!(score, 4);
    for kind in 0..24u8 {
        for copy in 0..4u8 {
            let mut drawn = hand.clone();
            drawn.push(Card(4 * kind + copy));
            assert_eq!(
                GameState::is_hu(&drawn, score, seat.jing),
                kind == 10 || kind == 11,
                "tile {}",
                4 * kind + copy
            );
        }
    }
    // without the meld the hand is short of the score and waits for nothing
    seat.pairing = Vec::new();
    seat.update_probability();
    assert_eq!(seat.is_ting(&hand), None);
}

#[test]
fn discard_that_keeps_the_seat_waiting() {
    let mut seat = Agent::default();
    seat.jing = Card(90);
    let mut hand = cards(&WAITING);
    hand.push(Card(60));
    seat.hand = hand.clone();
    seat.update_probability();
    // without the stray tile 60 the hand waits for the kinds 6 and 7, of which two copies
    // each are unseen; without a tile of the kind 8 it waits for the kinds 16 and 17, of
    // which all four are: the first tile of the kind 8 is given away
    assert_eq!(seat.best_waiting_discard(), Some(14));
    seat.ting = Some(vec![6, 7]);
    assert_eq!(seat.ting_card(&size), 14);
    assert_eq!(seat.ting, Some(vec![6, 7]));
    // with those kinds seen, the stray tile goes
    seat.out = cards(&[64, 65, 66, 67, 68, 69, 70, 71]);
    seat.update_probability();
    assert_eq!(seat.best_waiting_discard(), Some(19));
    // whatever is discarded, the hand below waits for nothing: the appraiser picks
    let mut seat = Agent::default();
    seat.hand = cards(&[48, 36, 24, 12, 0]);
    seat.update_probability();
    seat.ting = Some(vec![6]);
    assert_eq!(seat.best_waiting_discard(), None);
    assert_eq!(seat.ting_card(&sum_of_ids), 4);
    assert_eq!(seat.ting, None);
}

#[test]
fn test_player_discards_its_first_tile() {
    let mut seat = Agent::default();
    seat.strategy = Strategy::Test;
    seat.hand = cards(&[16, 0, 12]);
    assert_eq!(seat.discard_card(&size), Card(16));
    assert_eq!(seat.hand, cards(&[0, 12]));
    assert_eq!(seat.out, cards(&[16]));
    assert_eq!(seat.prob[4], 3);
    assert_eq!(seat.remaining, 93);
    assert_eq!(seat.ting, None);
}

#[test]
fn heuristic_player_discards_by_the_appraiser() {
    let mut seat = Agent::default();
    seat.hand = cards(&[16, 0, 12, 13, 1]);
    assert_eq!(seat.discard_card(&sum_of_ids), Card(1));
    assert_eq!(seat.hand, cards(&[16, 0, 12, 13]));
    assert_eq!(seat.out, cards(&[1]));
}

#[test]
fn heuristic_player_that_waits_keeps_waiting() {
    let mut seat = Agent::default();
    seat.jing = Card(90);
    let mut hand = cards(&WAITING);
    hand.insert(3, Card(60));
    seat.hand = hand;
    seat.out = cards(&[64, 65, 66, 67, 68, 69, 70, 71]);
    seat.update_probability();
    seat.ting = Some(vec![6, 7]);
    assert_eq!(seat.discard_card(&size), Card(60));
    assert_eq!(seat.hand, cards(&WAITING));
    assert_eq!(seat.ting, Some(vec![6, 7]));
    // where the kinds next to the stray tile are unseen, a tile of the kind 8 goes
    let mut seat = Agent::default();
    seat.jing = Card(90);
    let mut hand = cards(&WAITING);
    hand.insert(3, Card(60));
    seat.hand = hand;
    seat.update_probability();
    seat.ting = Some(vec![6, 7]);
    assert_eq!(seat.discard_card(&size), Card(32));
    assert_eq!(seat.ting, Some(vec![16, 17]));
}

#[test]
fn random_player_discards_a_tile_of_its_hand() {
    for _ in 0..50 {
        let mut seat = Agent::default();
        seat.strategy = Strategy::Random;
        seat.hand = cards(&[16, 0, 12, 40]);
        let card = seat.discard_card(&size);
        assert!([16, 0, 12, 40].contains(&card.0));
        assert_eq!(seat.hand.len(), 3);
        assert!(!seat.hand.contains(&card));
        assert_eq!(seat.out, vec![card]);
    }
}

#[test]
fn discard_of_the_tile_at_a_place() {
    let mut seat = Agent::default();
    seat.jing = Card(90);
    let mut hand = cards(&WAITING);
    hand.insert(7, Card(61));
    seat.hand = hand;
    assert_eq!(seat.discard_at(7), Card(61));
    assert_eq!(seat.hand, cards(&WAITING));
    assert_eq!(seat.out, cards(&[61]));
    // the seat remembers what it waits for now
    assert_eq!(seat.ting, Some(vec![6, 7]));
    assert_eq!(seat.prob[15], 3);
}
