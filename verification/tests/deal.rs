use mahjong_engine::card::Card;
use mahjong_engine::game::deal::shuffle_by;

fn cards(ids: &[u8]) -> Vec<Card> {
    ids.iter().map(|n| Card(*n)).collect()
}

#[test]
fn shuffle_changes_each_place_with_the_place_drawn() {
    let mut deck = cards(&[0, 1, 2, 3]);
    // 0 with 1, 1 with itself, 2 with 0, 3 with 6 taken by 4
    shuffle_by(&mut deck, &vec![1, 1, 0, 6]);
    assert_eq!(deck, cards(&[2, 0, 3, 1]));
}

#[test]
fn shuffle_by_its_own_places_changes_nothing() {
    let mut deck = cards(&[5, 6, 7]);
    shuffle_by(&mut deck, &vec![0, 1, 2]);
    assert_eq!(deck, cards(&[5, 6, 7]));
    shuffle_by(&mut deck, &vec![3, 7, 11]);
    assert_eq!(deck, cards(&[5, 6, 7]));
}

#[test]
fn shuffle_takes_as_many_turns_as_draws_and_places() {
    let mut deck = cards(&[0, 1, 2, 3]);
    shuffle_by(&mut deck, &vec![3]);
    assert_eq!(deck, cards(&[3, 1, 2, 0]));
    shuffle_by(&mut deck, &vec![1, 2, 3, 0, 9, 9]);
    // 3 1 2 0 -> 1 3 2 0 -> 1 2 3 0 -> 1 2 0 3 -> 3 2 0 1
    assert_eq!(deck, cards(&[3, 2, 0, 1]));
    shuffle_by(&mut deck, &Vec::new());
    assert_eq!(deck, cards(&[3, 2, 0, 1]));
    let mut none: Vec<Card> = Vec::new();
    shuffle_by(&mut none, &vec![4, 5]);
    assert!(none.is_empty());
}

#[test]
fn whole_deck_keeps_its_tiles_when_shuffled() {
    let mut deck: Vec<Card> = (0..96).map(|n| Card(n)).collect();
    let draws: Vec<usize> = (0..96).map(|n| (n * 37 + 11) % 1000).collect();
    shuffle_by(&mut deck, &draws);
    assert_ne!(deck, (0..96).map(|n| Card(n)).collect::<Vec<Card>>());
    let mut ids: Vec<u8> = deck.iter().map(|c| c.0).collect();
    ids.sort();
    assert_eq!(ids, (0..96).collect::<Vec<u8>>());
}
