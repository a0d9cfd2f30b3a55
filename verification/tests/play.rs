use mahjong_engine::agent::Agent;
use mahjong_engine::agent::Strategy;
use mahjong_engine::card::Card;
use mahjong_engine::card::Pairing;
use mahjong_engine::game::GameState;
use mahjong_engine::game::NO_WINNER;
use mahjong_engine::message::ClientMessage;
use mahjong_engine::message::Mode;
use mahjong_engine::message::ServerMessage;

fn appraise(seat: &Agent, group: &Vec<Card>) -> usize {
    group.iter().map(|c| 4 - seat.prob[(c.0 / 4) as usize].min(4) as usize).sum()
}

/// A small generator of numbers, so that the games differ and can be played again.
struct Dice(u64);

impl Dice {
    fn roll(&mut self, sides: usize) -> usize {
        self.0 = self.0.wrapping_mul(6364136223846793005).wrapping_add(1442695040888963407);
        ((self.0 >> 33) as usize) % sides
    }
}

fn of_kind(tiles: &Vec<Card>, kind: u8) -> usize {
    tiles.iter().filter(|c| c.0 / 4 == kind).count()
}

fn melded(melds: &Vec<Pairing>, kind: u8) -> usize {
    melds
        .iter()
        .map(|meld| match meld {
            Pairing::Triplet(c) if c.0 / 4 == kind => 3,
            Pairing::Quadlet(c) if c.0 / 4 == kind => 4,
            _ => 0,
        })
        .sum()
}

/// What holds of a table at every point of a hand.
fn assert_in_order(table: &GameState) {
    let seats = table.players();
    assert_eq!(seats.len(), 3);
    assert!(table.turn() < 3);
    assert_eq!(table.winner(), None);
    for kind in 0..24 {
        let mut total = of_kind(table.remaining_cards(), kind);
        for seat in seats {
            total += of_kind(&seat.hand, kind) + of_kind(&seat.out, kind)
                + melded(&seat.pairing, kind);
        }
        assert_eq!(total, 4, "kind {}", kind);
    }
    for (place, seat) in seats.iter().enumerate() {
        let right = &seats[(place + 1) % 3];
        let left = &seats[(place + 2) % 3];
        assert_eq!(seat.player_right_pairing, right.pairing);
        assert_eq!(seat.player_left_pairing, left.pairing);
        let held = seat.hand.len() + 3 * seat.pairing.len();
        let may_hold_twenty = place == table.turn() as usize && table.mode() == Mode::Normal;
        assert!(held == 19 || (held == 20 && may_hold_twenty), "seat {} holds {}", place, held);
        let mut unseen = 0u32;
        for kind in 0..24u8 {
            let seen = of_kind(&seat.hand, kind)
                + of_kind(&seat.out, kind)
                + of_kind(&seat.player_left_out, kind)
                + of_kind(&seat.player_right_out, kind)
                + melded(&seat.pairing, kind)
                + melded(&seat.player_left_pairing, kind)
                + melded(&seat.player_right_pairing, kind);
            assert!(seen <= 4);
            assert!(of_kind(&seat.player_right_out, kind) <= of_kind(&right.out, kind));
            assert!(of_kind(&seat.player_left_out, kind) <= of_kind(&left.out, kind));
            assert_eq!(seat.prob[kind as usize] as usize, 4 - seen);
            unseen += seat.prob[kind as usize] as u32;
        }
        assert_eq!(seat.remaining as u32, unseen);
        for tile in &seat.hand {
            assert!(tile.0 < 96);
        }
    }
    match table.mode() {
        Mode::Normal => {}
        Mode::Ding(card) => {
            let seat = &seats[table.turn() as usize];
            assert_eq!(of_kind(&seat.hand, card.0 / 4), 2);
            let from = (table.prev_turn().unwrap() as usize + 2) % 3;
            assert_ne!(from, table.turn() as usize);
            assert_eq!(seats[from].out.last(), Some(&card));
        }
        Mode::Pao(card) => {
            let seat = &seats[table.turn() as usize];
            assert_eq!(of_kind(&seat.hand, card.0 / 4), 3);
            let from = (table.prev_turn().unwrap() as usize + 2) % 3;
            assert_ne!(from, table.turn() as usize);
            assert_eq!(seats[from].out.last(), Some(&card));
        }
    }
}

/// Plays one hand to its end; the humans answer and discard by the dice.
fn play(table: &mut GameState, dice: &mut Dice) -> u8 {
    let mut told = table.handle_message(0, ClientMessage::Start(true), &appraise).unwrap();
    let mut steps = 0;
    loop {
        steps += 1;
        assert!(steps < 1000);
        if !table.is_playing() {
            let winner = table.winner().unwrap();
            let ends: Vec<&ServerMessage> = told
                .iter()
                .filter(|m| matches!(m, ServerMessage::Hu { .. } | ServerMessage::End { .. }))
                .collect();
            assert_eq!(ends.len(), 1);
            if winner == NO_WINNER {
                assert_eq!(*ends[0], ServerMessage::End { to: None });
            } else {
                assert!(winner < 3);
                assert_eq!(*ends[0], ServerMessage::Hu { to: None });
            }
            for seat in table.players() {
                assert!(seat.hand.is_empty() && seat.out.is_empty() && seat.pairing.is_empty());
            }
            assert_eq!(table.remaining_cards().len(), 96);
            return winner;
        }
        assert_in_order(table);
        let seat = table.turn();
        assert!(!table.players()[seat as usize].is_robot);
        let answer = match table.mode() {
            Mode::Normal => {
                let hand = &table.players()[seat as usize].hand;
                assert_eq!(hand.len() + 3 * table.players()[seat as usize].pairing.len(), 20);
                let card = hand[dice.roll(hand.len())];
                ClientMessage::Discard { card }
            }
            Mode::Ding(_) => ClientMessage::Ding { confirm: dice.roll(2) == 1 },
            Mode::Pao(_) => ClientMessage::Pao { confirm: dice.roll(2) == 1 },
        };
        told = table.handle_message(seat, answer, &appraise).unwrap();
    }
}

#[test]
fn hands_of_one_human_and_two_robots_stay_in_order() {
    let mut dice = Dice(7);
    let mut table = GameState::default();
    table.add_player();
    table.add_robot();
    table.add_robot();
    table.set_strategy(2, Strategy::Random);
    let mut ended = [0usize; 4];
    for _ in 0..60 {
        let winner = play(&mut table, &mut dice);
        ended[if winner == NO_WINNER { 3 } else { winner as usize }] += 1;
    }
    assert_eq!(ended.iter().sum::<usize>(), 60);
    // more hands end with the deck used up than with a win
    assert!(ended[3] > 0);
}

#[test]
fn hands_of_three_humans_stay_in_order() {
    let mut dice = Dice(11);
    let mut table = GameState::default();
    for _ in 0..3 {
        table.add_player();
    }
    for _ in 0..40 {
        play(&mut table, &mut dice);
    }
}

#[test]
fn hands_of_the_known_deal_stay_in_order() {
    let mut dice = Dice(13);
    let mut table = GameState::default();
    table.set_test();
    table.add_robot();
    table.add_player();
    table.add_robot();
    assert_eq!(table.players()[0].strategy, Strategy::Test);
    for _ in 0..20 {
        play(&mut table, &mut dice);
    }
}

#[test]
fn human_that_takes_a_triplet_owes_a_discard() {
    // in the known deal the seat 0 discards the tile 57, the robot 1 the tile 19; the human
    // declines the quadlet, the robot 2 discards the tile 38, which the robot 1 takes
    let mut table = GameState::default();
    table.set_test();
    table.add_player();
    table.add_robot();
    table.add_player();
    let told = table.handle_message(0, ClientMessage::Start(true), &appraise).unwrap();
    assert_eq!(told.last(), Some(&ServerMessage::Draw { to: Some(0), card: Card(57) }));
    // the seat 0 gives away the tile 16: the seat 1 holds the tile 19 alone, the seat 2 none
    let told =
        table.handle_message(0, ClientMessage::Discard { card: Card(16) }, &appraise).unwrap();
    assert_eq!(told[0], ServerMessage::Turn { to: None, turn: 1, mode: Mode::Normal });
    // the robot 1 has drawn the tile 58 and given away the tile 19; the seat 0 holds 17 and 18
    assert_eq!(told[1], ServerMessage::Discard { to: Some(2), card: Card(19) });
    assert_eq!(told[2], ServerMessage::Discard { to: Some(0), card: Card(19) });
    assert_eq!(told[3], ServerMessage::Turn { to: None, turn: 0, mode: Mode::Ding(Card(19)) });
    assert_eq!(told.len(), 4);
    assert_in_order(&table);
    let told = table.handle_message(0, ClientMessage::Ding { confirm: true }, &appraise).unwrap();
    assert_eq!(told, vec![ServerMessage::Ding { to: None, card: Card(19) }]);
    assert_in_order(&table);
    let seat = &table.players()[0];
    assert_eq!(seat.pairing, vec![Pairing::Triplet(Card(19))]);
    assert_eq!(seat.hand.len(), 17);
    assert!(!seat.hand.contains(&Card(17)) && !seat.hand.contains(&Card(18)));
    assert_eq!(table.players()[1].out, vec![]);
    assert_eq!(table.players()[2].player_left_out, vec![]);
    assert_eq!(table.mode(), Mode::Normal);
    assert_eq!(table.turn(), 0);
    // the seat owes a discard and draws no tile first
    let told =
        table.handle_message(0, ClientMessage::Discard { card: Card(0) }, &appraise).unwrap();
    assert_eq!(told[0], ServerMessage::Turn { to: None, turn: 1, mode: Mode::Normal });
    assert_in_order(&table);
}

#[test]
fn won_hand_is_told_and_recorded() {
    let by_belief = |seat: &Agent, group: &Vec<Card>| {
        group.iter().map(|c| seat.prob[(c.0 / 4) as usize] as usize).sum::<usize>()
    };
    let mut table = GameState::default();
    for _ in 0..3 {
        table.add_robot();
    }
    table.set_strategy(1, Strategy::Random);
    table.set_strategy(2, Strategy::Random);
    let mut won = 0;
    for _ in 0..1000 {
        let told = table.handle_message(0, ClientMessage::Start(true), &by_belief).unwrap();
        assert!(!table.is_playing());
        let winner = table.winner().unwrap();
        let ended = &told[told.len() - 2];
        if winner == NO_WINNER {
            assert_eq!(*ended, ServerMessage::End { to: None });
        } else {
            assert!(winner < 3);
            assert_eq!(*ended, ServerMessage::Hu { to: None });
            won += 1;
        }
        assert_eq!(
            told[told.len() - 1],
            ServerMessage::Turn { to: None, turn: 0, mode: Mode::Normal }
        );
    }
    assert!(won > 0);
}
