use mahjong_engine::agent::Agent;
use mahjong_engine::card::Card;
use mahjong_engine::card::Pairing;
use mahjong_engine::game::GameState;
use mahjong_engine::game::NO_WINNER;
use mahjong_engine::message::ClientMessage;
use mahjong_engine::message::GameError;
use mahjong_engine::message::Mode;
use mahjong_engine::message::ServerMessage;

fn appraise(_seat: &Agent, group: &Vec<Card>) -> usize {
    group.len()
}

/// What the connection of a seat gets to hear: what is for all and what is for it.
fn heard_by(id: u8, told: Vec<ServerMessage>) -> Vec<ServerMessage> {
    told.into_iter().filter(|m| m.is_broadcast() || m.to() == Some(id)).collect()
}

/// A table with one human, in the known deal, and two robots, the hand started.
fn known_table() -> (GameState, Vec<ServerMessage>) {
    let mut table = GameState::default();
    table.add_player();
    assert_eq!(table.handle_message(0, ClientMessage::Test(true), &appraise), Ok(vec![]));
    assert_eq!(table.handle_message(0, ClientMessage::Ready(true), &appraise), Ok(vec![]));
    for _ in 0..2 {
        assert_eq!(table.handle_message(0, ClientMessage::AddRobot(true), &appraise), Ok(vec![]));
    }
    let told = table.handle_message(0, ClientMessage::Start(true), &appraise).unwrap();
    (table, told)
}

fn cards(range: std::ops::Range<u8>) -> Vec<Card> {
    range.map(|n| Card(n)).collect()
}

/// The copies of a kind in the hands, on the piles, in the melds and in the deck.
fn census(table: &GameState, kind: u8) -> usize {
    let of_kind = |tiles: &Vec<Card>| tiles.iter().filter(|c| c.0 / 4 == kind).count();
    let mut total = of_kind(table.remaining_cards());
    for seat in table.players() {
        total += of_kind(&seat.hand) + of_kind(&seat.out);
        for meld in &seat.pairing {
            match meld {
                Pairing::Triplet(c) => {
                    if c.0 / 4 == kind {
                        total += 3
                    }
                }
                Pairing::Quadlet(c) => {
                    if c.0 / 4 == kind {
                        total += 4
                    }
                }
            }
        }
    }
    total
}

fn assert_conserved(table: &GameState) {
    for kind in 0..24 {
        assert_eq!(census(table, kind), 4, "kind {}", kind);
    }
}

#[test]
fn basic_test1() {
    let (mut table, told) = known_table();
    let initial_hand: Vec<Card> = (0..19).into_iter().map(|n| Card(n)).collect();
    assert_eq!(
        heard_by(0, told),
        vec![
            ServerMessage::Initial { to: Some(0), cur_turn: 0, hand: initial_hand },
            ServerMessage::Draw { to: Some(0), card: Card(57) },
        ]
    );
    assert_conserved(&table);

    let told = table
        .handle_message(0, ClientMessage::Discard { card: Card(57) }, &appraise)
        .unwrap();
    assert_eq!(
        heard_by(0, told),
        vec![
            ServerMessage::Turn { to: None, turn: 1, mode: Mode::Normal },
            ServerMessage::Discard { to: Some(0), card: Card(19) },
            ServerMessage::Turn { to: None, turn: 0, mode: Mode::Pao(Card(19)) },
        ]
    );
    assert_conserved(&table);

    let told = table.handle_message(0, ClientMessage::Pao { confirm: false }, &appraise).unwrap();
    assert_eq!(
        heard_by(0, told),
        vec![
            ServerMessage::Turn { to: None, turn: 2, mode: Mode::Normal },
            ServerMessage::Discard { to: Some(0), card: Card(38) },
            ServerMessage::Turn { to: None, turn: 1, mode: Mode::Ding(Card(38)) },
            ServerMessage::Ding { to: None, card: Card(38) },
            ServerMessage::Discard { to: Some(0), card: Card(20) },
            ServerMessage::Turn { to: None, turn: 2, mode: Mode::Normal },
            ServerMessage::Discard { to: Some(0), card: Card(39) },
            ServerMessage::Turn { to: None, turn: 0, mode: Mode::Normal },
            ServerMessage::Draw { to: Some(0), card: Card(61) },
        ]
    );
    assert_conserved(&table);
    assert_eq!(table.players()[1].pairing, vec![Pairing::Triplet(Card(38))]);
    // the claimed tile has left the pile of the seat that discarded it
    assert_eq!(table.players()[2].out, vec![Card(39)]);
    assert_eq!(table.players()[1].out, vec![Card(19), Card(20)]);
}

#[test]
fn basic_test2() {
    let (mut table, told) = known_table();
    let initial_hand: Vec<Card> = (0..19).into_iter().map(|n| Card(n)).collect();
    assert_eq!(
        heard_by(0, told),
        vec![
            ServerMessage::Initial { to: Some(0), cur_turn: 0, hand: initial_hand },
            ServerMessage::Draw { to: Some(0), card: Card(57) },
        ]
    );

    let told = table
        .handle_message(0, ClientMessage::Discard { card: Card(57) }, &appraise)
        .unwrap();
    assert_eq!(
        heard_by(0, told),
        vec![
            ServerMessage::Turn { to: None, turn: 1, mode: Mode::Normal },
            ServerMessage::Discard { to: Some(0), card: Card(19) },
            ServerMessage::Turn { to: None, turn: 0, mode: Mode::Pao(Card(19)) },
        ]
    );

    let told = table.handle_message(0, ClientMessage::Pao { confirm: true }, &appraise).unwrap();
    assert_eq!(
        heard_by(0, told),
        vec![
            ServerMessage::Pao { to: None, card: Card(19) },
            ServerMessage::Draw { to: Some(0), card: Card(59) },
        ]
    );
    // the quadlet has taken the three tiles of the kind out of the hand
    let mut hand = cards(0..16);
    hand.push(Card(59));
    assert_eq!(table.players()[0].hand, hand);
    assert_eq!(table.players()[0].pairing, vec![Pairing::Quadlet(Card(19))]);
    assert_eq!(table.players()[1].out, vec![]);
    assert_eq!(table.players()[1].player_left_pairing, vec![Pairing::Quadlet(Card(19))]);
    assert_eq!(table.players()[2].player_right_pairing, vec![Pairing::Quadlet(Card(19))]);
    assert_conserved(&table);
}

#[test]
fn known_deal_gives_each_seat_its_nineteen_tiles() {
    let (table, told) = known_table();
    assert_eq!(told.len(), 4);
    assert_eq!(
        told[1],
        ServerMessage::Initial { to: Some(1), cur_turn: 0, hand: cards(19..38) }
    );
    assert_eq!(
        told[2],
        ServerMessage::Initial { to: Some(2), cur_turn: 0, hand: cards(38..57) }
    );
    assert_eq!(table.jing(), Card(95));
    assert_eq!(table.turn(), 0);
    assert_eq!(table.mode(), Mode::Normal);
    assert_eq!(table.winner(), None);
    assert!(table.is_playing());
    // the human has drawn the tile 57; the deck goes on with 58
    assert_eq!(table.remaining_cards().len(), 38);
    assert_eq!(table.remaining_cards().last(), Some(&Card(58)));
    assert_eq!(table.hand_of_player(1), cards(19..38));
    for seat in table.players() {
        assert_eq!(seat.jing, Card(95));
    }
}

#[test]
fn start_needs_three_seats() {
    let mut table = GameState::default();
    table.add_player();
    table.add_robot();
    assert_eq!(
        table.handle_message(0, ClientMessage::Start(true), &appraise),
        Err(GameError::WrongPlayers { count: 2 })
    );
    assert_eq!(table.start(), Err(GameError::WrongPlayers { count: 2 }));
    assert!(!table.is_playing());
    assert_eq!(table.players().len(), 2);
}

#[test]
fn start_is_refused_while_a_hand_is_played() {
    let (mut table, _) = known_table();
    assert_eq!(
        table.handle_message(0, ClientMessage::Start(true), &appraise),
        Err(GameError::HandInProgress)
    );
    assert_eq!(
        table.handle_message(0, ClientMessage::AddRobot(true), &appraise),
        Err(GameError::HandInProgress)
    );
    assert_eq!(table.remaining_cards().len(), 38);
}

#[test]
fn discard_of_a_tile_not_in_hand_is_refused() {
    let (mut table, _) = known_table();
    assert_eq!(
        table.handle_message(0, ClientMessage::Discard { card: Card(90) }, &appraise),
        Err(GameError::CardNotFound { card: Card(90), player: 0 })
    );
    assert_eq!(table.players()[0].hand.len(), 20);
    assert_eq!(table.turn(), 0);
    assert_conserved(&table);
}

#[test]
fn discard_out_of_turn_is_refused() {
    let (mut table, _) = known_table();
    assert_eq!(
        table.handle_message(1, ClientMessage::Discard { card: Card(19) }, &appraise),
        Err(GameError::NotYourTurn { player: 1 })
    );
    assert_eq!(
        table.handle_message(7, ClientMessage::Discard { card: Card(19) }, &appraise),
        Err(GameError::NoSuchSeat { player: 7 })
    );
    // a seat that has discarded cannot discard again
    table.handle_message(0, ClientMessage::Discard { card: Card(57) }, &appraise).unwrap();
    assert_eq!(
        table.handle_message(0, ClientMessage::Discard { card: Card(0) }, &appraise),
        Err(GameError::NotYourTurn { player: 0 })
    );
}

#[test]
fn discard_without_a_hand_is_refused() {
    let mut table = GameState::default();
    table.add_player();
    assert_eq!(
        table.handle_message(0, ClientMessage::Discard { card: Card(0) }, &appraise),
        Err(GameError::NoHand)
    );
    assert_eq!(
        table.handle_message(0, ClientMessage::Ding { confirm: true }, &appraise),
        Err(GameError::NoHand)
    );
}

#[test]
fn answer_outside_a_claim_is_refused() {
    let (mut table, _) = known_table();
    assert_eq!(
        table.handle_message(0, ClientMessage::Ding { confirm: true }, &appraise),
        Err(GameError::NotDing { mode: Mode::Normal })
    );
    assert_eq!(
        table.handle_message(0, ClientMessage::Pao { confirm: false }, &appraise),
        Err(GameError::NotPao { mode: Mode::Normal })
    );
    table.handle_message(0, ClientMessage::Discard { card: Card(57) }, &appraise).unwrap();
    assert_eq!(table.mode(), Mode::Pao(Card(19)));
    assert_eq!(
        table.handle_message(0, ClientMessage::Ding { confirm: true }, &appraise),
        Err(GameError::NotDing { mode: Mode::Pao(Card(19)) })
    );
    assert_eq!(
        table.handle_message(1, ClientMessage::Pao { confirm: true }, &appraise),
        Err(GameError::NotYourTurn { player: 1 })
    );
    // nothing has changed: the claim is still offered
    assert_eq!(table.mode(), Mode::Pao(Card(19)));
    assert_eq!(table.turn(), 0);
    assert_eq!(table.prev_turn(), Some(2));
}

#[test]
fn ready_marks_the_seat() {
    let mut table = GameState::default();
    table.add_player();
    assert!(!table.players()[0].ready);
    table.handle_message(0, ClientMessage::Ready(true), &appraise).unwrap();
    assert!(table.players()[0].ready);
    assert_eq!(
        table.handle_message(3, ClientMessage::Ready(true), &appraise),
        Err(GameError::NoSuchSeat { player: 3 })
    );
}

#[test]
fn robots_sit_down_ready_with_the_strategy_of_the_table() {
    let mut table = GameState::default();
    table.add_robot();
    table.set_test();
    assert!(table.is_test());
    table.add_robot();
    let seats = table.players();
    assert!(seats[0].is_robot && seats[0].ready);
    assert_eq!(seats[0].strategy, mahjong_engine::agent::Strategy::Level1);
    assert_eq!(seats[1].strategy, mahjong_engine::agent::Strategy::Test);
    assert!(!table.is_robot_turn() || seats[0].is_robot);
}

#[test]
fn hand_of_robots_runs_to_its_end() {
    let mut table = GameState::default();
    table.set_test();
    for _ in 0..3 {
        table.add_robot();
    }
    let told = table.handle_message(0, ClientMessage::Start(true), &appraise).unwrap();
    assert!(!table.is_playing());
    // robots that always give away their first tile win nothing: the deck is used up
    assert_eq!(table.winner(), Some(NO_WINNER));
    assert_eq!(told[told.len() - 2], ServerMessage::End { to: None });
    assert_eq!(
        told[told.len() - 1],
        ServerMessage::Turn { to: None, turn: 0, mode: Mode::Normal }
    );
    // the first robot has taken its turn right after the deal
    assert_eq!(told[3], ServerMessage::Turn { to: None, turn: 1, mode: Mode::Normal });
    // the table is at rest: the seats hold nothing and the deck is whole
    assert_eq!(*table.remaining_cards(), cards(0..96));
    for seat in table.players() {
        assert!(seat.hand.is_empty() && seat.out.is_empty() && seat.pairing.is_empty());
        assert!(seat.is_robot);
    }
    // and a new hand can be started
    table.handle_message(0, ClientMessage::Start(true), &appraise).unwrap();
}

#[test]
fn shuffled_deal_keeps_four_of_every_kind() {
    let mut table = GameState::default();
    for _ in 0..3 {
        table.add_player();
    }
    assert_eq!(table.start(), Ok(()));
    assert!(table.turn() < 3);
    assert!(table.jing().0 < 96);
    assert_eq!(table.remaining_cards().len(), 39);
    for seat in table.players() {
        assert_eq!(seat.hand.len(), 19);
    }
    assert_conserved(&table);
    let mut all: Vec<u8> = table.remaining_cards().iter().map(|c| c.0).collect();
    for seat in table.players() {
        all.extend(seat.hand.iter().map(|c| c.0));
    }
    all.sort();
    assert_eq!(all, (0..96).collect::<Vec<u8>>());
}

#[test]
fn leaving_seat_ends_the_hand() {
    let (mut table, _) = known_table();
    table.remove_player(0);
    assert!(!table.is_playing());
    assert_eq!(table.winner(), Some(NO_WINNER));
    assert_eq!(table.players().len(), 2);
    assert!(table.players()[0].is_robot);
    table.end();
    assert_eq!(table.winner(), Some(NO_WINNER));
}

#[test]
fn declined_triplet_passes_the_turn_to_the_next_seat() {
    // seat 0 discards the tile 18; no seat holds two or three of its kind but seat 1,
    // which holds the tile 19 alone: the turn passes on without a claim
    let (mut table, _) = known_table();
    let told =
        table.handle_message(0, ClientMessage::Discard { card: Card(18) }, &appraise).unwrap();
    assert_eq!(told[0], ServerMessage::Turn { to: None, turn: 1, mode: Mode::Normal });
    assert_conserved(&table);
}
