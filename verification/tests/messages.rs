use mahjong_engine::card::Card;
use mahjong_engine::message::Mode;
use mahjong_engine::message::ServerMessage;
use mahjong_engine::room::User;

#[test]
fn notice_without_a_seat_is_for_all() {
    let all = [
        ServerMessage::Turn { to: None, turn: 1, mode: Mode::Normal },
        ServerMessage::Initial { to: None, cur_turn: 0, hand: vec![Card(1)] },
        ServerMessage::Draw { to: None, card: Card(5) },
        ServerMessage::Pao { to: None, card: Card(5) },
        ServerMessage::Ding { to: None, card: Card(5) },
        ServerMessage::Discard { to: None, card: Card(5) },
        ServerMessage::Hu { to: None },
        ServerMessage::End { to: None },
    ];
    for notice in &all {
        assert!(notice.is_broadcast());
        assert_eq!(notice.to(), None);
    }
}

#[test]
fn notice_with_a_seat_is_for_that_seat() {
    let one = [
        ServerMessage::Turn { to: Some(0), turn: 1, mode: Mode::Ding(Card(3)) },
        ServerMessage::Initial { to: Some(1), cur_turn: 0, hand: vec![] },
        ServerMessage::Draw { to: Some(2), card: Card(5) },
        ServerMessage::Pao { to: Some(3), card: Card(5) },
        ServerMessage::Ding { to: Some(4), card: Card(5) },
        ServerMessage::Discard { to: Some(5), card: Card(5) },
        ServerMessage::Hu { to: Some(6) },
        ServerMessage::End { to: Some(7) },
    ];
    for (seat, notice) in one.iter().enumerate() {
        assert!(!notice.is_broadcast());
        assert_eq!(notice.to(), Some(seat as u8));
    }
}

#[test]
fn user_is_known_by_name() {
    let user = User::new("ada");
    assert_eq!(user.name(), "ada");
    assert!(user == User::new("ada"));
    assert!(user != User::new("bob"));
    assert_eq!(User::new("").name(), "");
}
