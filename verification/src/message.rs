//! What the seats ask of the table, what they are told, and why the table refuses.

use vstd::prelude::*;
use crate::card::Card;

verus! {

/// What the seat whose turn it is has before it.
#[derive(Clone, Copy, Debug, PartialEq, Eq, Structural)]
pub enum Mode {
    /// A quadlet on the tile is offered to the seat.
    Pao(Card),
    /// A triplet on the tile is offered to the seat.
    Ding(Card),
    /// An ordinary turn: draw, then discard.
    Normal,
}

/// What a seat's connection asks of the table.
#[derive(Clone, Copy, Debug, PartialEq, Eq, Structural)]
pub enum ClientMessage {
    Ready(bool),
    Test(bool),
    AddRobot(bool),
    Start(bool),
    Discard { card: Card },
    Ding { confirm: bool },
    Pao { confirm: bool },
}

/// What the table tells the seats. `to` names the one seat a notice is for; a notice without
/// it is for all.
#[derive(Debug, PartialEq, Eq)]
pub enum ServerMessage {
    Turn { to: Option<u8>, turn: u8, mode: Mode },
    Initial { to: Option<u8>, cur_turn: u8, hand: Vec<Card> },
    Draw { to: Option<u8>, card: Card },
    Pao { to: Option<u8>, card: Card },
    Ding { to: Option<u8>, card: Card },
    Discard { to: Option<u8>, card: Card },
    Hu { to: Option<u8> },
    End { to: Option<u8> },
}

/// Why the table refused what it was asked. A refusal leaves the table as it was.
#[derive(Clone, Copy, Debug, PartialEq, Eq, Structural)]
pub enum GameError {
    /// A hand starts with three seats; the table has `count`.
    WrongPlayers { count: usize },
    /// The seat does not hold the tile it wants to discard.
    CardNotFound { card: Card, player: usize },
    /// A triplet was answered, and no triplet is offered.
    NotDing { mode: Mode },
    /// A quadlet was answered, and no quadlet is offered.
    NotPao { mode: Mode },
    /// The table has no such seat.
    NoSuchSeat { player: usize },
    /// It is not for this seat to act.
    NotYourTurn { player: usize },
    /// No hand is being played.
    NoHand,
    /// A hand is being played.
    HandInProgress,
}

impl ServerMessage {
    /// The seat the notice is for, if it is for one alone.
    pub open spec fn addressee(&self) -> Option<u8> {
        match self {
            ServerMessage::Turn { to, .. } => *to,
            ServerMessage::Initial { to, .. } => *to,
            ServerMessage::Draw { to, .. } => *to,
            ServerMessage::Discard { to, .. } => *to,
            ServerMessage::Pao { to, .. } => *to,
            ServerMessage::Ding { to, .. } => *to,
            ServerMessage::Hu { to } => *to,
            ServerMessage::End { to } => *to,
        }
    }

    /// Whether the notice is for all seats.
    pub fn is_broadcast(&self) -> (all: bool)
        ensures
            all == (self.addressee() is None),
    {
        match self {
            ServerMessage::Turn { to, .. } => to.is_none(),
            ServerMessage::Initial { to, .. } => to.is_none(),
            ServerMessage::Draw { to, .. } => to.is_none(),
            ServerMessage::Discard { to, .. } => to.is_none(),
            ServerMessage::Pao { to, .. } => to.is_none(),
            ServerMessage::Ding { to, .. } => to.is_none(),
            ServerMessage::Hu { to } => to.is_none(),
            ServerMessage::End { to } => to.is_none(),
        }
    }

    /// The seat the notice is for, if it is for one alone.
    pub fn to(&self) -> (seat: Option<u8>)
        ensures
            seat == self.addressee(),
    {
        match self {
            ServerMessage::Turn { to, .. } => *to,
            ServerMessage::Initial { to, .. } => *to,
            ServerMessage::Draw { to, .. } => *to,
            ServerMessage::Discard { to, .. } => *to,
            ServerMessage::Pao { to, .. } => *to,
            ServerMessage::Ding { to, .. } => *to,
            ServerMessage::Hu { to } => *to,
            ServerMessage::End { to } => *to,
        }
    }
}

} // verus!
