//! The rules of a tile game for three seats, and robots that play it.
//!
//! The table ([`game::GameState`]) deals 96 tiles of 24 kinds, lets the seats draw and
//! discard in turn, offers claims on discards (a quadlet before a triplet, the next seat
//! before the seat before), and ends the hand with a win or with the deck used up. What a
//! seat asks of the table comes as a [`message::ClientMessage`]; what the seats are told
//! goes out as [`message::ServerMessage`]s. Robots play by a [`agent::Strategy`].
//!
//! Everything here is verified but the draws of [`chance`], which are taken on trust.
//! [`theorems`] states what holds of every hand.

pub mod agent;
pub mod card;
pub mod chance;
pub mod game;
pub mod heuristic;
pub mod message;
pub mod policy;
pub mod room;
pub mod session;
pub mod table;
pub mod tally;
pub mod theorems;
pub mod train;
pub mod win;
