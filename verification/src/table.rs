//! The tiles on a table of three seats: what order they are in, and how a draw, a discard
//! and a claim move them.

use vstd::prelude::*;
use crate::agent::Agent;
use crate::agent::claim::retracted;
use crate::card::Card;
use crate::card::Pairing;
use crate::message::Mode;
use crate::message::ServerMessage;
use crate::tally::copies;
use crate::tally::melded;
use crate::tally::without_kind;

pub mod order;

verus! {

/// The tiles a seat has before it: its hand, its pile, its melds, and what it remembers of
/// the piles and melds of the seats to its right and to its left.
#[verifier::ext_equal]
pub struct Piles {
    pub hand: Seq<Card>,
    pub out: Seq<Card>,
    pub pairing: Seq<Pairing>,
    pub right_out: Seq<Card>,
    pub right_pairing: Seq<Pairing>,
    pub left_out: Seq<Card>,
    pub left_pairing: Seq<Pairing>,
}

impl Agent {
    /// The tiles the seat has before it.
    pub open spec fn piles(&self) -> Piles {
        Piles {
            hand: self.hand@,
            out: self.out@,
            pairing: self.pairing@,
            right_out: self.player_right_out@,
            right_pairing: self.player_right_pairing@,
            left_out: self.player_left_out@,
            left_pairing: self.player_left_pairing@,
        }
    }
}

/// The tiles before each seat of a row of seats.
pub open spec fn piles_of(seats: Seq<Agent>) -> Seq<Piles> {
    Seq::new(seats.len(), |seat: int| seats[seat].piles())
}

/// The whole deck in order: the tiles 0 to 95.
pub open spec fn fresh_deck() -> Seq<Card> {
    Seq::new(96, |id: int| Card(id as u8))
}

/// The seat to the right of a seat: the next to play.
pub open spec fn right_of(seat: int) -> int {
    (seat + 1) % 3
}

/// The seat to the left of a seat: the one that played before.
pub open spec fn left_of(seat: int) -> int {
    (seat + 2) % 3
}

/// The copies of a kind that a seat owns: in its hand, on its pile and in its melds.
pub open spec fn owned(seat: Piles, kind: int) -> nat {
    copies(seat.hand, kind) + copies(seat.out, kind) + melded(seat.pairing, kind)
}

/// All the copies of a kind on a table of three seats: those the seats own and those in the
/// deck.
pub open spec fn census(table: Seq<Piles>, stock: Seq<Card>, kind: int) -> nat {
    owned(table[0], kind) + owned(table[1], kind) + owned(table[2], kind) + copies(stock, kind)
}

/// Of every kind four copies are on the table.
pub open spec fn conserved(table: Seq<Piles>, stock: Seq<Card>) -> bool {
    forall|kind: int| 0 <= kind < 24 ==> census(table, stock, kind) == 4
}

/// What a seat knows of its neighbours is true: it knows their melds, and every discard it
/// remembers lies on their piles.
pub open spec fn mirrored(table: Seq<Piles>, seat: int) -> bool {
    let me = table[seat];
    let right = table[right_of(seat)];
    let left = table[left_of(seat)];
    &&& me.right_pairing == right.pairing
    &&& me.left_pairing == left.pairing
    &&& forall|kind: int| 0 <= kind < 24 ==> copies(me.right_out, kind) <= copies(right.out, kind)
    &&& forall|kind: int| 0 <= kind < 24 ==> copies(me.left_out, kind) <= copies(left.out, kind)
}

/// Every tile of the pile is one of the 96.
pub open spec fn all_in_deck(tiles: Seq<Card>) -> bool {
    forall|i: int| 0 <= i < tiles.len() ==> (#[trigger] tiles[i]).in_deck()
}

/// The tiles of a table of three seats are in order: four copies of every kind are about,
/// the seats know of each other only what is true, and every tile in the deck and in the
/// hands is one of the 96.
#[verifier::opaque]
pub open spec fn tiles_ok(table: Seq<Piles>, stock: Seq<Card>) -> bool {
    &&& table.len() == 3
    &&& conserved(table, stock)
    &&& mirrored(table, 0)
    &&& mirrored(table, 1)
    &&& mirrored(table, 2)
    &&& all_in_deck(stock)
    &&& all_in_deck(table[0].hand)
    &&& all_in_deck(table[1].hand)
    &&& all_in_deck(table[2].hand)
}

/// What a seat holds, a meld counted as three tiles.
pub open spec fn holding(seat: Piles) -> nat {
    seat.hand.len() + 3 * seat.pairing.len()
}

/// Whether a seat holds what it may: nineteen tiles, or the twentieth if its ordinary turn
/// it is.
pub open spec fn holds_right(table: Seq<Piles>, seat: int, turn: int, offer: Mode) -> bool {
    holding(table[seat]) == 19 || (seat == turn && offer == Mode::Normal && holding(table[seat])
        == 20)
}

/// Every seat holds nineteen tiles; only the seat whose ordinary turn it is may hold the
/// twentieth.
pub open spec fn sized(table: Seq<Piles>, turn: int, offer: Mode) -> bool {
    &&& holds_right(table, 0, turn, offer)
    &&& holds_right(table, 1, turn, offer)
    &&& holds_right(table, 2, turn, offer)
}

/// The tile is the last discard of the seat: on top of its pile, and on top of what its
/// neighbours remember of it.
pub open spec fn on_top(table: Seq<Piles>, seat: int, card: Card) -> bool {
    let pile = table[seat].out;
    let at_right = table[right_of(seat)].left_out;
    let at_left = table[left_of(seat)].right_out;
    &&& pile.len() > 0 && pile.last() == card
    &&& at_right.len() > 0 && at_right.last() == card
    &&& at_left.len() > 0 && at_left.last() == card
}

/// A claim of `count` tiles on `card` is rightly offered: to another seat than the one that
/// discarded it, which holds that many of the kind, and the tile is the last discard.
pub open spec fn claimable(
    table: Seq<Piles>,
    turn: int,
    resume: Option<u8>,
    card: Card,
    count: nat,
) -> bool {
    &&& resume is Some
    &&& resume->0 < 3
    &&& left_of(resume->0 as int) != turn
    &&& on_top(table, left_of(resume->0 as int), card)
    &&& copies(table[turn].hand, card.kind()) == count
}

/// What is offered is rightly offered.
pub open spec fn offer_wf(table: Seq<Piles>, turn: int, resume: Option<u8>, offer: Mode) -> bool {
    match offer {
        Mode::Normal => true,
        Mode::Ding(card) => claimable(table, turn, resume, card, 2),
        Mode::Pao(card) => claimable(table, turn, resume, card, 3),
    }
}

/// Every one of three seats believes what it sees.
pub open spec fn believed(seats: Seq<Agent>) -> bool {
    &&& seats[0].informed()
    &&& seats[1].informed()
    &&& seats[2].informed()
}

/// The table between hands: the deck whole and in order, the seats holding nothing.
pub open spec fn at_rest(
    seats: Seq<Agent>,
    stock: Seq<Card>,
    turn: int,
    resume: Option<u8>,
    offer: Mode,
) -> bool {
    &&& stock == fresh_deck()
    &&& offer == Mode::Normal
    &&& turn == 0
    &&& resume is None
    &&& forall|seat: int| 0 <= seat < seats.len() ==> (#[trigger] seats[seat]).is_cleared()
}

/// The table while a hand is played.
pub open spec fn in_play(
    seats: Seq<Agent>,
    stock: Seq<Card>,
    turn: int,
    resume: Option<u8>,
    offer: Mode,
    outcome: Option<u8>,
) -> bool {
    &&& seats.len() == 3
    &&& 0 <= turn < 3
    &&& outcome is None
    &&& tiles_ok(piles_of(seats), stock)
    &&& sized(piles_of(seats), turn, offer)
    &&& offer_wf(piles_of(seats), turn, resume, offer)
    &&& believed(seats)
}

/// Twice the tiles in the deck and in the hands, and one more while a claim is offered.
pub open spec fn fuel_of(table: Seq<Piles>, stock: Seq<Card>, offer: Mode) -> nat {
    2 * (stock.len() + table[0].hand.len() + table[1].hand.len() + table[2].hand.len())
        + if offer == Mode::Normal {
        0nat
    } else {
        1nat
    }
}

/// Who sits on a seat and how it plays is the same for both.
pub open spec fn same_role(before: Agent, after: Agent) -> bool {
    &&& before.round == after.round
    &&& before.turn == after.turn
    &&& before.is_robot == after.is_robot
    &&& before.ready == after.ready
    &&& before.strategy == after.strategy
    &&& before.jing == after.jing
}

/// Who sits on the three seats and how they play is the same for both rows.
pub open spec fn roles_kept(before: Seq<Agent>, after: Seq<Agent>) -> bool {
    &&& before.len() == 3
    &&& after.len() == 3
    &&& same_role(before[0], after[0])
    &&& same_role(before[1], after[1])
    &&& same_role(before[2], after[2])
}

/// Who is offered what after a discard by the seat `turn`, where the next seat holds
/// `next_holds` tiles of its kind and the seat before holds `prev_holds`. A quadlet goes
/// before a triplet, and the next seat before the seat before; with no claim the next seat
/// has an ordinary turn.
pub open spec fn claim_order(turn: int, next_holds: nat, prev_holds: nat, card: Card) -> (
    int,
    Mode,
) {
    if next_holds == 3 {
        (right_of(turn), Mode::Pao(card))
    } else if prev_holds == 3 {
        (left_of(turn), Mode::Pao(card))
    } else if next_holds == 2 {
        (right_of(turn), Mode::Ding(card))
    } else if prev_holds == 2 {
        (left_of(turn), Mode::Ding(card))
    } else {
        (right_of(turn), Mode::Normal)
    }
}

/// The meld of an offered claim.
pub open spec fn meld_of(offer: Mode) -> Pairing {
    match offer {
        Mode::Pao(card) => Pairing::Quadlet(card),
        Mode::Ding(card) => Pairing::Triplet(card),
        Mode::Normal => Pairing::Triplet(Card(0)),
    }
}

/// The table once the seat has drawn the tile.
pub open spec fn draw_piles(table: Seq<Piles>, seat: int, card: Card) -> Seq<Piles> {
    table.update(seat, Piles { hand: table[seat].hand.push(card), ..table[seat] })
}

/// The table once the seat has discarded the tile at `index` of its hand: the tile lies on
/// its pile, and its neighbours remember it.
pub open spec fn discard_piles(table: Seq<Piles>, seat: int, index: int) -> Seq<Piles> {
    let card = table[seat].hand[index];
    let right = right_of(seat);
    let left = left_of(seat);
    table.update(
        seat,
        Piles {
            hand: table[seat].hand.remove(index),
            out: table[seat].out.push(card),
            ..table[seat]
        },
    ).update(right, Piles { left_out: table[right].left_out.push(card), ..table[right] }).update(
        left,
        Piles { right_out: table[left].right_out.push(card), ..table[left] },
    )
}

/// What a seat has before it once the seat `claimer` has claimed, with the given meld, the
/// last discard of the seat `discarder`. The claimer melds its tiles of the kind and forgets
/// the tile on top of a neighbour's pile if it is of the kind. The tile leaves the pile of
/// the seat that discarded it, the third seat forgets it, and both learn of the meld.
pub open spec fn claim_at(
    then: Piles,
    seat: int,
    claimer: int,
    discarder: int,
    meld: Pairing,
) -> Piles {
    let kind = meld.card().kind();
    if seat == claimer {
        Piles {
            hand: without_kind(then.hand, kind),
            pairing: then.pairing.push(meld),
            right_out: retracted(then.right_out, kind),
            left_out: retracted(then.left_out, kind),
            ..then
        }
    } else if seat == discarder {
        if right_of(seat) == claimer {
            Piles {
                out: then.out.drop_last(),
                right_pairing: then.right_pairing.push(meld),
                ..then
            }
        } else {
            Piles { out: then.out.drop_last(), left_pairing: then.left_pairing.push(meld), ..then }
        }
    } else if right_of(seat) == claimer {
        Piles {
            left_out: then.left_out.drop_last(),
            right_pairing: then.right_pairing.push(meld),
            ..then
        }
    } else {
        Piles {
            right_out: then.right_out.drop_last(),
            left_pairing: then.left_pairing.push(meld),
            ..then
        }
    }
}

/// The table once the seat `claimer` has claimed, with the given meld, the last discard of
/// the seat `discarder`.
pub open spec fn claim_piles(table: Seq<Piles>, claimer: int, discarder: int, meld: Pairing) -> Seq<
    Piles,
> {
    Seq::new(3, |seat: int| claim_at(table[seat], seat, claimer, discarder, meld))
}

/// What the humans next to a seat are told of its claim: each of them the meld, for all to
/// hear, the seat to the right first.
pub open spec fn claim_notices(seats: Seq<Agent>, seat: int, meld: Pairing) -> Seq<
    ServerMessage,
> {
    let notice = match meld {
        Pairing::Quadlet(card) => ServerMessage::Pao { to: None, card },
        Pairing::Triplet(card) => ServerMessage::Ding { to: None, card },
    };
    (if seats[right_of(seat)].is_robot {
        seq![]
    } else {
        seq![notice]
    }) + (if seats[left_of(seat)].is_robot {
        seq![]
    } else {
        seq![notice]
    })
}

/// What the humans next to a seat are told of its discard: each of them the tile, for it
/// alone, the seat to the right first.
pub open spec fn discard_notices(seats: Seq<Agent>, seat: int, card: Card) -> Seq<
    ServerMessage,
> {
    (if seats[right_of(seat)].is_robot {
        seq![]
    } else {
        seq![ServerMessage::Discard { to: Some(right_of(seat) as u8), card }]
    }) + (if seats[left_of(seat)].is_robot {
        seq![]
    } else {
        seq![ServerMessage::Discard { to: Some(left_of(seat) as u8), card }]
    })
}

} // verus!
