//! The steps of a turn: drawing, discarding, and passing the turn on.

use vstd::prelude::*;
use crate::card::Card;
use crate::game::GameState;
use crate::game::NO_WINNER;
use crate::game::PLAYER_NUM;
use crate::message::GameError;
use crate::message::Mode;
use crate::message::ServerMessage;
use crate::table::Piles;
use crate::table::claim_order;
use crate::table::discard_piles;
use crate::table::draw_piles;
use crate::table::left_of;
use crate::table::piles_of;
use crate::table::right_of;
use crate::table::roles_kept;
use crate::table::order::lemma_discard_keeps_tiles;
use crate::table::order::lemma_draw_keeps_tiles;
use crate::tally::copies;

verus! {

impl GameState {
    /// The table is `before` after the seat whose turn it is has drawn the top tile of the
    /// deck: the tile has gone to its hand, the seat owes a discard, and every seat has
    /// worked out its belief anew.
    pub open spec fn drew(&self, before: &GameState) -> bool {
        &&& before.stock().len() > 0
        &&& self.playing()
        &&& self.whose_turn() == before.whose_turn()
        &&& self.offer() == Mode::Normal
        &&& self.stock() == before.stock().drop_last()
        &&& self.played_from(
            before,
            draw_piles(before.piles(), before.whose_turn(), before.stock().last()),
        )
        &&& self.waits_kept(before)
        &&& self.owes_discard()
        &&& self.fuel() == before.fuel()
    }

    /// The seat whose turn it is draws the top tile of the deck. With the deck used up the
    /// hand ends without a winner.
    pub fn draw_card(&mut self) -> (notice: ServerMessage)
        requires
            old(self).wf(),
            old(self).playing(),
            old(self).offer() == Mode::Normal,
            !old(self).owes_discard(),
        ensures
            final(self).wf(),
            old(self).stock().len() == 0 ==> {
                &&& notice == (ServerMessage::End { to: None })
                &&& !final(self).playing()
                &&& final(self).outcome() == Some(NO_WINNER)
                &&& final(self).cleared_from(old(self))
            },
            old(self).stock().len() > 0 ==> {
                &&& notice == (ServerMessage::Draw {
                    to: Some(old(self).whose_turn() as u8),
                    card: old(self).stock().last(),
                })
                &&& final(self).drew(old(self))
            },
    {
        match self.remaining_cards.pop() {
            Some(card) => {
                let seat = self.turn as usize;
                self.players[seat].hand.push(card);
                proof {
                    let before = piles_of(old(self).players@);
                    assert(piles_of(self.players@) =~= draw_piles(before, seat as int, card));
                    lemma_draw_keeps_tiles(
                        before,
                        old(self).remaining_cards@,
                        seat as int,
                    );
                }
                self.refresh();
                ServerMessage::Draw { to: Some(self.turn), card }
            },
            None => {
                self.finish(NO_WINNER);
                ServerMessage::End { to: None }
            },
        }
    }

    /// The table is `before` after the seat whose turn it is has discarded the tile at
    /// `index` of its hand: the tile lies on its pile, its neighbours remember it, every seat
    /// has worked out its belief anew, and the turn has yet to pass on.
    pub open spec fn discarded(&self, before: &GameState, index: int) -> bool {
        &&& self.playing()
        &&& self.whose_turn() == before.whose_turn()
        &&& self.offer() == Mode::Normal
        &&& self.stock() == before.stock()
        &&& self.played_from(before, discard_piles(before.piles(), before.whose_turn(), index))
        &&& !self.owes_discard()
        &&& self.discard_on_top(before.mover().hand@[index])
        &&& self.fuel() + 2 == before.fuel()
    }

    /// Lets the neighbours of the seat whose turn it is remember the tile it has discarded.
    pub(super) fn publish_discard(&mut self, card: Card)
        requires
            old(self).players@.len() == 3,
            old(self).turn < 3,
        ensures
            final(self).players@.len() == 3,
            roles_kept(old(self).players@, final(self).players@),
            final(self).players@[old(self).turn as int]
                == old(self).players@[old(self).turn as int],
            final(self).players@[right_of(old(self).turn as int)].piles() == (Piles {
                left_out: old(self).players@[right_of(old(self).turn as int)].player_left_out@.push(
                    card,
                ),
                ..old(self).players@[right_of(old(self).turn as int)].piles()
            }),
            final(self).players@[left_of(old(self).turn as int)].piles() == (Piles {
                right_out: old(self).players@[left_of(old(self).turn as int)].player_right_out@.push(
                    card,
                ),
                ..old(self).players@[left_of(old(self).turn as int)].piles()
            }),
            final(self).players@[0].waiting() == old(self).players@[0].waiting(),
            final(self).players@[1].waiting() == old(self).players@[1].waiting(),
            final(self).players@[2].waiting() == old(self).players@[2].waiting(),
            final(self).remaining_cards == old(self).remaining_cards,
            final(self).turn == old(self).turn,
            final(self).prev_turn == old(self).prev_turn,
            final(self).jing == old(self).jing,
            final(self).mode == old(self).mode,
            final(self).test == old(self).test,
            final(self).winner == old(self).winner,
            final(self).dealt == old(self).dealt,
    {
        let right = ((self.turn + 1) % PLAYER_NUM) as usize;
        let left = ((self.turn + 2) % PLAYER_NUM) as usize;
        self.players[right].player_left_out.push(card);
        self.players[left].player_right_out.push(card);
    }

    /// The seat whose turn it is discards the tile at `index` of its hand.
    #[verifier::rlimit(40)]
    fn discard_at(&mut self, index: usize)
        requires
            old(self).wf(),
            old(self).playing(),
            old(self).offer() == Mode::Normal,
            old(self).owes_discard(),
            index < old(self).mover().hand@.len(),
        ensures
            final(self).wf(),
            final(self).discarded(old(self), index as int),
            final(self).waits_kept(old(self)),
    {
        let seat = self.turn as usize;
        let card = self.players[seat].hand[index];
        self.players[seat].hand.remove(index);
        self.players[seat].out.push(card);
        self.publish_discard(card);
        proof {
            let before = piles_of(old(self).players@);
            assert(before[seat as int] == old(self).players@[seat as int].piles());
            assert(piles_of(self.players@) =~= discard_piles(before, seat as int, index as int));
            lemma_discard_keeps_tiles(
                before,
                self.remaining_cards@,
                seat as int,
                index as int,
            );
        }
        self.refresh();
    }

    /// Why the seat `player` cannot discard `card`, if it cannot: no hand is played, there
    /// is no such seat, it is not for the seat to discard, or it does not hold the tile.
    pub open spec fn discard_refused(&self, player: usize, card: Card) -> Option<GameError> {
        if !self.playing() {
            Some(GameError::NoHand)
        } else if player >= 3 {
            Some(GameError::NoSuchSeat { player })
        } else if !self.to_discard(player as int) {
            Some(GameError::NotYourTurn { player })
        } else if !self.seats()[player as int].hand@.contains(card) {
            Some(GameError::CardNotFound { card, player })
        } else {
            None
        }
    }

    /// The seat `player_id` discards `card`, the first of its hand that is this tile. This is
    /// for the seat whose ordinary turn it is and which has drawn or claimed.
    pub fn discard_card(&mut self, player_id: usize, card: Card) -> (done: Result<(), GameError>)
        requires
            old(self).wf(),
        ensures
            final(self).wf(),
            match done {
                Ok(()) => {
                    &&& old(self).discard_refused(player_id, card) is None
                    &&& final(self).discarded(
                        old(self),
                        old(self).seats()[player_id as int].hand@.index_of_first(card)->0,
                    )
                    &&& final(self).waits_kept(old(self))
                },
                Err(error) => old(self).discard_refused(player_id, card) == Some(error)
                    && *final(self) == *old(self),
            },
    {
        if !self.dealt {
            return Err(GameError::NoHand);
        }
        if player_id >= 3 {
            return Err(GameError::NoSuchSeat { player: player_id });
        }
        if player_id != self.turn as usize || !matches!(self.mode, Mode::Normal)
            || !self.must_discard() {
            return Err(GameError::NotYourTurn { player: player_id });
        }
        let mut index: usize = 0;
        while index < self.players[player_id].hand.len() && self.players[player_id].hand[index].0
            != card.0
            invariant
                *self == *old(self),
                player_id < 3,
                self.players@.len() == 3,
                index <= self.players@[player_id as int].hand@.len(),
                forall|j: int| 0 <= j < index ==> self.players@[player_id as int].hand@[j] != card,
            decreases self.players@[player_id as int].hand@.len() - index,
        {
            index += 1;
        }
        if index >= self.players[player_id].hand.len() {
            return Err(GameError::CardNotFound { card, player: player_id });
        }
        proof {
            old(self).players@[player_id as int].hand@.index_of_first_ensures(card);
        }
        self.discard_at(index);
        Ok(())
    }

    /// The table is `before` after the turn has passed on from the seat that has discarded
    /// `card`: no tile has moved, and the seat that goes first for the tile has the turn.
    pub open spec fn turn_passed(&self, before: &GameState, card: Card) -> bool {
        &&& self.playing()
        &&& self.seats() == before.seats()
        &&& self.stock() == before.stock()
        &&& self.wildcard() == before.wildcard()
        &&& self.rehearsal() == before.rehearsal()
        &&& self.outcome() == before.outcome()
        &&& self.passed_on(before, card)
    }

    /// What all are told when the turn has passed on: whose turn it is and what is offered.
    pub open spec fn turn_notice(&self) -> ServerMessage {
        ServerMessage::Turn { to: None, turn: self.whose_turn() as u8, mode: self.offer() }
    }

    /// Who has the turn and what is offered after the discard of `card` on the table
    /// `before`: a claim is offered to the seat that goes first for it, or else the next seat
    /// has an ordinary turn, and the next seat is the one to play on after a declined claim.
    pub open spec fn passed_on(&self, before: &GameState, card: Card) -> bool {
        &&& self.resume_at() == Some(right_of(before.whose_turn()) as u8)
        &&& (self.whose_turn(), self.offer()) == claim_order(
            before.whose_turn(),
            copies(before.seats()[right_of(before.whose_turn())].hand@, card.kind()),
            copies(before.seats()[left_of(before.whose_turn())].hand@, card.kind()),
            card,
        )
    }

    /// Passes the turn on after the seat whose turn it is has discarded `discard`: to the
    /// seat that can claim it, a quadlet before a triplet and the next seat before the seat
    /// before, or else to the next seat for an ordinary turn.
    pub fn next_turn(&mut self, discard: &Card) -> (notice: ServerMessage)
        requires
            old(self).wf(),
            old(self).playing(),
            old(self).offer() == Mode::Normal,
            !old(self).owes_discard(),
            old(self).discard_on_top(*discard),
        ensures
            final(self).wf(),
            final(self).turn_passed(old(self), *discard),
            notice == final(self).turn_notice(),
            !final(self).owes_discard(),
            final(self).fuel() <= old(self).fuel() + 1,
    {
        let next_player = ((self.turn + 1) % PLAYER_NUM) as usize;
        let prev_player = ((next_player as u8 + 1) % PLAYER_NUM) as usize;
        self.prev_turn = Some(next_player as u8);
        proof {
            let table = piles_of(self.players@);
            assert(table[0] == self.players@[0].piles());
            assert(table[1] == self.players@[1].piles());
            assert(table[2] == self.players@[2].piles());
        }
        if Self::can_form_quadlet(&self.players[next_player].hand, discard) {
            self.turn = next_player as u8;
            self.mode = Mode::Pao(*discard);
        } else if Self::can_form_quadlet(&self.players[prev_player].hand, discard) {
            self.turn = prev_player as u8;
            self.mode = Mode::Pao(*discard);
        } else if Self::can_form_triplet(&self.players[next_player].hand, discard) {
            self.turn = next_player as u8;
            self.mode = Mode::Ding(*discard);
        } else if Self::can_form_triplet(&self.players[prev_player].hand, discard) {
            self.turn = prev_player as u8;
            self.mode = Mode::Ding(*discard);
        } else {
            self.turn = next_player as u8;
            self.mode = Mode::Normal;
        }
        ServerMessage::Turn { to: None, turn: self.turn, mode: self.mode }
    }

    /// The table is `before` after the offered claim has been declined: no tile has moved,
    /// and the seat that plays on has an ordinary turn before it.
    pub open spec fn turn_restored(&self, before: &GameState) -> bool {
        &&& self.playing()
        &&& self.offer() == Mode::Normal
        &&& Some(self.whose_turn() as u8) == before.resume_at()
        &&& self.resume_at() == before.resume_at()
        &&& self.seats() == before.seats()
        &&& self.stock() == before.stock()
        &&& self.wildcard() == before.wildcard()
        &&& self.rehearsal() == before.rehearsal()
        &&& self.outcome() == before.outcome()
    }

    /// Hands the turn to the seat that plays on after a declined claim, for an ordinary turn.
    pub fn restore_turn(&mut self) -> (notice: ServerMessage)
        requires
            old(self).wf(),
            old(self).playing(),
            old(self).offer() != Mode::Normal,
        ensures
            final(self).wf(),
            final(self).turn_restored(old(self)),
            notice == final(self).turn_notice(),
            !final(self).owes_discard(),
            final(self).fuel() + 1 == old(self).fuel(),
    {
        let seat = self.prev_turn.unwrap();
        self.turn = seat;
        self.mode = Mode::Normal;
        ServerMessage::Turn { to: None, turn: seat, mode: Mode::Normal }
    }
}

} // verus!
