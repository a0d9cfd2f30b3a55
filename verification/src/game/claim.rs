//! Taking and declining an offered claim at the table.

use vstd::prelude::*;
use crate::card::Card;
use crate::card::Pairing;
use crate::game::GameState;
use crate::message::Mode;
use crate::table::claim_at;
use crate::table::claim_piles;
use crate::table::left_of;
use crate::table::meld_of;
use crate::table::piles_of;
use crate::table::right_of;
use crate::table::roles_kept;
use crate::table::order::lemma_claim_keeps_order;
use crate::table::order::lemma_seat_accountable;

verus! {

impl GameState {
    /// The seat whose discard is on offer: the one before the seat that plays on.
    pub open spec fn discarder(&self) -> int {
        left_of(self.resume_at()->0 as int)
    }

    /// The meld that the offered claim makes.
    pub open spec fn offered_meld(&self) -> Pairing {
        meld_of(self.offer())
    }

    /// The table is `before` after the seat whose turn it is has taken the offered claim:
    /// the tiles are those after the claim, an ordinary turn goes on, and every seat has
    /// worked out its belief anew.
    pub open spec fn claimed(&self, before: &GameState) -> bool {
        &&& self.playing()
        &&& self.whose_turn() == before.whose_turn()
        &&& self.offer() == Mode::Normal
        &&& self.stock() == before.stock()
        &&& self.played_from(
            before,
            claim_piles(
                before.piles(),
                before.whose_turn(),
                before.discarder(),
                before.offered_meld(),
            ),
        )
        &&& self.waits_kept(before)
        &&& self.owes_discard() == (before.offered_meld() is Triplet)
        &&& self.fuel() + 3 <= before.fuel()
    }

    /// The table is `before` after the seat whose turn it was has declined the offered claim:
    /// the seat that plays on has an ordinary turn before it, and no tile has moved.
    pub open spec fn declined(&self, before: &GameState) -> bool {
        &&& self.playing()
        &&& Some(self.whose_turn() as u8) == before.resume_at()
        &&& self.offer() == Mode::Normal
        &&& self.stock() == before.stock()
        &&& self.played_from(before, before.piles())
        &&& self.waits_kept(before)
        &&& !self.owes_discard()
        &&& self.fuel() + 1 == before.fuel()
    }

    /// Whether nothing but the seats has changed.
    spec fn rest_kept(&self, before: &GameState) -> bool {
        &&& self.remaining_cards == before.remaining_cards
        &&& self.turn == before.turn
        &&& self.prev_turn == before.prev_turn
        &&& self.jing == before.jing
        &&& self.mode == before.mode
        &&& self.test == before.test
        &&& self.winner == before.winner
        &&& self.dealt == before.dealt
    }

    /// Takes the claimed tile off the pile of the seat that discarded it and tells it of the
    /// meld of the seat whose turn it is.
    fn tell_discarder(&mut self, discarder: usize, meld: Pairing)
        requires
            old(self).players@.len() == 3,
            old(self).turn < 3,
            discarder < 3,
            discarder != old(self).turn,
            old(self).players@[discarder as int].out@.len() > 0,
        ensures
            final(self).players@.len() == 3,
            roles_kept(old(self).players@, final(self).players@),
            forall|other: int|
                0 <= other < 3 && other != discarder
                    ==> final(self).players@[other] == old(self).players@[other],
            final(self).players@[discarder as int].piles() == claim_at(
                old(self).players@[discarder as int].piles(),
                discarder as int,
                old(self).turn as int,
                discarder as int,
                meld,
            ),
            final(self).players@[discarder as int].waiting()
                == old(self).players@[discarder as int].waiting(),
            final(self).rest_kept(old(self)),
    {
        let claimer = self.turn as usize;
        self.players[discarder].out.pop();
        if (discarder + 1) % 3 == claimer {
            self.players[discarder].player_right_pairing.push(meld);
        } else {
            self.players[discarder].player_left_pairing.push(meld);
        }
        assert(self.players@[discarder as int].piles() =~= claim_at(
            old(self).players@[discarder as int].piles(),
            discarder as int,
            old(self).turn as int,
            discarder as int,
            meld,
        ));
    }

    /// Lets the seat that neither claimed nor discarded forget the claimed tile and tells it
    /// of the meld of the seat whose turn it is.
    fn tell_third(&mut self, discarder: usize, meld: Pairing)
        requires
            old(self).players@.len() == 3,
            old(self).turn < 3,
            discarder < 3,
            discarder != old(self).turn,
            right_of(3 - old(self).turn - discarder) == old(self).turn
                ==> old(self).players@[3 - old(self).turn - discarder].player_left_out@.len() > 0,
            right_of(3 - old(self).turn - discarder) != old(self).turn
                ==> old(self).players@[3 - old(self).turn - discarder].player_right_out@.len() > 0,
        ensures
            final(self).players@.len() == 3,
            roles_kept(old(self).players@, final(self).players@),
            forall|other: int|
                0 <= other < 3 && other != 3 - old(self).turn - discarder
                    ==> final(self).players@[other] == old(self).players@[other],
            final(self).players@[3 - old(self).turn - discarder].piles() == claim_at(
                old(self).players@[3 - old(self).turn - discarder].piles(),
                3 - old(self).turn - discarder,
                old(self).turn as int,
                discarder as int,
                meld,
            ),
            final(self).players@[3 - old(self).turn - discarder].waiting()
                == old(self).players@[3 - old(self).turn - discarder].waiting(),
            final(self).rest_kept(old(self)),
    {
        let claimer = self.turn as usize;
        let third = 3 - claimer - discarder;
        if (third + 1) % 3 == claimer {
            self.players[third].player_left_out.pop();
            self.players[third].player_right_pairing.push(meld);
        } else {
            self.players[third].player_right_out.pop();
            self.players[third].player_left_pairing.push(meld);
        }
        assert(self.players@[third as int].piles() =~= claim_at(
            old(self).players@[third as int].piles(),
            third as int,
            old(self).turn as int,
            discarder as int,
            meld,
        ));
    }

    /// Brings the table in order after the seat whose turn it is has melded the offered
    /// claim.
    #[verifier::rlimit(40)]
    pub(super) fn settle_claim(&mut self, Ghost(before): Ghost<GameState>)
        requires
            before.wf(),
            before.playing(),
            before.offer() != Mode::Normal,
            old(self).players@.len() == 3,
            old(self).players@[before.whose_turn()].claimed(
                &before.players@[before.whose_turn()],
                before.offered_meld(),
            ),
            forall|other: int|
                0 <= other < 3 && other != before.whose_turn() ==> old(self).players@[other]
                    == before.players@[other],
            old(self).remaining_cards == before.remaining_cards,
            old(self).turn == before.turn,
            old(self).prev_turn == before.prev_turn,
            old(self).jing == before.jing,
            old(self).mode == before.mode,
            old(self).test == before.test,
            old(self).winner == before.winner,
            old(self).dealt == before.dealt,
        ensures
            final(self).wf(),
            final(self).claimed(&before),
    {
        let meld = match self.mode {
            Mode::Pao(card) => Pairing::Quadlet(card),
            Mode::Ding(card) => Pairing::Triplet(card),
            Mode::Normal => Pairing::Triplet(Card(0)),
        };
        let claimer = self.turn as usize;
        let discarder = ((self.prev_turn.unwrap() + 2) % 3) as usize;
        proof {
            let table = piles_of(before.players@);
            assert(table[right_of(discarder as int)] == before.players@[right_of(
                discarder as int,
            )].piles());
            assert(table[left_of(discarder as int)] == before.players@[left_of(
                discarder as int,
            )].piles());
            assert(table[discarder as int] == before.players@[discarder as int].piles());
        }
        self.tell_third(discarder, meld);
        self.tell_discarder(discarder, meld);
        self.mode = Mode::Normal;
        proof {
            lemma_claim_keeps_order(
                before.players@,
                self.players@,
                self.remaining_cards@,
                claimer as int,
                self.prev_turn,
                before.mode,
            );
        }
        self.refresh();
    }

    /// The seat whose turn it is takes the offered claim: it melds the tiles of the kind with
    /// the claimed discard. After a triplet it owes a discard; after a quadlet it draws first.
    #[verifier::rlimit(40)]
    pub fn accept_claim(&mut self)
        requires
            old(self).wf(),
            old(self).playing(),
            old(self).offer() != Mode::Normal,
        ensures
            final(self).wf(),
            final(self).claimed(old(self)),
    {
        let meld = match self.mode {
            Mode::Pao(card) => Pairing::Quadlet(card),
            Mode::Ding(card) => Pairing::Triplet(card),
            Mode::Normal => Pairing::Triplet(Card(0)),
        };
        let claimer = self.turn as usize;
        let ghost before = *self;
        proof {
            let table = piles_of(self.players@);
            lemma_seat_accountable(
                self.players@,
                self.remaining_cards@,
                claimer as int,
            );
            assert(table[claimer as int] == self.players@[claimer as int].piles());
            let d = left_of(self.prev_turn->0 as int);
            assert(table[right_of(d)] == self.players@[right_of(d)].piles());
            assert(table[left_of(d)] == self.players@[left_of(d)].piles());
        }
        self.players[claimer].meld(meld);
        self.settle_claim(Ghost(before));
    }
}

} // verus!
