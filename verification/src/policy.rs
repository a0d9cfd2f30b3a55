//! The discard of a robot, as its strategy has it.

use vstd::prelude::*;
use crate::agent::Agent;
use crate::agent::Strategy;
use crate::card::Card;
use crate::chance::random_usize;
use crate::heuristic::appraises_all;
use crate::heuristic::groups_of;
use crate::heuristic::is_heuristic_discard;
use crate::table::order::lemma_same_piles_informed;
use crate::tally::lemma_copies_push;
use crate::tally::lemma_copies_remove;

verus! {

impl Agent {
    /// The seat is `before` after it has discarded the tile at `index`: the tile has gone from
    /// the hand to the seat's pile, the belief is worked out anew, and the seat remembers what
    /// the hand now waits for.
    pub open spec fn discarded(&self, before: &Agent, index: int) -> bool {
        &&& 0 <= index < before.hand@.len()
        &&& self.hand@ == before.hand@.remove(index)
        &&& self.out@ == before.out@.push(before.hand@[index])
        &&& self.pairing@ == before.pairing@
        &&& self.player_right_out@ == before.player_right_out@
        &&& self.player_right_pairing@ == before.player_right_pairing@
        &&& self.player_left_out@ == before.player_left_out@
        &&& self.player_left_pairing@ == before.player_left_pairing@
        &&& self.round == before.round
        &&& self.turn == before.turn
        &&& self.is_robot == before.is_robot
        &&& self.ready == before.ready
        &&& self.strategy == before.strategy
        &&& self.jing == before.jing
        &&& self.informed()
        &&& self.knows_waits()
    }

    /// Whether `index` is a discard that the seat's strategy allows: the first tile for the
    /// test player, any tile for the random player; for the heuristic player that was
    /// waiting, the discard that keeps it waiting best, and otherwise the appraiser's.
    #[verifier::opaque]
    pub open spec fn follows_strategy<F: Fn(&Agent, &Vec<Card>) -> usize>(
        &self,
        appraise: &F,
        index: int,
    ) -> bool {
        &&& 0 <= index < self.hand@.len()
        &&& match self.strategy {
            Strategy::Test => index == 0,
            Strategy::Random => true,
            Strategy::Level1 => if self.ting is Some && self.can_keep_waiting() {
                self.keeps_waiting_best(index)
            } else if self.ting is Some {
                is_heuristic_discard(appraise, &self.not_waiting(), index)
            } else {
                is_heuristic_discard(appraise, self, index)
            },
        }
    }

    /// Picks the discard of a seat that is waiting: the one that keeps it waiting for the most
    /// unseen copies. Where no discard keeps it waiting, the seat forgets that it waited and
    /// the appraiser picks.
    pub fn ting_card<F: Fn(&Agent, &Vec<Card>) -> usize>(&mut self, appraise: &F) -> (index: usize)
        requires
            groups_of(old(self).hand@).len() > 0,
            appraises_all(appraise),
        ensures
            old(self).can_keep_waiting() ==> old(self).keeps_waiting_best(index as int)
                && *final(self) == *old(self),
            !old(self).can_keep_waiting() ==> *final(self) == old(self).not_waiting()
                && is_heuristic_discard(appraise, final(self), index as int),
    {
        match self.best_waiting_discard() {
            Some(index) => index,
            None => {
                self.ting = None;
                self.choose_discard_card(appraise)
            },
        }
    }

    /// Discards the tile at `index`.
    pub fn discard_at(&mut self, index: usize) -> (card: Card)
        requires
            index < old(self).hand@.len(),
            old(self).accountable(),
        ensures
            card == old(self).hand@[index as int],
            final(self).discarded(old(self), index as int),
            final(self).accountable(),
    {
        let card = self.hand[index];
        self.out.push(card);
        self.hand.remove(index);
        proof {
            assert forall|kind: int| 0 <= kind < 24 implies self.seen(kind) == old(self).seen(
                kind,
            ) by {
                lemma_copies_remove(old(self).hand@, index as int, kind);
                lemma_copies_push(old(self).out@, card, kind);
            }
        }
        self.update_probability();
        let ting = self.is_ting(&self.hand);
        let ghost informed = *self;
        self.ting = ting;
        proof {
            assert(informed.accountable());
            assert forall|kind: int| 0 <= kind < 24 implies self.seen(kind) <= 4 by {
                assert(self.seen(kind) == informed.seen(kind));
            }
            lemma_same_piles_informed(informed, *self);
        }
        card
    }

    /// Discards a tile, picked as the seat's strategy has it, and says which.
    pub fn discard_card<F: Fn(&Agent, &Vec<Card>) -> usize>(&mut self, appraise: &F) -> (card: Card)
        requires
            old(self).hand@.len() > 0,
            old(self).accountable(),
            old(self).strategy == Strategy::Level1 ==> groups_of(old(self).hand@).len() > 0,
            appraises_all(appraise),
        ensures
            exists|index: int|
                {
                    &&& #[trigger] old(self).follows_strategy(appraise, index)
                    &&& card == old(self).hand@[index]
                    &&& final(self).discarded(old(self), index)
                },
            final(self).accountable(),
    {
        let index = match self.strategy {
            Strategy::Random => random_usize() % self.hand.len(),
            Strategy::Level1 => {
                if self.ting.is_some() {
                    self.ting_card(appraise)
                } else {
                    self.choose_discard_card(appraise)
                }
            },
            Strategy::Test => 0,
        };
        assert(old(self).follows_strategy(appraise, index as int)) by {
            reveal(Agent::follows_strategy);
        }
        assert(self.same_table(old(self)));
        proof {
            assert forall|kind: int| 0 <= kind < 24 implies self.seen(kind) == old(self).seen(
                kind,
            ) by {}
        }
        let card = self.discard_at(index);
        card
    }
}

} // verus!
