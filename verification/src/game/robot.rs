//! The turn of a robot: answer the claim, draw, win or discard.

use vstd::prelude::*;
use crate::agent::Agent;
use crate::agent::Strategy;
use crate::card::Card;
use crate::card::Pairing;
use crate::game::GameState;
use crate::game::NO_WINNER;
use crate::game::PLAYER_NUM;
use crate::heuristic::appraises_all;
use crate::heuristic::lemma_groups_exist;
use crate::message::Mode;
use crate::message::ServerMessage;
use crate::table::claim_notices;
use crate::table::discard_notices;
use crate::table::left_of;
use crate::table::piles_of;
use crate::table::right_of;
use crate::table::tiles_ok;
use crate::table::order::belief_is_settled_by_the_piles;
use crate::table::order::lemma_discard_keeps_order;
use crate::table::order::lemma_seat_accountable;

verus! {

impl GameState {
    /// The robot whose turn it is answers the offered claim as its strategy has it. Where it
    /// takes the claim its human neighbours are told; where it declines, the turn passes to
    /// the seat that plays on, and all are told.
    #[verifier::rlimit(40)]
    pub fn robot_claim(&mut self, outbox: &mut Vec<ServerMessage>) -> (taken: bool)
        requires
            old(self).wf(),
            old(self).playing(),
            old(self).offer() != Mode::Normal,
        ensures
            final(self).wf(),
            taken ==> final(self).claimed(old(self)) && final(outbox)@ == old(outbox)@
                + claim_notices(old(self).seats(), old(self).whose_turn(), old(self).offered_meld()),
            !taken ==> final(self).declined(old(self)) && final(outbox)@ == old(outbox)@.push(
                ServerMessage::Turn {
                    to: None,
                    turn: final(self).whose_turn() as u8,
                    mode: Mode::Normal,
                },
            ),
            old(self).mover().strategy == Strategy::Level1 ==> taken,
            old(self).mover().strategy == Strategy::Test
                ==> (taken <==> old(self).offer() is Ding),
    {
        let claimer = self.turn as usize;
        let ghost before = *self;
        proof {
            let table = piles_of(self.players@);
            lemma_seat_accountable(
                self.players@,
                self.remaining_cards@,
                claimer as int,
            );
            assert(table[claimer as int] == self.players@[claimer as int].piles());
            let d = left_of(self.prev_turn->0 as int);
            assert(table[right_of(d)] == self.players@[right_of(d)].piles());
            assert(table[left_of(d)] == self.players@[left_of(d)].piles());
        }
        let (taken, meld) = match self.mode {
            Mode::Pao(card) => (self.players[claimer].pao_card(card), Pairing::Quadlet(card)),
            Mode::Ding(card) => (self.players[claimer].ding_card(card), Pairing::Triplet(card)),
            Mode::Normal => (false, Pairing::Triplet(Card(0))),
        };
        if taken {
            self.settle_claim(Ghost(before));
            let right = ((self.turn + 1) % PLAYER_NUM) as usize;
            let left = ((self.turn + 2) % PLAYER_NUM) as usize;
            let ghost heard = outbox@;
            if !self.players[right].is_robot {
                outbox.push(Self::claim_notice(meld));
            }
            if !self.players[left].is_robot {
                outbox.push(Self::claim_notice(meld));
            }
            assert(outbox@ =~= heard + claim_notices(
                before.players@,
                before.turn as int,
                before.offered_meld(),
            ));
            true
        } else {
            proof {
                assert(piles_of(self.players@) =~= piles_of(before.players@));
                assert(self.players@[claimer as int].informed());
            }
            let notice = self.restore_turn();
            outbox.push(notice);
            false
        }
    }

    /// The notice of a meld, for all to hear.
    fn claim_notice(meld: Pairing) -> (notice: ServerMessage)
        ensures
            notice == match meld {
                Pairing::Quadlet(card) => ServerMessage::Pao { to: None, card },
                Pairing::Triplet(card) => ServerMessage::Ding { to: None, card },
            },
    {
        match meld {
            Pairing::Quadlet(card) => ServerMessage::Pao { to: None, card },
            Pairing::Triplet(card) => ServerMessage::Ding { to: None, card },
        }
    }

    /// Looks whether the seat whose turn it is has won. If it has, all are told, the hand
    /// ends and the seat is recorded as the winner.
    pub fn check_win(&mut self, outbox: &mut Vec<ServerMessage>) -> (won: bool)
        requires
            old(self).wf(),
            old(self).playing(),
        ensures
            final(self).wf(),
            won == old(self).wins(),
            won ==> {
                &&& !final(self).playing()
                &&& final(self).outcome() == Some(old(self).whose_turn() as u8)
                &&& final(self).cleared_from(old(self))
                &&& final(outbox)@ == old(outbox)@.push(ServerMessage::Hu { to: None })
            },
            !won ==> *final(self) == *old(self) && final(outbox)@ == old(outbox)@,
    {
        if self.is_player_hu() {
            outbox.push(ServerMessage::Hu { to: None });
            let seat = self.turn;
            self.finish(seat);
            true
        } else {
            false
        }
    }

    /// The robot whose turn it is, and which owes a discard, discards as its strategy has it.
    /// Its human neighbours are told.
    #[verifier::rlimit(40)]
    pub fn robot_discard<F: Fn(&Agent, &Vec<Card>) -> usize>(
        &mut self,
        outbox: &mut Vec<ServerMessage>,
        appraise: &F,
    ) -> (card: Card)
        requires
            old(self).wf(),
            old(self).playing(),
            old(self).offer() == Mode::Normal,
            old(self).owes_discard(),
            appraises_all(appraise),
        ensures
            final(self).wf(),
            exists|index: int|
                {
                    &&& #[trigger] final(self).discarded(old(self), index)
                    &&& old(self).mover().follows_strategy(appraise, index)
                    &&& card == old(self).mover().hand@[index]
                },
            final(self).discard_on_top(card),
            final(self).seats()[old(self).whose_turn()].knows_waits(),
            final(self).seats()[right_of(old(self).whose_turn())].waiting()
                == old(self).seats()[right_of(old(self).whose_turn())].waiting(),
            final(self).seats()[left_of(old(self).whose_turn())].waiting()
                == old(self).seats()[left_of(old(self).whose_turn())].waiting(),
            final(outbox)@ == old(outbox)@ + discard_notices(
                old(self).seats(),
                old(self).whose_turn(),
                card,
            ),
    {
        let seat = self.turn as usize;
        let ghost before = *self;
        proof {
            let table = piles_of(self.players@);
            lemma_seat_accountable(self.players@, self.remaining_cards@, seat as int);
            assert(table[seat as int] == self.players@[seat as int].piles());
            reveal(tiles_ok);
            assert(self.players@[seat as int].hand@[0].in_deck());
            lemma_groups_exist(self.players@[seat as int].hand@, 0);
        }
        let card = self.players[seat].discard_card(appraise);
        let ghost index = choose|index: int|
            {
                &&& #[trigger] before.players@[seat as int].follows_strategy(appraise, index)
                &&& card == before.players@[seat as int].hand@[index]
                &&& self.players@[seat as int].discarded(&before.players@[seat as int], index)
            };
        self.publish_discard(card);
        proof {
            lemma_discard_keeps_order(
                before.players@,
                self.players@,
                self.remaining_cards@,
                seat as int,
                self.prev_turn,
                index,
            );
        }
        let ghost published = self.players@[seat as int];
        self.refresh();
        proof {
            let now = self.players@[seat as int];
            assert(piles_of(self.players@)[seat as int] == now.piles());
            assert(piles_of(before.players@).len() == 3);
            assert(now.piles() == published.piles());
            belief_is_settled_by_the_piles(published, now);
        }
        let right = ((self.turn + 1) % PLAYER_NUM) as usize;
        let left = ((self.turn + 2) % PLAYER_NUM) as usize;
        let ghost heard = outbox@;
        if !self.players[right].is_robot {
            outbox.push(ServerMessage::Discard { to: Some(right as u8), card });
        }
        if !self.players[left].is_robot {
            outbox.push(ServerMessage::Discard { to: Some(left as u8), card });
        }
        proof {
            assert(outbox@ =~= heard + discard_notices(before.players@, seat as int, card));
            assert(self.discarded(&before, index));
        }
        card
    }

    /// The seats are three, robots where robots sat before, and they play as they did.
    pub open spec fn same_robots(&self, before: &GameState) -> bool {
        &&& self.seats().len() == 3
        &&& before.seats().len() == 3
        &&& forall|seat: int|
            0 <= seat < 3 ==> (#[trigger] self.seats()[seat]).is_robot
                == before.seats()[seat].is_robot && self.seats()[seat].strategy
                == before.seats()[seat].strategy
    }

    /// The table after the robot whose turn it was has discarded `card`: the turn has yet
    /// to pass on, and what is heard last is what its human neighbours are told.
    pub open spec fn robot_discarded(
        &self,
        before: &GameState,
        heard: Seq<ServerMessage>,
        card: Card,
    ) -> bool {
        let told = discard_notices(before.seats(), before.whose_turn(), card);
        &&& self.playing()
        &&& self.whose_turn() == before.whose_turn()
        &&& self.offer() == Mode::Normal
        &&& !self.owes_discard()
        &&& self.discard_on_top(card)
        &&& heard.len() >= told.len()
        &&& heard.skip(heard.len() - told.len()) == told
    }

    /// The table after the hand has ended with the turn of the seat `seat`: the seat has
    /// won, or the deck is used up, and all have been told.
    pub open spec fn ended_at(&self, seat: int, heard: Seq<ServerMessage>) -> bool {
        &&& !self.playing()
        &&& 0 <= seat < 3
        &&& heard.len() > 0
        &&& {
            ||| self.outcome() == Some(seat as u8) && heard.last() == (ServerMessage::Hu {
                to: None,
            })
            ||| self.outcome() == Some(NO_WINNER) && heard.last() == (ServerMessage::End {
                to: None,
            })
        }
    }

    /// The table is `before` after the ordinary turn of the robot whose turn it is. Unless
    /// it owes a discard already, the robot draws. With the deck used up the hand ends
    /// without a winner; with a winning hand drawn it ends with the robot as the winner.
    /// Otherwise the robot discards as its strategy has it, and its human neighbours are
    /// told. `heard` is what is told in all, after `heard_before`.
    pub open spec fn robot_played<F: Fn(&Agent, &Vec<Card>) -> usize>(
        &self,
        before: &GameState,
        heard_before: Seq<ServerMessage>,
        heard: Seq<ServerMessage>,
        appraise: &F,
        discard: Option<Card>,
    ) -> bool {
        let seat = before.whose_turn();
        match discard {
            Some(card) => exists|ready: GameState, index: int|
                {
                    &&& if before.owes_discard() {
                        ready == *before
                    } else {
                        ready.drew(before) && !ready.wins()
                    }
                    &&& #[trigger] self.discarded(&ready, index)
                    &&& ready.seats()[seat].follows_strategy(appraise, index)
                    &&& card == ready.seats()[seat].hand@[index]
                    &&& heard == heard_before + discard_notices(before.seats(), seat, card)
                },
            None => {
                &&& !before.owes_discard()
                &&& !self.playing()
                &&& self.cleared_from(before)
                &&& if before.stock().len() == 0 {
                    self.outcome() == Some(NO_WINNER) && heard == heard_before.push(
                        ServerMessage::End { to: None },
                    )
                } else {
                    self.outcome() == Some(seat as u8) && heard == heard_before.push(
                        ServerMessage::Hu { to: None },
                    ) && exists|ready: GameState| #[trigger] ready.drew(before) && ready.wins()
                }
            },
        }
    }

    /// The table is `before` after the turn of the robot whose turn it is. With a claim
    /// before it the robot declines, and the turn passes to the seat that plays on; or it
    /// takes the claim, its human neighbours are told, and it plays on as in an ordinary
    /// turn. `heard` is what is told in all, after `heard_before`.
    pub open spec fn robot_turned<F: Fn(&Agent, &Vec<Card>) -> usize>(
        &self,
        before: &GameState,
        heard_before: Seq<ServerMessage>,
        heard: Seq<ServerMessage>,
        appraise: &F,
        discard: Option<Card>,
    ) -> bool {
        if before.offer() == Mode::Normal {
            self.robot_played(before, heard_before, heard, appraise, discard)
        } else {
            ||| {
                &&& discard is None
                &&& self.declined(before)
                &&& heard == heard_before.push(
                    ServerMessage::Turn {
                        to: None,
                        turn: self.whose_turn() as u8,
                        mode: Mode::Normal,
                    },
                )
            }
            ||| exists|melded: GameState|
                {
                    &&& #[trigger] melded.claimed(before)
                    &&& self.robot_played(
                        &melded,
                        heard_before + claim_notices(
                            before.seats(),
                            before.whose_turn(),
                            before.offered_meld(),
                        ),
                        heard,
                        appraise,
                        discard,
                    )
                }
        }
    }

    /// The robot whose ordinary turn it is draws, unless it owes a discard already; it wins,
    /// or else discards. The answer is the discard, and `None` where the hand has ended.
    #[verifier::rlimit(40)]
    pub fn robot_play<F: Fn(&Agent, &Vec<Card>) -> usize>(
        &mut self,
        outbox: &mut Vec<ServerMessage>,
        appraise: &F,
    ) -> (discard: Option<Card>)
        requires
            old(self).wf(),
            old(self).playing(),
            old(self).offer() == Mode::Normal,
            appraises_all(appraise),
        ensures
            final(self).wf(),
            final(self).robot_played(old(self), old(outbox)@, final(outbox)@, appraise, discard),
            old(outbox)@.is_prefix_of(final(outbox)@),
            final(self).wildcard() == old(self).wildcard(),
            final(self).rehearsal() == old(self).rehearsal(),
            final(self).same_robots(old(self)),
            match discard {
                Some(card) => final(self).robot_discarded(old(self), final(outbox)@, card)
                    && final(self).fuel() + 2 <= old(self).fuel(),
                None => final(self).ended_at(old(self).whose_turn(), final(outbox)@),
            },
    {
        if !self.must_discard() {
            let notice = self.draw_card();
            if !self.dealt {
                outbox.push(notice);
                return None;
            }
            let ghost drawn = *self;
            if self.check_win(outbox) {
                proof {
                    assert(drawn.drew(old(self)) && drawn.wins());
                }
                return None;
            }
        }
        let ghost ready = *self;
        let ghost heard = outbox@;
        let card = self.robot_discard(outbox, appraise);
        proof {
            let told = discard_notices(ready.seats(), old(self).turn as int, card);
            assert(outbox@.skip(outbox@.len() - told.len()) =~= told);
            assert(told == discard_notices(old(self).seats(), old(self).whose_turn(), card));
            let index = choose|index: int|
                {
                    &&& #[trigger] self.discarded(&ready, index)
                    &&& ready.mover().follows_strategy(appraise, index)
                    &&& card == ready.mover().hand@[index]
                };
            assert(self.discarded(&ready, index));
        }
        Some(card)
    }

    /// The turn of a robot. It answers an offered claim; it draws, unless it has claimed a
    /// triplet; it wins, or else discards. The answer is the discard, and `None` where the
    /// robot has declined the claim or the hand has ended.
    #[verifier::rlimit(40)]
    pub fn robot_turn<F: Fn(&Agent, &Vec<Card>) -> usize>(
        &mut self,
        outbox: &mut Vec<ServerMessage>,
        appraise: &F,
    ) -> (discard: Option<Card>)
        requires
            old(self).wf(),
            old(self).playing(),
            !old(self).owes_discard(),
            old(self).mover().is_robot,
            appraises_all(appraise),
        ensures
            final(self).wf(),
            final(self).robot_turned(old(self), old(outbox)@, final(outbox)@, appraise, discard),
            old(outbox)@.is_prefix_of(final(outbox)@),
            final(self).wildcard() == old(self).wildcard(),
            final(self).rehearsal() == old(self).rehearsal(),
            final(self).same_robots(old(self)),
            match discard {
                Some(card) => final(self).robot_discarded(old(self), final(outbox)@, card)
                    && final(self).fuel() + 2 <= old(self).fuel(),
                None => final(self).ended_at(old(self).whose_turn(), final(outbox)@)
                    || final(self).declined(old(self)),
            },
            old(self).offer() is Pao && old(self).mover().strategy
                == Strategy::Test ==> discard is None && final(self).declined(old(self)),
            old(self).offer() is Ding && old(self).mover().strategy
                == Strategy::Test ==> !final(self).declined(old(self)),
            old(self).offer() != Mode::Normal && old(self).mover().strategy == Strategy::Level1
                ==> !final(self).declined(
                old(self),
            ),
    {
        if !matches!(self.mode, Mode::Normal) {
            if !self.robot_claim(outbox) {
                return None;
            }
        }
        let ghost melded = *self;
        let discard = self.robot_play(outbox, appraise);
        proof {
            if let Some(card) = discard {
                assert(discard_notices(melded.seats(), melded.whose_turn(), card)
                    =~= discard_notices(old(self).seats(), old(self).whose_turn(), card));
            }
            if old(self).offer() != Mode::Normal {
                assert(melded.claimed(old(self)));
            }
        }
        discard
    }
}

} // verus!
