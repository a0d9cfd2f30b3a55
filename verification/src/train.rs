//! Hands among robots, played in runs and counted by their outcome.

use vstd::prelude::*;
use crate::agent::Agent;
use crate::agent::Strategy;
use crate::card::Card;
use crate::game::GameState;
use crate::game::NO_WINNER;
use crate::heuristic::appraises_all;
use crate::message::ServerMessage;

verus! {

/// Hands played by three robots against each other, and how they ended. The first seat
/// plays by the heuristic, the two others at random.
pub struct Train {
    times: usize,
    game: GameState,
    records: Vec<usize>,
}

/// Where the outcome of a hand is counted: with the seat that won, or last where nobody won.
pub open spec fn slot_of(outcome: u8) -> int {
    if outcome == NO_WINNER {
        3
    } else {
        outcome as int
    }
}

/// One hand has been played from the table `before` to the table `after` and is on record:
/// the hand was started, the robots played it to its end, and one more hand is counted in
/// the slot of its outcome.
pub open spec fn hand_recorded<F: Fn(&Agent, &Vec<Card>) -> usize>(
    before: GameState,
    tally_before: Seq<usize>,
    after: GameState,
    tally: Seq<usize>,
    appraise: &F,
) -> bool {
    exists|dealt: GameState, heard: Seq<ServerMessage>|
        {
            &&& #[trigger] after.robots_played(&dealt, Seq::empty(), heard, appraise)
            &&& dealt.started_from(&before)
            &&& !after.playing()
            &&& after.decided()
            &&& tally == tally_before.update(
                slot_of(after.outcome()->0),
                (tally_before[slot_of(after.outcome()->0)] + 1) as usize,
            )
        }
}

/// `rounds` hands have been played, one after the other, from the table `before` to the
/// table `after`, and each is on record.
pub open spec fn hands_recorded<F: Fn(&Agent, &Vec<Card>) -> usize>(
    before: GameState,
    tally_before: Seq<usize>,
    after: GameState,
    tally: Seq<usize>,
    rounds: nat,
    appraise: &F,
) -> bool
    decreases rounds,
{
    if rounds == 0 {
        after == before && tally == tally_before
    } else {
        exists|last: GameState, tally_last: Seq<usize>|
            if #[trigger] hand_recorded(last, tally_last, after, tally, appraise) && rounds > 0 {
                hands_recorded(
                    before,
                    tally_before,
                    last,
                    tally_last,
                    (rounds - 1) as nat,
                    appraise,
                )
            } else {
                false
            }
    }
}

impl Train {
    /// How many hands a run plays.
    pub closed spec fn rounds(&self) -> nat {
        self.times as nat
    }

    /// The table at which the hands are played.
    pub closed spec fn table(&self) -> GameState {
        self.game
    }

    /// How many hands each seat has won, and last how many nobody won.
    pub closed spec fn tally(&self) -> Seq<usize> {
        self.records@
    }

    /// How many hands have been played.
    pub open spec fn played(&self) -> nat {
        (self.tally()[0] + self.tally()[1] + self.tally()[2] + self.tally()[3]) as nat
    }

    /// The table is at rest with three robots, and the record has its four slots.
    pub open spec fn wf(&self) -> bool {
        &&& self.table().wf()
        &&& !self.table().playing()
        &&& self.table().seats().len() == 3
        &&& self.table().seats()[0].is_robot
        &&& self.table().seats()[1].is_robot
        &&& self.table().seats()[2].is_robot
        &&& self.tally().len() == 4
    }

    /// Sets up a run of `times` hands: three robots at a table that shuffles its deck, the
    /// first playing by the heuristic, the two others at random, and nothing on record.
    pub fn new(times: usize) -> (train: Self)
        ensures
            train.wf(),
            train.rounds() == times,
            train.tally() == seq![0usize, 0usize, 0usize, 0usize],
            train.table().seats()[0].strategy == Strategy::Level1,
            train.table().seats()[1].strategy == Strategy::Random,
            train.table().seats()[2].strategy == Strategy::Random,
            !train.table().rehearsal(),
            train.table().outcome() is None,
    {
        let mut game = GameState::default();
        game.add_robot();
        game.add_robot();
        game.add_robot();
        game.set_strategy(0, Strategy::Level1);
        game.set_strategy(1, Strategy::Random);
        game.set_strategy(2, Strategy::Random);
        let mut records: Vec<usize> = Vec::new();
        records.push(0);
        records.push(0);
        records.push(0);
        records.push(0);
        assert(records@ =~= seq![0usize, 0usize, 0usize, 0usize]);
        Self { times, game, records }
    }

    /// Plays the hands of the run: each is started, played by the robots to its end, and
    /// counted with the seat that won it, or last where nobody won.
    #[verifier::rlimit(40)]
    pub fn run<F: Fn(&Agent, &Vec<Card>) -> usize>(&mut self, appraise: &F)
        requires
            old(self).wf(),
            old(self).played() + old(self).rounds() <= usize::MAX,
            appraises_all(appraise),
        ensures
            final(self).wf(),
            final(self).rounds() == old(self).rounds(),
            hands_recorded(
                old(self).table(),
                old(self).tally(),
                final(self).table(),
                final(self).tally(),
                old(self).rounds(),
                appraise,
            ),
            final(self).played() == old(self).played() + old(self).rounds(),
            forall|seat: int|
                0 <= seat < 4 ==> final(self).tally()[seat] >= old(self).tally()[seat],
            final(self).table().same_seats(&old(self).table()),
            final(self).table().rehearsal() == old(self).table().rehearsal(),
    {
        let mut round: usize = 0;
        while round < self.times
            invariant
                round <= self.times,
                self.wf(),
                self.times == old(self).times,
                old(self).played() + old(self).rounds() <= usize::MAX,
                hands_recorded(
                    old(self).table(),
                    old(self).tally(),
                    self.table(),
                    self.tally(),
                    round as nat,
                    appraise,
                ),
                self.played() == old(self).played() + round,
                forall|seat: int| 0 <= seat < 4 ==> self.tally()[seat] >= old(self).tally()[seat],
                self.table().same_seats(&old(self).table()),
                self.table().rehearsal() == old(self).table().rehearsal(),
                appraises_all(appraise),
            decreases self.times - round,
        {
            let ghost last = self.game;
            let ghost tally_last = self.records@;
            let started = self.game.start();
            assert(started is Ok);
            let ghost dealt = self.game;
            let mut outbox: Vec<ServerMessage> = Vec::new();
            self.game.wait_robot(&mut outbox, appraise);
            proof {
                assert(dealt.started_from(&last));
            }
            let slot: usize = match self.game.winner() {
                Some(winner) => if winner == NO_WINNER {
                    3
                } else {
                    winner as usize
                },
                None => 3,
            };
            self.records[slot] = self.records[slot] + 1;
            proof {
                assert(self.game.robots_played(&dealt, Seq::empty(), outbox@, appraise));
                assert(hand_recorded(last, tally_last, self.game, self.records@, appraise));
            }
            round += 1;
        }
    }

    /// The table at which the hands are played.
    pub fn game(&self) -> (table: &GameState)
        ensures
            *table == self.table(),
    {
        &self.game
    }

    /// How many hands each seat has won, and last how many nobody won.
    pub fn records(&self) -> (records: &Vec<usize>)
        ensures
            records@ == self.tally(),
    {
        &self.records
    }
}

} // verus!
