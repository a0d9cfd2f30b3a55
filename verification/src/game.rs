//! The table: seats, deck, turn and offer, and what can be asked of it between hands.

use vstd::prelude::*;
use crate::agent::Agent;
use crate::agent::Strategy;
use crate::card::Card;
use crate::message::Mode;
use crate::table::Piles;
use crate::table::at_rest;
use crate::table::believed;
use crate::table::fresh_deck;
use crate::table::fuel_of;
use crate::table::holding;
use crate::table::in_play;
use crate::table::on_top;
use crate::table::piles_of;
use crate::table::roles_kept;
use crate::table::tiles_ok;
use crate::table::order::lemma_same_piles_informed;
use crate::table::order::lemma_seat_accountable;
use crate::tally::copies;
use crate::tally::tally;
use crate::win::bank;
use crate::win::banked;
use crate::win::is_win;
use crate::win::lemma_win_capped;

pub mod deal;
pub mod turn;
pub mod claim;
pub mod robot;

verus! {

/// Number of seats at the table while a hand is played.
pub const PLAYER_NUM: u8 = 3;

/// The mark of a hand that ended with the deck used up and no winner.
pub const NO_WINNER: u8 = 255;

/// The table: the seats, the deck, whose turn it is and what is offered.
///
/// Between hands the seats hold nothing and the deck is whole and in order. While a hand is
/// played the table has three seats, and of every kind four tiles are about: in the hands,
/// on the piles, in the melds and in the deck.
pub struct GameState {
    players: Vec<Agent>,
    remaining_cards: Vec<Card>,
    turn: u8,
    prev_turn: Option<u8>,
    jing: Card,
    mode: Mode,
    test: bool,
    winner: Option<u8>,
    dealt: bool,
}

impl GameState {
    /// The seats in their order.
    pub closed spec fn seats(&self) -> Seq<Agent> {
        self.players@
    }

    /// The tiles not yet dealt or drawn; the last is drawn next.
    pub closed spec fn stock(&self) -> Seq<Card> {
        self.remaining_cards@
    }

    /// The seat whose turn it is.
    pub closed spec fn whose_turn(&self) -> int {
        self.turn as int
    }

    /// The seat that plays on when an offered claim is declined.
    pub closed spec fn resume_at(&self) -> Option<u8> {
        self.prev_turn
    }

    /// The wildcard of the session.
    pub closed spec fn wildcard(&self) -> Card {
        self.jing
    }

    /// What the seat whose turn it is has before it.
    pub closed spec fn offer(&self) -> Mode {
        self.mode
    }

    /// Whether hands are dealt from the known deck, for reproducible play.
    pub closed spec fn rehearsal(&self) -> bool {
        self.test
    }

    /// How the last hand ended: the seat that won, or [`NO_WINNER`].
    pub closed spec fn outcome(&self) -> Option<u8> {
        self.winner
    }

    /// Whether a hand is being played.
    pub closed spec fn playing(&self) -> bool {
        self.dealt
    }

    /// The tiles before each seat.
    pub open spec fn piles(&self) -> Seq<Piles> {
        piles_of(self.seats())
    }

    /// The table is in order.
    pub open spec fn wf(&self) -> bool {
        if self.playing() {
            in_play(
                self.seats(),
                self.stock(),
                self.whose_turn(),
                self.resume_at(),
                self.offer(),
                self.outcome(),
            )
        } else {
            at_rest(self.seats(), self.stock(), self.whose_turn(), self.resume_at(), self.offer())
        }
    }

    /// The seat whose turn it is.
    pub open spec fn mover(&self) -> Agent {
        self.seats()[self.whose_turn()]
    }

    /// Whether it is for the seat `player` to discard: a hand is played, it is its ordinary
    /// turn, and it owes a discard.
    pub open spec fn to_discard(&self, player: int) -> bool {
        &&& self.playing()
        &&& player == self.whose_turn()
        &&& self.offer() == Mode::Normal
        &&& self.owes_discard()
    }

    /// Whether the seat whose turn it is has a tile too many and owes a discard.
    pub open spec fn owes_discard(&self) -> bool {
        holding(self.piles()[self.whose_turn()]) == 20
    }

    /// The tile is the last discard of the seat whose turn it is.
    pub open spec fn discard_on_top(&self, card: Card) -> bool {
        on_top(self.piles(), self.whose_turn(), card)
    }

    /// A bound on the robot turns the hand can still take: twice the tiles in the deck and
    /// in the hands, and one more while a claim is offered.
    pub open spec fn fuel(&self) -> nat {
        fuel_of(self.piles(), self.stock(), self.offer())
    }

    /// Both tables are the same but for their seats.
    pub open spec fn same_but_seats(&self, other: &GameState) -> bool {
        &&& self.stock() == other.stock()
        &&& self.whose_turn() == other.whose_turn()
        &&& self.resume_at() == other.resume_at()
        &&& self.wildcard() == other.wildcard()
        &&& self.offer() == other.offer()
        &&& self.rehearsal() == other.rehearsal()
        &&& self.outcome() == other.outcome()
        &&& self.playing() == other.playing()
    }

    /// The table is `before` with the tiles as given: who sits and how the seats play is the
    /// same, and so are the wildcard and the way of dealing.
    pub open spec fn played_from(&self, before: &GameState, table: Seq<Piles>) -> bool {
        &&& self.piles() == table
        &&& roles_kept(before.seats(), self.seats())
        &&& self.wildcard() == before.wildcard()
        &&& self.rehearsal() == before.rehearsal()
        &&& self.resume_at() == before.resume_at()
        &&& self.outcome() == before.outcome()
    }

    /// Every seat remembers of what it waits for what it remembered before.
    pub open spec fn waits_kept(&self, before: &GameState) -> bool {
        &&& self.seats()[0].waiting() == before.seats()[0].waiting()
        &&& self.seats()[1].waiting() == before.seats()[1].waiting()
        &&& self.seats()[2].waiting() == before.seats()[2].waiting()
    }

    /// The seats are those of `before` with their tiles given up; the wildcard and the way
    /// of dealing are the same.
    pub open spec fn cleared_from(&self, before: &GameState) -> bool {
        &&& self.seats().len() == before.seats().len()
        &&& self.wildcard() == before.wildcard()
        &&& self.rehearsal() == before.rehearsal()
        &&& forall|seat: int|
            0 <= seat < self.seats().len() ==> {
                let now = #[trigger] self.seats()[seat];
                let then = before.seats()[seat];
                &&& now.is_cleared()
                &&& now.turn == then.turn
                &&& now.is_robot == then.is_robot
                &&& now.ready == then.ready
                &&& now.strategy == then.strategy
                &&& now.jing == then.jing
            }
    }

    /// The seats in their order.
    pub fn players(&self) -> (seats: &Vec<Agent>)
        ensures
            seats@ == self.seats(),
    {
        &self.players
    }

    /// The tiles not yet dealt or drawn; the last is drawn next.
    pub fn remaining_cards(&self) -> (stock: &Vec<Card>)
        ensures
            stock@ == self.stock(),
    {
        &self.remaining_cards
    }

    /// The seat whose turn it is.
    pub fn turn(&self) -> (seat: u8)
        ensures
            seat == self.whose_turn(),
    {
        self.turn
    }

    /// The seat that plays on when an offered claim is declined.
    pub fn prev_turn(&self) -> (seat: Option<u8>)
        ensures
            seat == self.resume_at(),
    {
        self.prev_turn
    }

    /// The wildcard of the session.
    pub fn jing(&self) -> (card: Card)
        ensures
            card == self.wildcard(),
    {
        self.jing
    }

    /// What the seat whose turn it is has before it.
    pub fn mode(&self) -> (mode: Mode)
        ensures
            mode == self.offer(),
    {
        self.mode
    }

    /// Whether hands are dealt from the known deck.
    pub fn is_test(&self) -> (test: bool)
        ensures
            test == self.rehearsal(),
    {
        self.test
    }

    /// How the last hand ended: the seat that won, or [`NO_WINNER`].
    pub fn winner(&self) -> (winner: Option<u8>)
        ensures
            winner == self.outcome(),
    {
        self.winner
    }

    /// Whether a hand is being played.
    pub fn is_playing(&self) -> (playing: bool)
        ensures
            playing == self.playing(),
    {
        self.dealt
    }

    /// Whether the seat whose turn it is has a tile too many and owes a discard.
    pub fn must_discard(&self) -> (owes: bool)
        requires
            self.wf(),
            self.playing(),
        ensures
            owes == self.owes_discard(),
    {
        let seat = &self.players[self.turn as usize];
        assert(self.piles()[self.turn as int] == self.players@[self.turn as int].piles());
        seat.hand.len() + 3 * seat.pairing.len() == 20
    }

    /// Whether it is the turn of a robot.
    pub fn is_robot_turn(&self) -> (robot: bool)
        ensures
            robot == (self.whose_turn() < self.seats().len()
                && self.mover().is_robot),
    {
        (self.turn as usize) < self.players.len() && self.players[self.turn as usize].is_robot
    }

    /// The tiles that the seat at `ind` holds.
    pub fn hand_of_player(&self, ind: usize) -> (hand: Vec<Card>)
        requires
            ind < self.seats().len(),
        ensures
            hand@ == self.seats()[ind as int].hand@,
    {
        let hand = self.players[ind].hand.clone();
        assert(hand@ =~= self.players@[ind as int].hand@);
        hand
    }

    /// Counts the tiles of a hand that are of the kind of the given tile.
    pub fn count_same_type(hand: &Vec<Card>, card: &Card) -> (count: usize)
        ensures
            count == copies(hand@, card.kind()),
    {
        let table = tally(hand);
        table[(card.0 / 4) as usize]
    }

    /// Whether the hand can claim the tile for a quadlet: it holds three of the kind.
    pub fn can_form_quadlet(hand: &Vec<Card>, card: &Card) -> (yes: bool)
        ensures
            yes == (copies(hand@, card.kind()) == 3),
    {
        Self::count_same_type(hand, card) == 3
    }

    /// Whether the hand can claim the tile for a triplet: it holds two of the kind.
    pub fn can_form_triplet(hand: &Vec<Card>, card: &Card) -> (yes: bool)
        ensures
            yes == (copies(hand@, card.kind()) == 2),
    {
        Self::count_same_type(hand, card) == 2
    }

    /// Whether the seat whose turn it is has won: whether its hand wins with the score banked
    /// by its melds, four a triplet and eight a quadlet.
    pub fn is_player_hu(&self) -> (won: bool)
        requires
            self.whose_turn() < self.seats().len(),
        ensures
            won == self.wins(),
    {
        let seat = &self.players[self.turn as usize];
        let score = bank(&seat.pairing);
        proof {
            lemma_win_capped(seat.hand@, banked(seat.pairing@), self.jing);
        }
        Self::is_hu(&seat.hand, score, self.jing)
    }

    /// Whether the seat whose turn it is has a winning hand, at four a triplet and eight a
    /// quadlet banked.
    pub open spec fn wins(&self) -> bool {
        is_win(
            self.mover().hand@,
            banked(self.mover().pairing@),
            self.wildcard(),
        )
    }

    /// Turns on the dealing from the known deck. Robots that sit down from now on play the
    /// test strategy.
    pub fn set_test(&mut self)
        requires
            old(self).wf(),
        ensures
            final(self).wf(),
            final(self).rehearsal(),
            final(self).seats() == old(self).seats(),
            final(self).stock() == old(self).stock(),
            final(self).whose_turn() == old(self).whose_turn(),
            final(self).resume_at() == old(self).resume_at(),
            final(self).wildcard() == old(self).wildcard(),
            final(self).offer() == old(self).offer(),
            final(self).outcome() == old(self).outcome(),
            final(self).playing() == old(self).playing(),
    {
        self.test = true;
    }

    /// Seats a human: a seat that holds nothing and is not yet ready.
    pub fn add_player(&mut self)
        requires
            old(self).wf(),
            !old(self).playing(),
        ensures
            final(self).wf(),
            final(self).seats().len() == old(self).seats().len() + 1,
            final(self).seats().drop_last() == old(self).seats(),
            final(self).seats().last().is_cleared(),
            !final(self).seats().last().is_robot,
            !final(self).seats().last().ready,
            final(self).seats().last().strategy == Strategy::Level1,
            final(self).seats().last().jing == Card(0),
            final(self).seats().last().turn == 0,
            final(self).same_but_seats(old(self)),
    {
        self.players.push(Agent::default());
        assert(self.players@.drop_last() =~= old(self).players@);
    }

    /// Seats a robot, ready to play. It plays the test strategy where the table deals from
    /// the known deck, and the heuristic strategy elsewhere.
    pub fn add_robot(&mut self)
        requires
            old(self).wf(),
            !old(self).playing(),
        ensures
            final(self).wf(),
            final(self).seats().len() == old(self).seats().len() + 1,
            final(self).seats().drop_last() == old(self).seats(),
            final(self).seats().last().is_cleared(),
            final(self).seats().last().is_robot,
            final(self).seats().last().ready,
            final(self).seats().last().strategy == if old(self).rehearsal() {
                Strategy::Test
            } else {
                Strategy::Level1
            },
            final(self).seats().last().jing == Card(0),
            final(self).seats().last().turn == 0,
            final(self).same_but_seats(old(self)),
    {
        let mut agent = Agent::default();
        agent.is_robot = true;
        agent.ready = true;
        if self.test {
            agent.strategy = Strategy::Test;
        }
        self.players.push(agent);
        assert(self.players@.drop_last() =~= old(self).players@);
    }

    /// Takes the seat at `ind` from the table; the seats behind it move up. A hand that is
    /// being played ends without a winner.
    pub fn remove_player(&mut self, ind: usize)
        requires
            old(self).wf(),
            ind < old(self).seats().len(),
        ensures
            final(self).wf(),
            !final(self).playing(),
            final(self).wildcard() == old(self).wildcard(),
            final(self).rehearsal() == old(self).rehearsal(),
            if old(self).playing() {
                &&& final(self).outcome() == Some(NO_WINNER)
                &&& exists|ended: GameState| #[trigger]
                    ended.cleared_from(old(self)) && final(self).seats() == ended.seats().remove(
                        ind as int,
                    )
            } else {
                &&& final(self).outcome() == old(self).outcome()
                &&& final(self).seats() == old(self).seats().remove(ind as int)
            },
    {
        if self.dealt {
            self.finish(NO_WINNER);
        }
        let ghost ended = *self;
        self.players.remove(ind);
        proof {
            if old(self).playing() {
                assert(ended.cleared_from(old(self)));
            }
        }
    }

    /// Sets how the seat at `ind` plays.
    pub fn set_strategy(&mut self, ind: usize, strategy: Strategy)
        requires
            old(self).wf(),
            ind < old(self).seats().len(),
        ensures
            final(self).wf(),
            final(self).seats() == old(self).seats().update(
                ind as int,
                Agent { strategy, ..old(self).seats()[ind as int] },
            ),
            final(self).same_but_seats(old(self)),
    {
        self.players[ind].strategy = strategy;
        proof {
            assert(self.players@ =~= old(self).players@.update(
                ind as int,
                Agent { strategy, ..old(self).players@[ind as int] },
            ));
            lemma_roles_keep_order(old(self).players@, self.players@);
        }
    }

    /// Marks the seat at `ind` as ready.
    pub fn set_ready(&mut self, ind: usize)
        requires
            old(self).wf(),
            ind < old(self).seats().len(),
        ensures
            final(self).wf(),
            final(self).seats() == old(self).seats().update(
                ind as int,
                Agent { ready: true, ..old(self).seats()[ind as int] },
            ),
            final(self).same_but_seats(old(self)),
    {
        self.players[ind].ready = true;
        proof {
            assert(self.players@ =~= old(self).players@.update(
                ind as int,
                Agent { ready: true, ..old(self).players@[ind as int] },
            ));
            lemma_roles_keep_order(old(self).players@, self.players@);
        }
    }

    /// Ends the hand, if one is played, and puts the table at rest: the seats give up their
    /// tiles, the deck is whole and in order again. Who sits, and how the last hand ended,
    /// stays.
    pub fn end(&mut self)
        requires
            old(self).wf(),
        ensures
            final(self).wf(),
            !final(self).playing(),
            final(self).cleared_from(old(self)),
            final(self).outcome() == old(self).outcome(),
    {
        let n = self.players.len();
        let mut i: usize = 0;
        while i < n
            invariant
                i <= n,
                n == self.players@.len(),
                n == old(self).players@.len(),
                forall|seat: int|
                    0 <= seat < i ==> {
                        let after = #[trigger] self.players@[seat];
                        let before = old(self).players@[seat];
                        &&& after.is_cleared()
                        &&& after.turn == before.turn
                        &&& after.is_robot == before.is_robot
                        &&& after.ready == before.ready
                        &&& after.strategy == before.strategy
                        &&& after.jing == before.jing
                    },
                forall|seat: int| i <= seat < n ==> self.players@[seat] == old(self).players@[seat],
                self.jing == old(self).jing,
                self.test == old(self).test,
                self.winner == old(self).winner,
            decreases n - i,
        {
            self.players[i].clear();
            i += 1;
        }
        self.remaining_cards = new_deck();
        self.turn = 0;
        self.prev_turn = None;
        self.mode = Mode::Normal;
        self.dealt = false;
    }

    /// Ends the hand and records how it ended.
    fn finish(&mut self, outcome: u8)
        requires
            old(self).wf(),
        ensures
            final(self).wf(),
            !final(self).playing(),
            final(self).outcome() == Some(outcome),
            final(self).cleared_from(old(self)),
    {
        self.end();
        self.winner = Some(outcome);
    }

    /// Works the belief of every seat out anew.
    fn refresh(&mut self)
        requires
            old(self).players@.len() == 3,
            tiles_ok(piles_of(old(self).players@), old(self).remaining_cards@),
        ensures
            piles_of(final(self).players@) == piles_of(old(self).players@),
            roles_kept(old(self).players@, final(self).players@),
            believed(final(self).players@),
            final(self).players@[0].waiting() == old(self).players@[0].waiting(),
            final(self).players@[1].waiting() == old(self).players@[1].waiting(),
            final(self).players@[2].waiting() == old(self).players@[2].waiting(),
            final(self).remaining_cards == old(self).remaining_cards,
            final(self).turn == old(self).turn,
            final(self).prev_turn == old(self).prev_turn,
            final(self).jing == old(self).jing,
            final(self).mode == old(self).mode,
            final(self).test == old(self).test,
            final(self).winner == old(self).winner,
            final(self).dealt == old(self).dealt,
    {
        proof {
            lemma_seat_accountable(self.players@, self.remaining_cards@, 0);
            lemma_seat_accountable(self.players@, self.remaining_cards@, 1);
            lemma_seat_accountable(self.players@, self.remaining_cards@, 2);
        }
        self.players[0].update_probability();
        self.players[1].update_probability();
        self.players[2].update_probability();
        assert(piles_of(self.players@) =~= piles_of(old(self).players@));
    }
}

/// Two rows of seats have the same tiles before them and believe the same, seat by seat:
/// they differ at most in who sits and how the seats play.
pub open spec fn same_tiles(before: Seq<Agent>, after: Seq<Agent>) -> bool {
    &&& before.len() == after.len()
    &&& forall|seat: int|
        0 <= seat < before.len() ==> {
            let a = #[trigger] before[seat];
            let b = after[seat];
            &&& a.piles() == b.piles()
            &&& a.round == b.round
            &&& a.prob@ == b.prob@
            &&& a.remaining == b.remaining
            &&& a.waiting() == b.waiting()
        }
}

/// Whether a table is in order depends on the tiles and the beliefs alone, not on who sits
/// or how the seats play.
pub proof fn lemma_roles_keep_order(before: Seq<Agent>, after: Seq<Agent>)
    requires
        same_tiles(before, after),
    ensures
        piles_of(before) == piles_of(after),
        forall|stock: Seq<Card>, turn: int, resume: Option<u8>, offer: Mode, outcome: Option<u8>|
            #[trigger] in_play(before, stock, turn, resume, offer, outcome) ==> in_play(
                after,
                stock,
                turn,
                resume,
                offer,
                outcome,
            ),
        forall|stock: Seq<Card>, turn: int, resume: Option<u8>, offer: Mode|
            #[trigger] at_rest(before, stock, turn, resume, offer) ==> at_rest(
                after,
                stock,
                turn,
                resume,
                offer,
            ),
{
    assert(piles_of(before) =~= piles_of(after));
    assert forall|stock: Seq<Card>, turn: int, resume: Option<u8>, offer: Mode, outcome: Option<u8>|
        #[trigger] in_play(before, stock, turn, resume, offer, outcome) implies in_play(
        after,
        stock,
        turn,
        resume,
        offer,
        outcome,
    ) by {
        lemma_same_piles_informed(before[0], after[0]);
        lemma_same_piles_informed(before[1], after[1]);
        lemma_same_piles_informed(before[2], after[2]);
    }
    assert forall|stock: Seq<Card>, turn: int, resume: Option<u8>, offer: Mode| #[trigger]
        at_rest(before, stock, turn, resume, offer) implies at_rest(
        after,
        stock,
        turn,
        resume,
        offer,
    ) by {
        assert forall|seat: int| 0 <= seat < after.len() implies (
        #[trigger] after[seat]).is_cleared() by {
            assert(before[seat].is_cleared());
        }
    }
}

/// Builds the whole deck in order.
fn new_deck() -> (deck: Vec<Card>)
    ensures
        deck@ == fresh_deck(),
{
    let mut deck: Vec<Card> = Vec::new();
    let mut id: u8 = 0;
    while id < 96
        invariant
            id <= 96,
            deck@.len() == id,
            forall|i: int| 0 <= i < id ==> deck@[i] == Card(i as u8),
        decreases 96 - id,
    {
        deck.push(Card(id));
        id += 1;
    }
    assert(deck@ =~= fresh_deck());
    deck
}

impl Default for GameState {
    /// A table with no seat, at rest.
    fn default() -> (table: Self)
        ensures
            table.wf(),
            !table.playing(),
            table.seats().len() == 0,
            !table.rehearsal(),
            table.outcome() is None,
    {
        GameState {
            players: Vec::new(),
            remaining_cards: new_deck(),
            turn: 0,
            prev_turn: None,
            jing: Card(0),
            mode: Mode::Normal,
            test: false,
            winner: None,
            dealt: false,
        }
    }
}

} // verus!
