//! A seat at the table: its tiles, what it knows of its neighbours, and how it plays.

use vstd::prelude::*;
use crate::card::Card;
use crate::card::Pairing;

pub mod belief;
pub mod claim;
pub mod waiting;

verus! {

/// How a robot seat decides.
#[derive(Clone, Copy, Debug, PartialEq, Eq, Structural)]
pub enum Strategy {
    /// Discards a tile picked at random and takes a claim on the toss of a coin.
    Random,
    /// Discards the tile that helps its runs and sets least and takes every claim.
    Level1,
    /// Always discards its first tile, takes triplets and leaves quadlets.
    Test,
}

impl Default for Strategy {
    /// A seat plays by the heuristic unless it is told otherwise.
    fn default() -> (strategy: Self)
        ensures
            strategy == Strategy::Level1,
    {
        Strategy::Level1
    }
}

/// One seat at the table.
pub struct Agent {
    /// The tiles the seat holds.
    pub hand: Vec<Card>,
    /// The seat's own discards that nobody has claimed.
    pub out: Vec<Card>,
    /// The seat's own melds.
    pub pairing: Vec<Pairing>,
    /// What the seat has seen of the discards of the seat to its right.
    pub player_right_out: Vec<Card>,
    /// The melds of the seat to its right.
    pub player_right_pairing: Vec<Pairing>,
    /// What the seat has seen of the discards of the seat to its left.
    pub player_left_out: Vec<Card>,
    /// The melds of the seat to its left.
    pub player_left_pairing: Vec<Pairing>,
    pub round: u8,
    pub turn: u8,
    pub is_robot: bool,
    pub ready: bool,
    pub strategy: Strategy,
    /// The belief: for each of the 24 kinds, how many copies the seat takes to be unseen.
    pub prob: [u8; 24],
    /// How many tiles the seat takes to be unseen, all kinds together.
    pub remaining: u8,
    /// The wildcard of the session.
    pub jing: Card,
    /// The kinds the seat was found to wait for when it last discarded, if any.
    pub ting: Option<Vec<u8>>,
}

impl Default for Agent {
    /// A human seat that holds nothing, is not ready, and takes the tile 0 for the wildcard.
    fn default() -> (agent: Self)
        ensures
            agent.is_cleared(),
            !agent.is_robot,
            !agent.ready,
            agent.strategy == Strategy::Level1,
            agent.jing == Card(0),
            agent.turn == 0,
    {
        let agent = Agent {
            hand: Vec::new(),
            out: Vec::new(),
            pairing: Vec::new(),
            player_right_out: Vec::new(),
            player_right_pairing: Vec::new(),
            player_left_out: Vec::new(),
            player_left_pairing: Vec::new(),
            round: 0,
            turn: 0,
            is_robot: false,
            ready: false,
            strategy: Strategy::Level1,
            prob: [0u8; 24],
            remaining: 0,
            jing: Card(0),
            ting: None,
        };
        assert(agent.prob@ =~= Seq::new(24, |kind: int| 0u8));
        agent
    }
}

impl Agent {
    /// The kinds the seat was found to wait for when it last discarded, if any.
    pub open spec fn waiting(&self) -> Option<Seq<u8>> {
        match self.ting {
            Some(kinds) => Some(kinds@),
            None => None,
        }
    }

    /// Both seats are the same but for what they believe and what they wait for.
    pub open spec fn same_table(&self, other: &Agent) -> bool {
        &&& self.hand@ == other.hand@
        &&& self.out@ == other.out@
        &&& self.pairing@ == other.pairing@
        &&& self.player_right_out@ == other.player_right_out@
        &&& self.player_right_pairing@ == other.player_right_pairing@
        &&& self.player_left_out@ == other.player_left_out@
        &&& self.player_left_pairing@ == other.player_left_pairing@
        &&& self.round == other.round
        &&& self.turn == other.turn
        &&& self.is_robot == other.is_robot
        &&& self.ready == other.ready
        &&& self.strategy == other.strategy
        &&& self.jing == other.jing
    }

    /// The seat holds nothing of a hand: no tiles, no melds, no belief.
    pub open spec fn is_cleared(&self) -> bool {
        &&& self.hand@.len() == 0
        &&& self.out@.len() == 0
        &&& self.pairing@.len() == 0
        &&& self.player_right_out@.len() == 0
        &&& self.player_right_pairing@.len() == 0
        &&& self.player_left_out@.len() == 0
        &&& self.player_left_pairing@.len() == 0
        &&& self.round == 0
        &&& self.waiting() is None
        &&& self.remaining == 0
        &&& self.prob@ == Seq::new(24, |kind: int| 0u8)
    }

    /// Forgets the hand that was played: tiles, melds, belief. Who sits here, and how the seat
    /// plays, stays.
    pub fn clear(&mut self)
        ensures
            final(self).is_cleared(),
            final(self).turn == old(self).turn,
            final(self).is_robot == old(self).is_robot,
            final(self).ready == old(self).ready,
            final(self).strategy == old(self).strategy,
            final(self).jing == old(self).jing,
    {
        self.hand.clear();
        self.out.clear();
        self.pairing.clear();
        self.player_left_out.clear();
        self.player_right_out.clear();
        self.player_left_pairing.clear();
        self.player_right_pairing.clear();
        self.ting = None;
        self.round = 0;
        self.prob = [0u8; 24];
        self.remaining = 0;
        assert(self.prob@ =~= Seq::new(24, |kind: int| 0u8));
    }
}

} // verus!
