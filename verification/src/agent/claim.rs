//! Claims of a seat: melding the tiles of a kind with a neighbour's discard.

use vstd::prelude::*;
use crate::agent::Agent;
use crate::agent::Strategy;
use crate::card::Card;
use crate::card::Pairing;
use crate::chance::random_u8;
use crate::game::GameState;
use crate::tally::copies;
use crate::tally::lemma_copies_drop_last;
use crate::tally::lemma_melded_push;
use crate::tally::lemma_without_kind;
use crate::tally::remove_kind;
use crate::tally::without_kind;

verus! {

impl Strategy {
    /// Whether a seat that plays this way takes an offered triplet. Only the random player
    /// looks at the toss, and takes the triplet when it is odd.
    pub fn takes_triplet(self, toss: u8) -> (yes: bool)
        ensures
            yes == match self {
                Strategy::Random => toss % 2 == 1,
                Strategy::Level1 => true,
                Strategy::Test => true,
            },
    {
        match self {
            Strategy::Random => toss % 2 == 1,
            _ => true,
        }
    }

    /// Whether a seat that plays this way takes an offered quadlet. Only the random player
    /// looks at the toss, and takes the quadlet when it is odd.
    pub fn takes_quadlet(self, toss: u8) -> (yes: bool)
        ensures
            yes == match self {
                Strategy::Random => toss % 2 == 1,
                Strategy::Level1 => true,
                Strategy::Test => false,
            },
    {
        match self {
            Strategy::Random => toss % 2 == 1,
            Strategy::Level1 => true,
            Strategy::Test => false,
        }
    }
}

/// A neighbour's pile as a seat sees it once a tile of the given kind on top of it has been
/// claimed.
pub open spec fn retracted(pile: Seq<Card>, kind: int) -> Seq<Card> {
    if pile.len() > 0 && pile.last().kind() == kind {
        pile.drop_last()
    } else {
        pile
    }
}

/// Takes the top tile off a pile if it is of the kind of the given tile.
fn retract(pile: &mut Vec<Card>, card: &Card)
    ensures
        final(pile)@ == retracted(old(pile)@, card.kind()),
{
    let n = pile.len();
    if n > 0 {
        if pile[n - 1].is_same_kind(card) {
            pile.pop();
        }
    }
}

impl Agent {
    /// The tile on top of a neighbour's pile, as the seat sees it, is of the kind of `card`.
    pub open spec fn sees_discard(&self, card: Card) -> bool {
        ||| self.player_right_out@.len() > 0 && self.player_right_out@.last().kind() == card.kind()
        ||| self.player_left_out@.len() > 0 && self.player_left_out@.last().kind() == card.kind()
    }

    /// The seat is `before` after it has claimed a discard with the given meld: the tiles of
    /// the kind have left the hand, the meld is added, the claimed tile is off the top of the
    /// neighbours' piles, and the belief is worked out anew.
    pub open spec fn claimed(&self, before: &Agent, meld: Pairing) -> bool {
        let kind = meld.card().kind();
        &&& self.hand@ == without_kind(before.hand@, kind)
        &&& self.out@ == before.out@
        &&& self.pairing@ == before.pairing@.push(meld)
        &&& self.player_right_out@ == retracted(before.player_right_out@, kind)
        &&& self.player_right_pairing@ == before.player_right_pairing@
        &&& self.player_left_out@ == retracted(before.player_left_out@, kind)
        &&& self.player_left_pairing@ == before.player_left_pairing@
        &&& self.round == before.round
        &&& self.turn == before.turn
        &&& self.is_robot == before.is_robot
        &&& self.ready == before.ready
        &&& self.strategy == before.strategy
        &&& self.jing == before.jing
        &&& self.waiting() == before.waiting()
        &&& self.informed()
    }

    /// Melds the tiles of the kind of `card` with the claimed discard and works the belief out
    /// anew.
    pub fn meld(&mut self, meld: Pairing)
        requires
            old(self).accountable(),
            old(self).sees_discard(meld.card()),
            copies(old(self).hand@, meld.card().kind()) + 1 == meld.size(),
        ensures
            final(self).claimed(old(self), meld),
            final(self).accountable(),
            final(self).hand@.len() + meld.size() == old(self).hand@.len() + 1,
    {
        let card = match meld {
            Pairing::Triplet(c) => c,
            Pairing::Quadlet(c) => c,
        };
        let ghost kind = card.kind();
        self.pairing.push(meld);
        remove_kind(&mut self.hand, card.0 / 4);
        retract(&mut self.player_right_out, &card);
        retract(&mut self.player_left_out, &card);
        proof {
            assert forall|k: int| 0 <= k < 24 implies self.seen(k) <= old(self).seen(k) by {
                lemma_without_kind(old(self).hand@, kind, k);
                lemma_melded_push(old(self).pairing@, meld, k);
                if old(self).player_right_out@.len() > 0 {
                    lemma_copies_drop_last(old(self).player_right_out@, k);
                }
                if old(self).player_left_out@.len() > 0 {
                    lemma_copies_drop_last(old(self).player_left_out@, k);
                }
            }
            lemma_without_kind(old(self).hand@, kind, kind);
        }
        self.update_probability();
    }

    /// Answers an offered quadlet on `card`, as the seat's strategy has it. Where the hand
    /// does not hold exactly three tiles of the kind nothing is changed and the claim is not
    /// made.
    pub fn pao_card(&mut self, card: Card) -> (taken: bool)
        requires
            old(self).accountable(),
            old(self).sees_discard(card),
        ensures
            taken ==> copies(old(self).hand@, card.kind()) == 3 && old(self).strategy
                != Strategy::Test && final(self).claimed(old(self), Pairing::Quadlet(card))
                && final(self).hand@.len() + 3 == old(self).hand@.len(),
            copies(old(self).hand@, card.kind()) != 3 || old(self).strategy == Strategy::Test
                ==> !taken && *final(self) == *old(self),
            copies(old(self).hand@, card.kind()) == 3 && old(self).strategy == Strategy::Level1
                ==> taken,
            !taken && copies(old(self).hand@, card.kind()) == 3 && old(self).strategy
                == Strategy::Random ==> final(self).same_table(old(self)) && final(self).waiting()
                == old(self).waiting() && final(self).informed(),
            final(self).accountable(),
    {
        if !GameState::can_form_quadlet(&self.hand, &card) {
            return false;
        }
        let taken = match self.strategy {
            Strategy::Random => self.strategy.takes_quadlet(random_u8()),
            Strategy::Level1 => true,
            Strategy::Test => {
                return false;
            },
        };
        if taken {
            self.meld(Pairing::Quadlet(card));
        } else {
            self.update_probability();
        }
        taken
    }

    /// Answers an offered triplet on `card`, as the seat's strategy has it. Where the hand
    /// does not hold exactly two tiles of the kind nothing is changed and the claim is not
    /// made.
    pub fn ding_card(&mut self, card: Card) -> (taken: bool)
        requires
            old(self).accountable(),
            old(self).sees_discard(card),
        ensures
            taken ==> copies(old(self).hand@, card.kind()) == 2 && final(self).claimed(
                old(self),
                Pairing::Triplet(card),
            ) && final(self).hand@.len() + 2 == old(self).hand@.len(),
            copies(old(self).hand@, card.kind()) != 2 ==> !taken && *final(self) == *old(self),
            copies(old(self).hand@, card.kind()) == 2 && old(self).strategy != Strategy::Random
                ==> taken,
            !taken && copies(old(self).hand@, card.kind()) == 2 ==> final(self).same_table(
                old(self),
            ) && final(self).waiting() == old(self).waiting() && final(self).informed(),
            final(self).accountable(),
    {
        if !GameState::can_form_triplet(&self.hand, &card) {
            return false;
        }
        let taken = match self.strategy {
            Strategy::Random => self.strategy.takes_triplet(random_u8()),
            _ => true,
        };
        if taken {
            self.meld(Pairing::Triplet(card));
        } else {
            self.update_probability();
        }
        taken
    }
}

} // verus!
