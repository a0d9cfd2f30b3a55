//! Waiting: the kinds of which one more tile would complete the hand.

use vstd::prelude::*;
use crate::agent::Agent;
use crate::card::Card;
use crate::game::GameState;
use crate::win::bank;
use crate::win::banked;
use crate::win::capped;
use crate::win::is_win;
use crate::win::lemma_win_capped;

verus! {

/// Whether a tile of the kind would complete the hand of a seat with the given belief and
/// banked score: a copy of the kind is taken to be unseen, and the hand wins with it.
pub open spec fn completes_with(
    belief: Seq<u8>,
    score: nat,
    jing: Card,
    hand: Seq<Card>,
    kind: int,
) -> bool {
    &&& 0 <= kind < 24
    &&& belief[kind] > 0
    &&& is_win(hand.push(Card((4 * kind) as u8)), score, jing)
}

/// The test that a tile of the kind would complete the hand.
pub open spec fn completing_with(belief: Seq<u8>, score: nat, jing: Card, hand: Seq<Card>)
    -> spec_fn(u8) -> bool {
    |kind: u8| completes_with(belief, score, jing, hand, kind as int)
}

/// The kinds that would complete the hand, in ascending order.
pub open spec fn waits_with(belief: Seq<u8>, score: nat, jing: Card, hand: Seq<Card>) -> Seq<u8> {
    Seq::new(24, |kind: int| kind as u8).filter(completing_with(belief, score, jing, hand))
}

impl Agent {
    /// The test that a tile of the kind would complete the hand: the seat takes a copy of the
    /// kind to be unseen, and the hand wins with it, with the score that the seat's melds have
    /// banked. This is the score with which the table looks for a win after a draw.
    pub open spec fn completing(&self, hand: Seq<Card>) -> spec_fn(u8) -> bool {
        completing_with(self.prob@, banked(self.pairing@), self.jing, hand)
    }

    /// The kinds the seat waits for with the given hand, in ascending order.
    pub open spec fn waits(&self, hand: Seq<Card>) -> Seq<u8> {
        waits_with(self.prob@, banked(self.pairing@), self.jing, hand)
    }

    /// The kinds that would complete the given hand, or `None` where there is none.
    pub fn is_ting(&self, hand: &Vec<Card>) -> (kinds: Option<Vec<u8>>)
        ensures
            match kinds {
                Some(found) => found@ == self.waits(hand@) && found@.len() > 0,
                None => self.waits(hand@).len() == 0,
            },
    {
        let mut found: Vec<u8> = Vec::new();
        let mut trial = hand.clone();
        assert(trial@ =~= hand@);
        let score = bank(&self.pairing);
        let ghost all = Seq::new(24, |kind: int| kind as u8);
        let mut kind: u8 = 0;
        proof {
            assert(all.take(0) =~= Seq::<u8>::empty());
            reveal(Seq::filter);
        }
        while kind < 24
            invariant
                kind <= 24,
                trial@ == hand@,
                all == Seq::new(24, |kind: int| kind as u8),
                score == capped(banked(self.pairing@)),
                found@ == all.take(kind as int).filter(self.completing(hand@)),
            decreases 24 - kind,
        {
            proof {
                assert(all.take(kind as int + 1) =~= all.take(kind as int).push(kind));
                all.take(kind as int).lemma_filter_push(kind, self.completing(hand@));
            }
            if self.prob[kind as usize] != 0 {
                trial.push(Card(kind * 4));
                proof {
                    lemma_win_capped(trial@, banked(self.pairing@), self.jing);
                }
                if GameState::is_hu(&trial, score, self.jing) {
                    found.push(kind);
                }
                trial.pop();
                assert(trial@ =~= hand@);
            }
            kind += 1;
        }
        proof {
            assert(all.take(24) =~= all);
        }
        if found.len() == 0 {
            None
        } else {
            Some(found)
        }
    }

    /// What a list of kinds is worth to the seat: the copies of them that it takes to be
    /// unseen.
    pub open spec fn worth(&self, kinds: Seq<u8>) -> nat
        decreases kinds.len(),
    {
        if kinds.len() == 0 {
            0
        } else {
            self.worth(kinds.drop_last()) + self.prob@[kinds.last() as int] as nat
        }
    }

    /// What the hand is worth with the tile at `index` given away: the unseen copies of the
    /// kinds that the rest waits for.
    pub open spec fn worth_without(&self, index: int) -> nat {
        self.worth(self.waits(self.hand@.remove(index)))
    }

    /// Works out what the hand is worth with the tile at `index` given away.
    fn appraise_without(&self, index: usize) -> (worth: usize)
        requires
            index < self.hand@.len(),
        ensures
            worth == self.worth_without(index as int),
    {
        let mut rest = self.hand.clone();
        assert(rest@ =~= self.hand@);
        rest.remove(index);
        match self.is_ting(&rest) {
            None => {
                0
            },
            Some(kinds) => {
                let mut total: usize = 0;
                let mut i: usize = 0;
                proof {
                    assert(kinds@.take(0) =~= Seq::<u8>::empty());
                    assert(kinds@.len() <= 24) by {
                        Seq::new(24, |kind: int| kind as u8).lemma_filter_len(
                            self.completing(rest@),
                        );
                    }
                }
                while i < kinds.len()
                    invariant
                        i <= kinds@.len(),
                        kinds@.len() <= 24,
                        kinds@ == self.waits(rest@),
                        total == self.worth(kinds@.take(i as int)),
                        total <= 255 * i,
                    decreases kinds@.len() - i,
                {
                    proof {
                        assert(kinds@.take(i as int + 1).drop_last() =~= kinds@.take(i as int));
                        Seq::new(24, |kind: int| kind as u8).lemma_filter_pred(
                            self.completing(rest@),
                            i as int,
                        );
                    }
                    total = total + self.prob[kinds[i] as usize] as usize;
                    i += 1;
                }
                proof {
                    assert(kinds@.take(kinds@.len() as int) =~= kinds@);
                }
                total
            },
        }
    }

    /// Whether `index` is the discard that keeps the seat waiting for the most unseen copies:
    /// the first among those that are worth most.
    pub open spec fn keeps_waiting_best(&self, index: int) -> bool {
        &&& 0 <= index < self.hand@.len()
        &&& self.worth_without(index) > 0
        &&& forall|other: int|
            0 <= other < self.hand@.len() ==> self.worth_without(other) <= self.worth_without(
                index,
            )
        &&& forall|other: int|
            0 <= other < index ==> self.worth_without(other) < self.worth_without(index)
    }

    /// Whether some discard keeps the seat waiting.
    pub open spec fn can_keep_waiting(&self) -> bool {
        exists|index: int| 0 <= index < self.hand@.len() && self.worth_without(index) > 0
    }

    /// The discard that keeps the seat waiting for the most unseen copies, if any keeps it
    /// waiting.
    pub fn best_waiting_discard(&self) -> (best: Option<usize>)
        ensures
            match best {
                Some(index) => self.keeps_waiting_best(index as int),
                None => !self.can_keep_waiting(),
            },
    {
        let mut best_score: usize = 0;
        let mut best_index: usize = 0;
        let mut i: usize = 0;
        while i < self.hand.len()
            invariant
                i <= self.hand@.len(),
                forall|other: int| 0 <= other < i ==> self.worth_without(other) <= best_score,
                best_score > 0 ==> best_index < i && self.worth_without(best_index as int)
                    == best_score && forall|other: int|
                    0 <= other < best_index ==> self.worth_without(other) < best_score,
            decreases self.hand@.len() - i,
        {
            let worth = self.appraise_without(i);
            if worth > best_score {
                best_score = worth;
                best_index = i;
            }
            i += 1;
        }
        if best_score == 0 {
            None
        } else {
            Some(best_index)
        }
    }

    /// The seat with what it waited for forgotten.
    pub open spec fn not_waiting(&self) -> Agent {
        Agent { ting: None, ..*self }
    }

    /// Whether the seat remembers rightly what its hand waits for.
    pub open spec fn knows_waits(&self) -> bool {
        match self.waiting() {
            Some(kinds) => kinds == self.waits(self.hand@) && kinds.len() > 0,
            None => self.waits(self.hand@).len() == 0,
        }
    }
}

} // verus!
