//! Starting a hand: the deck shuffled or known, and nineteen tiles dealt to each seat.

use vstd::prelude::*;
use crate::agent::Agent;
use crate::card::Card;
use crate::chance::random_u8;
use crate::chance::random_usize;
use crate::game::GameState;
use crate::message::GameError;
use crate::message::Mode;
use crate::table::all_in_deck;
use crate::table::fresh_deck;
use crate::table::piles_of;
use crate::table::order::lemma_deal_in_order;
use crate::table::order::lemma_fresh_deck;
use crate::tally::copies;
use crate::tally::lemma_copies_drop_last;
use crate::tally::lemma_copies_empty;
use crate::tally::lemma_copies_push;

verus! {

/// Puts the tiles of a deck in a random order: a place is drawn for each place of the deck,
/// and each place in turn, from the first, changes its tile with the place drawn for it.
fn shuffle_cards(deck: &mut Vec<Card>)
    ensures
        exists|draws: Seq<usize>|
            draws.len() == old(deck)@.len() && final(deck)@ == #[trigger] shuffled(
                old(deck)@,
                draws,
                old(deck)@.len() as int,
            ),
        final(deck)@.to_multiset() == old(deck)@.to_multiset(),
        final(deck)@.len() == old(deck)@.len(),
        all_in_deck(old(deck)@) ==> all_in_deck(final(deck)@),
{
    let n = deck.len();
    let mut draws: Vec<usize> = Vec::new();
    while draws.len() < n
        invariant
            draws@.len() <= n,
        decreases n - draws@.len(),
    {
        draws.push(random_usize());
    }
    shuffle_by(deck, &draws);
    proof {
        lemma_shuffled_keeps_tiles(old(deck)@, draws@, n as int);
    }
}

/// The tiles of a deck in the opposite order.
fn reversed(deck: &Vec<Card>) -> (turned: Vec<Card>)
    ensures
        turned@ == deck@.reverse(),
{
    let mut turned: Vec<Card> = Vec::new();
    let n = deck.len();
    let mut i: usize = 0;
    while i < n
        invariant
            n == deck@.len(),
            i <= n,
            turned@.len() == i,
            forall|j: int| 0 <= j < i ==> turned@[j] == deck@[n - 1 - j],
        decreases n - i,
    {
        turned.push(deck[n - 1 - i]);
        i += 1;
    }
    assert(turned@ =~= deck@.reverse());
    turned
}

/// The deck with the tiles at two places changed with each other.
pub open spec fn swapped(deck: Seq<Card>, first: int, second: int) -> Seq<Card> {
    deck.update(first, deck[second]).update(second, deck[first])
}

/// The deck after each of its first `steps` places, in turn, has changed its tile with the
/// place drawn for it: the draw, taken by the length of the deck.
pub open spec fn shuffled(deck: Seq<Card>, draws: Seq<usize>, steps: int) -> Seq<Card>
    decreases steps,
{
    if steps <= 0 {
        deck
    } else {
        swapped(
            shuffled(deck, draws, steps - 1),
            steps - 1,
            draws[steps - 1] as int % (deck.len() as int),
        )
    }
}

/// Changing two tiles with each other keeps the tiles of a deck.
proof fn lemma_swapped_keeps_tiles(deck: Seq<Card>, first: int, second: int)
    requires
        0 <= first < deck.len(),
        0 <= second < deck.len(),
    ensures
        swapped(deck, first, second).len() == deck.len(),
        swapped(deck, first, second).to_multiset() == deck.to_multiset(),
        all_in_deck(deck) ==> all_in_deck(swapped(deck, first, second)),
{
    broadcast use vstd::seq_lib::group_to_multiset_ensures;
    let mid = deck.update(first, deck[second]);
    assert(mid.to_multiset() =~= deck.to_multiset().insert(deck[second]).remove(deck[first]));
    assert(swapped(deck, first, second).to_multiset() =~= mid.to_multiset().insert(
        deck[first],
    ).remove(mid[second]));
    assert(swapped(deck, first, second).to_multiset() =~= deck.to_multiset());
}

/// A shuffled deck holds the tiles it held, in another order.
pub proof fn lemma_shuffled_keeps_tiles(deck: Seq<Card>, draws: Seq<usize>, steps: int)
    requires
        0 <= steps <= deck.len(),
        steps <= draws.len(),
    ensures
        shuffled(deck, draws, steps).len() == deck.len(),
        shuffled(deck, draws, steps).to_multiset() == deck.to_multiset(),
        all_in_deck(deck) ==> all_in_deck(shuffled(deck, draws, steps)),
    decreases steps,
{
    if steps > 0 {
        lemma_shuffled_keeps_tiles(deck, draws, steps - 1);
        lemma_swapped_keeps_tiles(
            shuffled(deck, draws, steps - 1),
            steps - 1,
            draws[steps - 1] as int % (deck.len() as int),
        );
    }
}

/// Shuffles a deck by the places drawn: each place in turn, from the first, changes its
/// tile with the place that its draw gives, taken by the length of the deck. Places for
/// which no draw is given keep their turn.
pub fn shuffle_by(deck: &mut Vec<Card>, draws: &Vec<usize>)
    ensures
        final(deck)@ == shuffled(
            old(deck)@,
            draws@,
            if draws@.len() < old(deck)@.len() {
                draws@.len() as int
            } else {
                old(deck)@.len() as int
            },
        ),
{
    let n = deck.len();
    let steps = if draws.len() < n {
        draws.len()
    } else {
        n
    };
    let mut i: usize = 0;
    while i < steps
        invariant
            i <= steps,
            steps <= n,
            steps <= draws@.len(),
            n == old(deck)@.len(),
            deck@ == shuffled(old(deck)@, draws@, i as int),
        decreases steps - i,
    {
        proof {
            lemma_shuffled_keeps_tiles(old(deck)@, draws@, i as int);
        }
        let j = draws[i] % n;
        let a = deck[i];
        let b = deck[j];
        deck[i] = b;
        deck[j] = a;
        assert(deck@ =~= shuffled(old(deck)@, draws@, i as int + 1));
        i += 1;
    }
}

impl GameState {
    /// Deals nineteen tiles off the top of the deck to a seat.
    fn deal_to(&mut self, seat: usize)
        requires
            seat < old(self).players@.len(),
            old(self).remaining_cards@.len() >= 19,
        ensures
            final(self).players@.len() == old(self).players@.len(),
            forall|other: int|
                0 <= other < final(self).players@.len() && other != seat
                    ==> final(self).players@[other] == old(self).players@[other],
            final(self).players@[seat as int] == (Agent {
                hand: final(self).players@[seat as int].hand,
                ..old(self).players@[seat as int]
            }),
            final(self).players@[seat as int].hand@ == old(self).players@[seat as int].hand@
                + Seq::new(
                19,
                |j: int| old(self).remaining_cards@[old(self).remaining_cards@.len() - 1 - j],
            ),
            final(self).remaining_cards@ == old(self).remaining_cards@.take(
                old(self).remaining_cards@.len() - 19,
            ),
            forall|kind: int|
                0 <= kind < 64 ==> copies(final(self).players@[seat as int].hand@, kind) + copies(
                    final(self).remaining_cards@,
                    kind,
                ) == copies(old(self).players@[seat as int].hand@, kind) + copies(
                    old(self).remaining_cards@,
                    kind,
                ),
            final(self).turn == old(self).turn,
            final(self).prev_turn == old(self).prev_turn,
            final(self).jing == old(self).jing,
            final(self).mode == old(self).mode,
            final(self).test == old(self).test,
            final(self).winner == old(self).winner,
            final(self).dealt == old(self).dealt,
    {
        let ghost deck = self.remaining_cards@;
        let ghost hand = self.players@[seat as int].hand@;
        let mut dealt: usize = 0;
        while dealt < 19
            invariant
                dealt <= 19,
                seat < self.players@.len(),
                deck == old(self).remaining_cards@,
                hand == old(self).players@[seat as int].hand@,
                deck.len() >= 19,
                self.players@.len() == old(self).players@.len(),
                forall|other: int|
                    0 <= other < self.players@.len() && other != seat ==> self.players@[other]
                        == old(self).players@[other],
                self.players@[seat as int] == (Agent {
                    hand: self.players@[seat as int].hand,
                    ..old(self).players@[seat as int]
                }),
                self.players@[seat as int].hand@ == hand + Seq::new(
                    dealt as nat,
                    |j: int| deck[deck.len() - 1 - j],
                ),
                self.remaining_cards@ == deck.take(deck.len() - dealt),
                forall|kind: int|
                    0 <= kind < 64 ==> copies(self.players@[seat as int].hand@, kind) + copies(
                        self.remaining_cards@,
                        kind,
                    ) == copies(hand, kind) + copies(deck, kind),
                self.turn == old(self).turn,
                self.prev_turn == old(self).prev_turn,
                self.jing == old(self).jing,
                self.mode == old(self).mode,
                self.test == old(self).test,
                self.winner == old(self).winner,
                self.dealt == old(self).dealt,
            decreases 19 - dealt,
        {
            let ghost stock = self.remaining_cards@;
            let ghost held = self.players@[seat as int].hand@;
            let card = self.remaining_cards.pop().unwrap();
            self.players[seat].hand.push(card);
            proof {
                assert(self.remaining_cards@ =~= deck.take(deck.len() - dealt - 1));
                assert(self.players@[seat as int].hand@ =~= hand + Seq::new(
                    (dealt + 1) as nat,
                    |j: int| deck[deck.len() - 1 - j],
                ));
                assert forall|kind: int| 0 <= kind < 64 implies copies(
                    self.players@[seat as int].hand@,
                    kind,
                ) + copies(self.remaining_cards@, kind) == copies(hand, kind) + copies(
                    deck,
                    kind,
                ) by {
                    lemma_copies_drop_last(stock, kind);
                    lemma_copies_push(held, card, kind);
                }
            }
            dealt += 1;
        }
        proof {
            assert(deck.take(deck.len() as int) =~= deck);
        }
    }

    /// The hands and the deck are those of a deal from `deck`: the seats hold nineteen tiles
    /// each, taken off the top seat after seat, and nothing else.
    pub open spec fn dealt_from(&self, deck: Seq<Card>) -> bool {
        &&& deck.len() == 96
        &&& self.seats().len() == 3
        &&& self.stock() == deck.take(39)
        &&& forall|seat: int|
            0 <= seat < 3 ==> {
                let after = #[trigger] self.seats()[seat];
                &&& after.hand@ == Seq::new(19, |j: int| deck[95 - 19 * seat - j])
                &&& after.out@.len() == 0
                &&& after.pairing@.len() == 0
                &&& after.player_right_out@.len() == 0
                &&& after.player_right_pairing@.len() == 0
                &&& after.player_left_out@.len() == 0
                &&& after.player_left_pairing@.len() == 0
                &&& after.jing == self.wildcard()
            }
    }

    /// Why a hand cannot be started, if it cannot: the table has not its three seats, or a
    /// hand is being played.
    pub open spec fn start_refused(&self) -> Option<GameError> {
        if self.seats().len() != 3 {
            Some(GameError::WrongPlayers { count: self.seats().len() as usize })
        } else if self.playing() {
            Some(GameError::HandInProgress)
        } else {
            None
        }
    }

    /// The table is `before` with a hand started: nineteen tiles are dealt to each seat from
    /// a deck of the 96 tiles, the seat that begins has an ordinary turn before it, and
    /// every seat has worked out its belief. With the known deck the tiles come in ascending
    /// order, the wildcard is the tile 95 and the first seat begins.
    pub open spec fn started_from(&self, before: &GameState) -> bool {
        &&& self.playing()
        &&& self.outcome() is None
        &&& self.offer() == Mode::Normal
        &&& !self.owes_discard()
        &&& self.rehearsal() == before.rehearsal()
        &&& self.wildcard().in_deck()
        &&& exists|deck: Seq<Card>|
            #[trigger] self.dealt_from(deck) && deck.to_multiset() == fresh_deck().to_multiset()
        &&& forall|seat: int|
            0 <= seat < 3 ==> {
                let after = #[trigger] self.seats()[seat];
                let then = before.seats()[seat];
                &&& after.turn == then.turn
                &&& after.is_robot == then.is_robot
                &&& after.ready == then.ready
                &&& after.strategy == then.strategy
            }
        &&& before.rehearsal() ==> {
            &&& self.whose_turn() == 0
            &&& self.wildcard() == Card(95)
            &&& self.dealt_from(fresh_deck().reverse())
        }
    }

    /// Starts a hand: deals nineteen tiles to each of the three seats. With the known deck
    /// the tiles come in ascending order, the wildcard is the tile 95 and the first seat
    /// begins. Elsewhere the deck is shuffled, and the wildcard and the seat that begins are
    /// drawn at random.
    #[verifier::rlimit(40)]
    pub fn start(&mut self) -> (started: Result<(), GameError>)
        requires
            old(self).wf(),
        ensures
            final(self).wf(),
            match started {
                Ok(()) => old(self).start_refused() is None && final(self).started_from(old(self)),
                Err(error) => old(self).start_refused() == Some(error) && *final(self) == *old(
                    self,
                ),
            },
    {
        if self.players.len() != 3 {
            return Err(GameError::WrongPlayers { count: self.players.len() });
        }
        if self.dealt {
            return Err(GameError::HandInProgress);
        }
        if !self.test {
            shuffle_cards(&mut self.remaining_cards);
            self.jing = Card(random_u8() % 96);
            self.turn = random_u8() % 3;
        } else {
            self.remaining_cards = reversed(&self.remaining_cards);
            self.jing = Card(95);
            self.turn = 0;
            proof {
                fresh_deck().lemma_reverse_to_multiset();
            }
        }
        let ghost deck = self.remaining_cards@;
        proof {
            lemma_fresh_deck(0);
            assert(all_in_deck(deck)) by {
                if self.test {
                    assert forall|i: int| 0 <= i < deck.len() implies (
                    #[trigger] deck[i]).in_deck() by {
                        assert(deck[i] == fresh_deck()[95 - i]);
                    }
                }
            }
            lemma_copies_empty(0);
            assert(old(self).players@[0].is_cleared());
            assert(old(self).players@[1].is_cleared());
            assert(old(self).players@[2].is_cleared());
            assert(old(self).players@[0].hand@ =~= Seq::<Card>::empty());
            assert(old(self).players@[1].hand@ =~= Seq::<Card>::empty());
            assert(old(self).players@[2].hand@ =~= Seq::<Card>::empty());
            assert forall|kind: int| 0 <= kind < 64 implies copies(Seq::<Card>::empty(), kind)
                == 0 by {
                lemma_copies_empty(kind);
            }
        }
        self.deal_to(0);
        self.deal_to(1);
        self.deal_to(2);
        self.players[0].jing = self.jing;
        self.players[1].jing = self.jing;
        self.players[2].jing = self.jing;
        self.winner = None;
        self.dealt = true;
        proof {
            let seats = self.players@;
            let stock = self.remaining_cards@;
            let table = piles_of(seats);
            assert(stock =~= deck.take(39));
            assert forall|seat: int| 0 <= seat < 3 implies (#[trigger] seats[seat]).hand@
                =~= Seq::new(19, |j: int| deck[95 - 19 * seat - j]) by {}
            assert forall|seat: int| 0 <= seat < 3 implies all_in_deck(
                (#[trigger] seats[seat]).hand@,
            ) by {}
            assert(table[0] == seats[0].piles());
            assert(table[1] == seats[1].piles());
            assert(table[2] == seats[2].piles());
            lemma_deal_in_order(table, stock, deck);
        }
        self.refresh();
        proof {
            assert(self.dealt_from(deck));
            assert(self.piles()[0] == self.players@[0].piles());
            assert(self.piles()[1] == self.players@[1].piles());
            assert(self.piles()[2] == self.players@[2].piles());
        }
        Ok(())
    }
}

} // verus!
