//! What holds of every hand.

use vstd::prelude::*;
use crate::agent::Agent;
use crate::agent::belief::table_sum;
use crate::card::Card;
use crate::card::Pairing;
use crate::game::GameState;
use crate::message::Mode;
use crate::message::ServerMessage;
use crate::table::census;
use crate::table::claim_order;
use crate::table::left_of;
use crate::table::on_top;
use crate::table::right_of;
use crate::table::tiles_ok;
use crate::table::order::belief_is_settled_by_the_piles;
use crate::table::order::lemma_in_deck_kinds;
use crate::table::order::lemma_seat_accountable;
use crate::table::order::lemma_tiles_conserved;
use crate::tally::copies;
use crate::tally::lemma_copies_drop_last;
use crate::tally::lemma_copies_push;
use crate::tally::lemma_without_kind;
use crate::tally::melded;
use crate::tally::without_kind;
use crate::win::banked;
use crate::win::is_win;
use crate::win::lemma_win_by_copies;

verus! {

/// While a hand is played, four copies of every kind are on the table: in the hands, on the
/// piles, in the melds and in the deck. Every operation of the table keeps the table in
/// order, so this holds at every point of a hand.
pub proof fn tiles_are_conserved(table: GameState, kind: int)
    requires
        table.wf(),
        table.playing(),
        0 <= kind < 24,
    ensures
        census(table.piles(), table.stock(), kind) == 4,
{
    lemma_tiles_conserved(table.piles(), table.stock(), kind);
}

/// The tiles of a kind that a list of melds took from the hand: two for a triplet, three for
/// a quadlet.
pub open spec fn from_hand(melds: Seq<Pairing>, kind: int) -> nat
    decreases melds.len(),
{
    if melds.len() == 0 {
        0
    } else {
        from_hand(melds.drop_last(), kind) + if melds.last().card().kind() == kind {
            (melds.last().size() - 1) as nat
        } else {
            0
        }
    }
}

/// The tiles of a kind that a list of melds took from a discard pile: one for each meld.
pub open spec fn from_pile(melds: Seq<Pairing>, kind: int) -> nat
    decreases melds.len(),
{
    if melds.len() == 0 {
        0
    } else {
        from_pile(melds.drop_last(), kind) + if melds.last().card().kind() == kind {
            1nat
        } else {
            0nat
        }
    }
}

/// A meld is made of the tiles from the hand and the claimed discard.
pub proof fn meld_is_hand_and_discard(melds: Seq<Pairing>, kind: int)
    ensures
        melded(melds, kind) == from_hand(melds, kind) + from_pile(melds, kind),
    decreases melds.len(),
{
    if melds.len() > 0 {
        meld_is_hand_and_discard(melds.drop_last(), kind);
    }
}

/// The same count with the claimed discards told apart: while a hand is played, the tiles
/// of a kind in the hands and on the piles, two for each triplet and three for each quadlet,
/// the discards that were claimed, and the tiles in the deck are four.
pub proof fn tiles_are_conserved_by_origin(table: GameState, kind: int)
    requires
        table.wf(),
        table.playing(),
        0 <= kind < 24,
    ensures
        ({
            let piles = table.piles();
            copies(piles[0].hand, kind) + copies(piles[0].out, kind) + from_hand(
                piles[0].pairing,
                kind,
            ) + copies(piles[1].hand, kind) + copies(piles[1].out, kind) + from_hand(
                piles[1].pairing,
                kind,
            ) + copies(piles[2].hand, kind) + copies(piles[2].out, kind) + from_hand(
                piles[2].pairing,
                kind,
            ) + from_pile(piles[0].pairing, kind) + from_pile(piles[1].pairing, kind) + from_pile(
                piles[2].pairing,
                kind,
            ) + copies(table.stock(), kind)
        }) == 4,
{
    let piles = table.piles();
    tiles_are_conserved(table, kind);
    meld_is_hand_and_discard(piles[0].pairing, kind);
    meld_is_hand_and_discard(piles[1].pairing, kind);
    meld_is_hand_and_discard(piles[2].pairing, kind);
}

/// While a hand is played, no seat sees more than the four copies of a kind, and what it
/// believes to be unseen is what is left of the four: its belief is never negative.
pub proof fn belief_is_never_negative(table: GameState, seat: int, kind: int)
    requires
        table.wf(),
        table.playing(),
        0 <= seat < 3,
        0 <= kind < 24,
    ensures
        table.seats()[seat].seen(kind) <= 4,
        table.seats()[seat].prob@[kind] == 4 - table.seats()[seat].seen(kind),
{
    lemma_seat_accountable(table.seats(), table.stock(), seat);
    reveal(Agent::informed);
}

/// A seat that has worked out its belief holds, of each kind, four less the copies it sees,
/// which is not negative.
pub proof fn belief_counts_the_unseen(seat: Agent, kind: int)
    requires
        seat.informed(),
        0 <= kind < 24,
    ensures
        seat.seen(kind) <= 4,
        seat.prob@[kind] == 4 - seat.seen(kind),
        seat.remaining == table_sum(seat.prob@, 24),
{
    reveal(Agent::informed);
    broadcast use vstd::array::array_len_matches_n;
    assert(seat.prob@.len() == 24);
    assert(0 <= seat.prob@[kind]);
}

/// Working the belief out twice gives the same twice: a seat that has worked out its belief,
/// and works it out again with the same tiles before it, believes what it believed.
pub proof fn belief_worked_out_twice_is_the_same(seat: Agent, once: Agent, twice: Agent)
    requires
        once.same_table(&seat),
        once.informed(),
        twice.same_table(&once),
        twice.informed(),
    ensures
        twice.prob@ == once.prob@,
        twice.remaining == once.remaining,
{
    belief_is_settled_by_the_piles(once, twice);
}

/// A claim takes out of the hand exactly the tiles of the claimed kind, two for a triplet
/// and three for a quadlet, and no other tile.
pub proof fn claim_consumes_its_tiles(before: Agent, after: Agent, meld: Pairing, kind: int)
    requires
        after.claimed(&before, meld),
        copies(before.hand@, meld.card().kind()) + 1 == meld.size(),
        0 <= kind < 64,
    ensures
        after.hand@.len() + meld.size() == before.hand@.len() + 1,
        meld is Triplet ==> after.hand@.len() + 2 == before.hand@.len(),
        meld is Quadlet ==> after.hand@.len() + 3 == before.hand@.len(),
        copies(after.hand@, kind) == if kind == meld.card().kind() {
            0
        } else {
            copies(before.hand@, kind)
        },
        after.hand@ == without_kind(before.hand@, meld.card().kind()),
        after.pairing@ == before.pairing@.push(meld),
        after.out@ == before.out@,
{
    lemma_without_kind(before.hand@, meld.card().kind(), kind);
    lemma_without_kind(before.hand@, meld.card().kind(), meld.card().kind());
}

/// A claim keeps what the seat has brought to the table: of every kind, the tiles in its
/// hand, on its pile and those that its melds took from the hand are as many after the
/// claim as before. The claimed discard comes on top of them.
pub proof fn claim_keeps_what_the_seat_brought(
    before: Agent,
    after: Agent,
    meld: Pairing,
    kind: int,
)
    requires
        after.claimed(&before, meld),
        copies(before.hand@, meld.card().kind()) + 1 == meld.size(),
        0 <= kind < 64,
    ensures
        copies(after.hand@, kind) + copies(after.out@, kind) + from_hand(after.pairing@, kind)
            == copies(before.hand@, kind) + copies(before.out@, kind) + from_hand(
            before.pairing@,
            kind,
        ),
        from_pile(after.pairing@, kind) == from_pile(before.pairing@, kind) + if kind
            == meld.card().kind() {
            1nat
        } else {
            0nat
        },
{
    lemma_without_kind(before.hand@, meld.card().kind(), kind);
    assert(before.pairing@.push(meld).drop_last() =~= before.pairing@);
}

/// A seat that has worked out its belief sees no kind more than four times: a belief is
/// never worked out from more than the four copies of a kind, and no count below nothing is
/// ever held.
pub proof fn informed_seat_is_accountable(seat: Agent)
    requires
        seat.informed(),
    ensures
        seat.accountable(),
{
    assert forall|kind: int| 0 <= kind < 24 implies seat.seen(kind) <= 4 by {
        belief_counts_the_unseen(seat, kind);
    }
}

/// A claim is offered only where the seat holds the tiles for it: two of the kind for a
/// triplet, three for a quadlet, and the contested tile is the last discard of another seat.
pub proof fn offered_claim_is_legal(table: GameState)
    requires
        table.wf(),
        table.playing(),
        table.offer() != Mode::Normal,
    ensures
        copies(
            table.mover().hand@,
            table.offered_meld().card().kind(),
        ) + 1 == table.offered_meld().size(),
        table.discarder() != table.whose_turn(),
        on_top(table.piles(), table.discarder(), table.offered_meld().card()),
{
    let piles = table.piles();
    assert(piles[table.whose_turn()] == table.mover().piles());
}

/// After a discard a quadlet goes before a triplet, and among claims of one rank the next
/// seat goes before the seat before. Who is offered what depends on nothing but the seat
/// that discarded, the tile, and how many of its kind the two other seats hold.
pub proof fn claims_go_by_rank_then_by_seat(turn: int, next_holds: nat, prev_holds: nat, card: Card)
    ensures
        next_holds == 3 ==> claim_order(turn, next_holds, prev_holds, card) == (
            right_of(turn),
            Mode::Pao(card),
        ),
        next_holds != 3 && prev_holds == 3 ==> claim_order(turn, next_holds, prev_holds, card)
            == (left_of(turn), Mode::Pao(card)),
        next_holds == 2 && prev_holds != 3 ==> claim_order(turn, next_holds, prev_holds, card)
            == (right_of(turn), Mode::Ding(card)),
        next_holds != 3 && next_holds != 2 && prev_holds == 2 ==> claim_order(
            turn,
            next_holds,
            prev_holds,
            card,
        ) == (left_of(turn), Mode::Ding(card)),
        next_holds != 3 && next_holds != 2 && prev_holds != 3 && prev_holds != 2 ==> claim_order(
            turn,
            next_holds,
            prev_holds,
            card,
        ) == (right_of(turn), Mode::Normal),
{
}

/// How the turn passes on after a discard, on a table in order. Neither of the two other
/// seats holds more than three tiles of the kind. With three, the next seat is offered the
/// quadlet, whatever the seat before holds; else the seat before, with three, is offered it,
/// though the next seat may hold two. With no quadlet, the next seat is offered the triplet
/// with two of the kind, though the seat before may hold two as well; else the seat before,
/// with two. With no claim the next seat has an ordinary turn. In every case the next seat
/// is the one to play on, no tile moves, and all are told the turn and the offer.
pub proof fn turn_passes_by_rank_then_by_seat(before: GameState, after: GameState, card: Card)
    requires
        before.wf(),
        before.playing(),
        before.discard_on_top(card),
        after.turn_passed(&before, card),
    ensures
        ({
            let next = right_of(before.whose_turn());
            let prev = left_of(before.whose_turn());
            let next_holds = copies(before.seats()[next].hand@, card.kind());
            let prev_holds = copies(before.seats()[prev].hand@, card.kind());
            &&& next_holds <= 3
            &&& prev_holds <= 3
            &&& after.resume_at() == Some(next as u8)
            &&& after.seats() == before.seats()
            &&& after.stock() == before.stock()
            &&& after.wildcard() == before.wildcard()
            &&& (after.whose_turn(), after.offer()) == if next_holds >= 3 {
                (next, Mode::Pao(card))
            } else if prev_holds >= 3 {
                (prev, Mode::Pao(card))
            } else if next_holds == 2 {
                (next, Mode::Ding(card))
            } else if prev_holds == 2 {
                (prev, Mode::Ding(card))
            } else {
                (next, Mode::Normal)
            }
            &&& after.turn_notice() == (ServerMessage::Turn {
                to: None,
                turn: after.whose_turn() as u8,
                mode: after.offer(),
            })
        }),
{
    reveal(tiles_ok);
    let kind = card.kind();
    let turn = before.whose_turn();
    let piles = before.piles();
    assert(piles[0] == before.seats()[0].piles());
    assert(piles[1] == before.seats()[1].piles());
    assert(piles[2] == before.seats()[2].piles());
    if kind < 24 {
        assert(census(piles, before.stock(), kind) == 4);
        lemma_copies_drop_last(piles[turn].out, kind);
    } else {
        lemma_in_deck_kinds(piles[0].hand, kind);
        lemma_in_deck_kinds(piles[1].hand, kind);
        lemma_in_deck_kinds(piles[2].hand, kind);
    }
}

/// The passing of the turn is settled by the table: two tables on which the same seat has
/// discarded, and on which the two other seats hold as many tiles of the kind, pass the
/// turn to the same seat with the same offer.
pub proof fn passing_the_turn_is_settled(
    first: GameState,
    second: GameState,
    after_first: GameState,
    after_second: GameState,
    card: Card,
)
    requires
        first.seats().len() == 3,
        second.seats().len() == 3,
        first.whose_turn() == second.whose_turn(),
        copies(first.seats()[right_of(first.whose_turn())].hand@, card.kind()) == copies(
            second.seats()[right_of(second.whose_turn())].hand@,
            card.kind(),
        ),
        copies(first.seats()[left_of(first.whose_turn())].hand@, card.kind()) == copies(
            second.seats()[left_of(second.whose_turn())].hand@,
            card.kind(),
        ),
        after_first.passed_on(&first, card),
        after_second.passed_on(&second, card),
    ensures
        after_first.whose_turn() == after_second.whose_turn(),
        after_first.offer() == after_second.offer(),
        after_first.resume_at() == after_second.resume_at(),
{
}

/// A seat waits for a kind exactly when it takes a copy of the kind to be unseen and its hand
/// with one tile of the kind wins. The win is judged with the score that the seat's melds
/// have banked, which is the score with which the table looks for a win after a draw.
pub proof fn waiting_is_one_tile_from_winning(seat: Agent, hand: Seq<Card>, kind: u8)
    ensures
        seat.waits(hand).contains(kind) <==> {
            &&& kind < 24
            &&& seat.prob@[kind as int] > 0
            &&& is_win(hand.push(Card((4 * kind) as u8)), banked(seat.pairing@), seat.jing)
        },
{
    let all = Seq::new(24, |kind: int| kind as u8);
    let test = seat.completing(hand);
    if seat.waits(hand).contains(kind) {
        let at = choose|at: int| 0 <= at < seat.waits(hand).len() && seat.waits(hand)[at] == kind;
        all.lemma_filter_pred(test, at);
        all.lemma_filter_contains_rev(test, kind);
    }
    if kind < 24 && test(kind) {
        assert(all[kind as int] == kind);
        all.lemma_filter_contains(test, kind as int);
    }
}

/// Waiting and winning agree. Where the seat whose turn it is has drawn a tile of a kind of
/// which it took a copy to be unseen, the table finds its hand won exactly when the seat
/// waited for the kind, whichever copy of the kind the tile is.
pub proof fn drawn_tile_wins_where_waited_for(table: GameState, seat: Agent, tile: Card)
    requires
        table.mover().hand@ == seat.hand@.push(tile),
        table.mover().pairing@ == seat.pairing@,
        table.wildcard() == seat.jing,
        tile.in_deck(),
        seat.prob@[tile.kind()] > 0,
    ensures
        table.wins() <==> seat.waits(seat.hand@).contains((tile.0 / 4) as u8),
{
    let kind = (tile.0 / 4) as u8;
    waiting_is_one_tile_from_winning(seat, seat.hand@, kind);
    let first = Card((4 * kind) as u8);
    assert forall|other: int| 0 <= other < 64 implies copies(seat.hand@.push(tile), other)
        == copies(seat.hand@.push(first), other) by {
        lemma_copies_push(seat.hand@, tile, other);
        lemma_copies_push(seat.hand@, first, other);
    }
    lemma_win_by_copies(
        seat.hand@.push(tile),
        seat.hand@.push(first),
        banked(seat.pairing@),
        seat.jing,
    );
}

} // verus!
