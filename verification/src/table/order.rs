//! Draws, discards and claims keep the tiles of a table in order.

use vstd::prelude::*;
use crate::agent::Agent;
use crate::agent::claim::retracted;
use crate::card::Card;
use crate::card::Pairing;
use crate::message::Mode;
use crate::table::Piles;
use crate::table::all_in_deck;
use crate::table::census;
use crate::table::claim_at;
use crate::table::claim_piles;
use crate::table::conserved;
use crate::table::discard_piles;
use crate::table::draw_piles;
use crate::table::fresh_deck;
use crate::table::fuel_of;
use crate::table::holding;
use crate::table::in_play;
use crate::table::left_of;
use crate::table::meld_of;
use crate::table::mirrored;
use crate::table::on_top;
use crate::table::owned;
use crate::table::piles_of;
use crate::table::right_of;
use crate::table::sized;
use crate::table::tiles_ok;
use crate::tally::copies;
use crate::tally::lemma_copies_drop_last;
use crate::tally::lemma_copies_empty;
use crate::tally::lemma_copies_push;
use crate::tally::lemma_copies_remove;
use crate::tally::lemma_melded_push;
use crate::tally::lemma_without_kind;
use crate::tally::melded;
use crate::tally::not_of;
use crate::tally::without_kind;

verus! {

/// While a hand is played, of every kind four copies are on the table: in the hands, on the
/// piles, in the melds and in the deck.
pub proof fn lemma_tiles_conserved(table: Seq<Piles>, stock: Seq<Card>, kind: int)
    requires
        tiles_ok(table, stock),
        0 <= kind < 24,
    ensures
        census(table, stock, kind) == 4,
{
    reveal(tiles_ok);
}

/// On a table in order no seat sees a kind more than four times.
pub proof fn lemma_seat_accountable(seats: Seq<Agent>, stock: Seq<Card>, seat: int)
    requires
        seats.len() == 3,
        0 <= seat < 3,
        tiles_ok(piles_of(seats), stock),
    ensures
        seats[seat].accountable(),
{
    reveal(tiles_ok);
    let table = piles_of(seats);
    assert forall|kind: int| 0 <= kind < 24 implies seats[seat].seen(kind) <= 4 by {
        assert(census(table, stock, kind) == 4);
        assert(table[seat] == seats[seat].piles());
        assert(mirrored(table, seat));
    }
}

/// A seat that sees the same tiles and believes the same is informed as before.
pub proof fn lemma_same_piles_informed(before: Agent, after: Agent)
    requires
        before.informed(),
        before.piles() == after.piles(),
        before.prob@ == after.prob@,
        before.remaining == after.remaining,
    ensures
        after.informed(),
{
    reveal(Agent::informed);
    assert forall|kind: int| 0 <= kind < 24 implies after.prob@[kind] == 4 - after.seen(kind) by {
        assert(before.seen(kind) == after.seen(kind));
    }
}

/// The belief depends on nothing but what the seat sees: two seats that have the same tiles
/// before them and have worked out their belief believe the same. So working the belief out
/// twice gives the same twice.
pub proof fn belief_is_settled_by_the_piles(first: Agent, second: Agent)
    requires
        first.informed(),
        second.informed(),
        first.piles() == second.piles(),
    ensures
        first.prob@ == second.prob@,
        first.remaining == second.remaining,
{
    reveal(Agent::informed);
    assert forall|kind: int| 0 <= kind < 24 implies first.prob@[kind] == second.prob@[kind] by {
        assert(first.seen(kind) == second.seen(kind));
    }
    assert(first.prob@ =~= second.prob@);
}

/// A pile of tiles of the deck holds no tile of a kind outside the deck.
pub proof fn lemma_in_deck_kinds(tiles: Seq<Card>, kind: int)
    requires
        all_in_deck(tiles),
        24 <= kind < 64,
    ensures
        copies(tiles, kind) == 0,
    decreases tiles.len(),
{
    if tiles.len() == 0 {
        assert(tiles =~= Seq::<Card>::empty());
        lemma_copies_empty(kind);
    } else {
        assert(tiles.last().in_deck());
        lemma_in_deck_kinds(tiles.drop_last(), kind);
        lemma_copies_drop_last(tiles, kind);
    }
}

/// The first `count` tiles of the whole deck hold of each kind the copies with ids below
/// `count`.
proof fn lemma_deck_prefix(count: int, kind: int)
    requires
        0 <= count <= 96,
        0 <= kind < 64,
    ensures
        copies(fresh_deck().take(count), kind) == if count <= 4 * kind {
            0
        } else if count >= 4 * kind + 4 {
            4
        } else {
            count - 4 * kind
        },
    decreases count,
{
    if count == 0 {
        assert(fresh_deck().take(0) =~= Seq::<Card>::empty());
        lemma_copies_empty(kind);
    } else {
        lemma_deck_prefix(count - 1, kind);
        let tile = Card((count - 1) as u8);
        assert(fresh_deck().take(count) =~= fresh_deck().take(count - 1).push(tile));
        lemma_copies_push(fresh_deck().take(count - 1), tile, kind);
    }
}

/// The whole deck holds four copies of each of the 24 kinds, and no other tile.
pub proof fn lemma_fresh_deck(kind: int)
    requires
        0 <= kind < 64,
    ensures
        copies(fresh_deck(), kind) == if kind < 24 {
            4nat
        } else {
            0nat
        },
        all_in_deck(fresh_deck()),
{
    lemma_deck_prefix(96, kind);
    assert(fresh_deck().take(96) =~= fresh_deck());
}

/// Piles that hold the same tiles, in whatever order, hold the same copies of every kind.
pub proof fn lemma_copies_shuffled(a: Seq<Card>, b: Seq<Card>, kind: int)
    requires
        a.to_multiset() == b.to_multiset(),
    ensures
        copies(a, kind) == copies(b, kind),
{
    reveal(copies);
}

/// A table on which the hands were dealt from a deck of the 96 tiles, and nothing else lies,
/// is in order.
pub proof fn lemma_deal_in_order(table: Seq<Piles>, stock: Seq<Card>, deck: Seq<Card>)
    requires
        table.len() == 3,
        deck.to_multiset() == fresh_deck().to_multiset(),
        all_in_deck(deck),
        all_in_deck(stock),
        all_in_deck(table[0].hand),
        all_in_deck(table[1].hand),
        all_in_deck(table[2].hand),
        forall|kind: int|
            0 <= kind < 24 ==> copies(table[0].hand, kind) + copies(table[1].hand, kind) + copies(
                table[2].hand,
                kind,
            ) + copies(stock, kind) == copies(deck, kind),
        forall|seat: int|
            0 <= seat < 3 ==> {
                let piles = #[trigger] table[seat];
                &&& piles.out.len() == 0
                &&& piles.pairing.len() == 0
                &&& piles.right_out.len() == 0
                &&& piles.right_pairing.len() == 0
                &&& piles.left_out.len() == 0
                &&& piles.left_pairing.len() == 0
            },
    ensures
        tiles_ok(table, stock),
{
    reveal(tiles_ok);
    assert forall|seat: int, kind: int| 0 <= seat < 3 && 0 <= kind < 24 implies {
        &&& copies(table[seat].out, kind) == 0
        &&& #[trigger] melded(table[seat].pairing, kind) == 0
        &&& copies(table[seat].right_out, kind) == 0
        &&& copies(table[seat].left_out, kind) == 0
    } by {
        lemma_copies_empty(kind);
        assert(table[seat].out =~= Seq::<Card>::empty());
        assert(table[seat].right_out =~= Seq::<Card>::empty());
        assert(table[seat].left_out =~= Seq::<Card>::empty());
    }
    assert forall|kind: int| 0 <= kind < 24 implies census(table, stock, kind) == 4 by {
        lemma_fresh_deck(kind);
        lemma_copies_shuffled(deck, fresh_deck(), kind);
        assert(melded(table[0].pairing, kind) == 0);
        assert(melded(table[1].pairing, kind) == 0);
        assert(melded(table[2].pairing, kind) == 0);
    }
    assert forall|me: int| 0 <= me < 3 implies mirrored(table, me) by {
        assert(table[me].right_pairing =~= table[right_of(me)].pairing);
        assert(table[me].left_pairing =~= table[left_of(me)].pairing);
        assert forall|kind: int| 0 <= kind < 24 implies copies(table[me].right_out, kind)
            <= copies(table[right_of(me)].out, kind) by {
            assert(melded(table[me].pairing, kind) == 0);
        }
        assert forall|kind: int| 0 <= kind < 24 implies copies(table[me].left_out, kind)
            <= copies(table[left_of(me)].out, kind) by {
            assert(melded(table[me].pairing, kind) == 0);
        }
    }
}

/// A table stays in order when a seat draws the top tile of the deck.
pub proof fn lemma_draw_keeps_tiles(table: Seq<Piles>, stock: Seq<Card>, seat: int)
    requires
        tiles_ok(table, stock),
        0 <= seat < 3,
        stock.len() > 0,
    ensures
        tiles_ok(draw_piles(table, seat, stock.last()), stock.drop_last()),
{
    reveal(tiles_ok);
    let card = stock.last();
    let after = draw_piles(table, seat, card);
    assert forall|kind: int| 0 <= kind < 24 implies census(after, stock.drop_last(), kind)
        == 4 by {
        assert(census(table, stock, kind) == 4);
        lemma_copies_drop_last(stock, kind);
        lemma_copies_push(table[seat].hand, card, kind);
    }
    assert(card.in_deck());
    assert(all_in_deck(stock.drop_last()));
    assert(all_in_deck(after[0].hand));
    assert(all_in_deck(after[1].hand));
    assert(all_in_deck(after[2].hand));
    assert(mirrored(table, 0) && mirrored(table, 1) && mirrored(table, 2));
    assert(mirrored(after, 0));
    assert(mirrored(after, 1));
    assert(mirrored(after, 2));
}

/// A table stays in order when a seat discards a tile of its hand.
#[verifier::rlimit(40)]
pub proof fn lemma_discard_keeps_tiles(table: Seq<Piles>, stock: Seq<Card>, seat: int, index: int)
    requires
        tiles_ok(table, stock),
        0 <= seat < 3,
        0 <= index < table[seat].hand.len(),
    ensures
        tiles_ok(discard_piles(table, seat, index), stock),
        on_top(discard_piles(table, seat, index), seat, table[seat].hand[index]),
{
    reveal(tiles_ok);
    let card = table[seat].hand[index];
    let right = right_of(seat);
    let left = left_of(seat);
    let after = discard_piles(table, seat, index);
    assert forall|kind: int| 0 <= kind < 24 implies census(after, stock, kind) == 4 by {
        assert(census(table, stock, kind) == 4);
        lemma_copies_remove(table[seat].hand, index, kind);
        lemma_copies_push(table[seat].out, card, kind);
        assert(owned(after[seat], kind) == owned(table[seat], kind));
        assert(owned(after[right], kind) == owned(table[right], kind));
        assert(owned(after[left], kind) == owned(table[left], kind));
    }
    assert(all_in_deck(after[0].hand));
    assert(all_in_deck(after[1].hand));
    assert(all_in_deck(after[2].hand));
    assert forall|me: int| 0 <= me < 3 implies mirrored(after, me) by {
        assert(mirrored(table, me));
        assert forall|kind: int| 0 <= kind < 24 implies copies(after[me].right_out, kind)
            <= copies(after[right_of(me)].out, kind) by {
            lemma_copies_push(table[me].right_out, card, kind);
            lemma_copies_push(table[right_of(me)].out, card, kind);
        }
        assert forall|kind: int| 0 <= kind < 24 implies copies(after[me].left_out, kind)
            <= copies(after[left_of(me)].out, kind) by {
            lemma_copies_push(table[me].left_out, card, kind);
            lemma_copies_push(table[left_of(me)].out, card, kind);
        }
    }
}

/// The tiles of the seats after a discard are those of the table after the discard: the
/// seat has discarded as a seat does, and its neighbours remember the tile.
#[verifier::rlimit(40)]
pub proof fn lemma_discard_keeps_order(
    before: Seq<Agent>,
    after: Seq<Agent>,
    stock: Seq<Card>,
    turn: int,
    resume: Option<u8>,
    index: int,
)
    requires
        in_play(before, stock, turn, resume, Mode::Normal, None),
        holding(before[turn].piles()) == 20,
        after.len() == 3,
        after[turn].discarded(&before[turn], index),
        after[right_of(turn)].piles() == (Piles {
            left_out: before[right_of(turn)].player_left_out@.push(before[turn].hand@[index]),
            ..before[right_of(turn)].piles()
        }),
        after[left_of(turn)].piles() == (Piles {
            right_out: before[left_of(turn)].player_right_out@.push(before[turn].hand@[index]),
            ..before[left_of(turn)].piles()
        }),
    ensures
        piles_of(after) == discard_piles(piles_of(before), turn, index),
        tiles_ok(piles_of(after), stock),
        sized(piles_of(after), turn, Mode::Normal),
        holding(piles_of(after)[turn]) == 19,
        on_top(piles_of(after), turn, before[turn].hand@[index]),
        fuel_of(piles_of(after), stock, Mode::Normal) + 2 == fuel_of(
            piles_of(before),
            stock,
            Mode::Normal,
        ),
{
    let table = piles_of(before);
    assert(table[0] == before[0].piles());
    assert(table[1] == before[1].piles());
    assert(table[2] == before[2].piles());
    let target = discard_piles(table, turn, index);
    assert(after[turn].piles() =~= target[turn]);
    assert forall|seat: int| 0 <= seat < 3 implies piles_of(after)[seat] == target[seat] by {
        assert(seat == turn || seat == right_of(turn) || seat == left_of(turn));
    }
    assert(piles_of(after) =~= target);
    lemma_discard_keeps_tiles(table, stock, turn, index);
}

/// Forgetting the top tile of a pile, if it is of the kind, forgets at most one copy of the
/// kind and nothing else.
pub proof fn lemma_retracted(pile: Seq<Card>, kind: int, other: int)
    requires
        0 <= kind < 64,
        0 <= other < 64,
    ensures
        copies(retracted(pile, kind), other) <= copies(pile, other),
        pile.len() > 0 && pile.last().kind() == kind ==> copies(retracted(pile, kind), other)
            + if other == kind {
            1nat
        } else {
            0nat
        } == copies(pile, other),
{
    if pile.len() > 0 {
        lemma_copies_drop_last(pile, other);
    }
}

/// A claim moves no copy off the table.
#[verifier::rlimit(40)]
proof fn lemma_claim_conserves(
    table: Seq<Piles>,
    stock: Seq<Card>,
    claimer: int,
    discarder: int,
    meld: Pairing,
)
    requires
        table.len() == 3,
        conserved(table, stock),
        0 <= claimer < 3,
        0 <= discarder < 3,
        claimer != discarder,
        on_top(table, discarder, meld.card()),
        copies(table[claimer].hand, meld.card().kind()) + 1 == meld.size(),
    ensures
        conserved(claim_piles(table, claimer, discarder, meld), stock),
{
    let card = meld.card();
    let kind = card.kind();
    let third = 3 - claimer - discarder;
    let after = claim_piles(table, claimer, discarder, meld);
    assert forall|k: int| 0 <= k < 24 implies census(after, stock, k) == 4 by {
        assert(census(table, stock, k) == 4);
        lemma_without_kind(table[claimer].hand, kind, k);
        lemma_melded_push(table[claimer].pairing, meld, k);
        lemma_copies_drop_last(table[discarder].out, k);
        assert(after[third].hand == table[third].hand);
        assert(after[third].out == table[third].out);
        assert(after[third].pairing == table[third].pairing);
        assert(owned(after[third], k) == owned(table[third], k));
        assert(after[discarder].hand == table[discarder].hand);
        assert(after[discarder].out == table[discarder].out.drop_last());
        assert(after[discarder].pairing == table[discarder].pairing);
        assert(after[claimer].hand == without_kind(table[claimer].hand, kind));
        assert(after[claimer].out == table[claimer].out);
        assert(after[claimer].pairing == table[claimer].pairing.push(meld));
        assert(owned(after[claimer], k) + owned(after[discarder], k) == owned(table[claimer], k)
            + owned(table[discarder], k));
    }
}

/// After a claim a seat still knows of its neighbours only what is true.
#[verifier::rlimit(40)]
proof fn lemma_claim_mirrors(
    table: Seq<Piles>,
    claimer: int,
    discarder: int,
    meld: Pairing,
    me: int,
)
    requires
        table.len() == 3,
        mirrored(table, me),
        0 <= me < 3,
        0 <= claimer < 3,
        0 <= discarder < 3,
        claimer != discarder,
        on_top(table, discarder, meld.card()),
    ensures
        mirrored(claim_piles(table, claimer, discarder, meld), me),
{
    let kind = meld.card().kind();
    let after = claim_piles(table, claimer, discarder, meld);
    let right = right_of(me);
    let left = left_of(me);
    assert(after[me] == claim_at(table[me], me, claimer, discarder, meld));
    assert(after[right] == claim_at(table[right], right, claimer, discarder, meld));
    assert(after[left] == claim_at(table[left], left, claimer, discarder, meld));
    assert(after[me].right_pairing == after[right].pairing);
    assert(after[me].left_pairing == after[left].pairing);
    assert forall|k: int| 0 <= k < 24 implies copies(after[me].right_out, k) <= copies(
        after[right].out,
        k,
    ) by {
        lemma_retracted(table[me].right_out, kind, k);
        if right == discarder {
            lemma_copies_drop_last(table[discarder].out, k);
            lemma_copies_drop_last(table[me].right_out, k);
        }
    }
    assert forall|k: int| 0 <= k < 24 implies copies(after[me].left_out, k) <= copies(
        after[left].out,
        k,
    ) by {
        lemma_retracted(table[me].left_out, kind, k);
        if left == discarder {
            lemma_copies_drop_last(table[discarder].out, k);
            lemma_copies_drop_last(table[me].left_out, k);
        }
    }
}

/// A table stays in order when a seat claims the last discard of another with the tiles of
/// the kind in its hand.
#[verifier::rlimit(40)]
pub proof fn lemma_claim_keeps_tiles(
    table: Seq<Piles>,
    stock: Seq<Card>,
    claimer: int,
    discarder: int,
    meld: Pairing,
)
    requires
        tiles_ok(table, stock),
        0 <= claimer < 3,
        0 <= discarder < 3,
        claimer != discarder,
        on_top(table, discarder, meld.card()),
        copies(table[claimer].hand, meld.card().kind()) + 1 == meld.size(),
    ensures
        tiles_ok(claim_piles(table, claimer, discarder, meld), stock),
        holding(claim_piles(table, claimer, discarder, meld)[claimer]) + meld.size() == holding(
            table[claimer],
        ) + 4,
        claim_piles(table, claimer, discarder, meld)[claimer].hand.len() + meld.size()
            == table[claimer].hand.len() + 1,
        holding(claim_piles(table, claimer, discarder, meld)[discarder]) == holding(
            table[discarder],
        ),
        holding(claim_piles(table, claimer, discarder, meld)[3 - claimer - discarder]) == holding(
            table[3 - claimer - discarder],
        ),
        claim_piles(table, claimer, discarder, meld)[discarder].hand == table[discarder].hand,
        claim_piles(table, claimer, discarder, meld)[3 - claimer - discarder].hand == table[3
            - claimer - discarder].hand,
{
    reveal(tiles_ok);
    let kind = meld.card().kind();
    let third = 3 - claimer - discarder;
    let after = claim_piles(table, claimer, discarder, meld);
    lemma_without_kind(table[claimer].hand, kind, kind);
    lemma_claim_conserves(table, stock, claimer, discarder, meld);
    lemma_claim_mirrors(table, claimer, discarder, meld, 0);
    lemma_claim_mirrors(table, claimer, discarder, meld, 1);
    lemma_claim_mirrors(table, claimer, discarder, meld, 2);
    assert(after[claimer] == claim_at(table[claimer], claimer, claimer, discarder, meld));
    assert(after[discarder] == claim_at(table[discarder], discarder, claimer, discarder, meld));
    assert(after[third] == claim_at(table[third], third, claimer, discarder, meld));
    assert(all_in_deck(after[claimer].hand)) by {
        let hand = table[claimer].hand;
        assert forall|i: int| 0 <= i < after[claimer].hand.len() implies (
        #[trigger] after[claimer].hand[i]).in_deck() by {
            let tile = after[claimer].hand[i];
            assert(without_kind(hand, kind).contains(tile));
            hand.lemma_filter_contains_rev(not_of(kind), tile);
        }
    }
    assert(all_in_deck(after[discarder].hand));
    assert(all_in_deck(after[third].hand));
}

/// The tiles of the seats after a claim are those of the table after the claim: the claimer
/// has melded as a seat does, and the two others have what a claim leaves them.
pub proof fn lemma_claim_settled(
    before: Seq<Agent>,
    after: Seq<Agent>,
    claimer: int,
    discarder: int,
    meld: Pairing,
)
    requires
        before.len() == 3,
        after.len() == 3,
        0 <= claimer < 3,
        0 <= discarder < 3,
        claimer != discarder,
        after[claimer].claimed(&before[claimer], meld),
        after[discarder].piles() == claim_at(
            before[discarder].piles(),
            discarder,
            claimer,
            discarder,
            meld,
        ),
        after[3 - claimer - discarder].piles() == claim_at(
            before[3 - claimer - discarder].piles(),
            3 - claimer - discarder,
            claimer,
            discarder,
            meld,
        ),
    ensures
        piles_of(after) == claim_piles(piles_of(before), claimer, discarder, meld),
{
    let third = 3 - claimer - discarder;
    let table = piles_of(before);
    let target = claim_piles(table, claimer, discarder, meld);
    assert(after[claimer].piles() =~= claim_at(
        before[claimer].piles(),
        claimer,
        claimer,
        discarder,
        meld,
    ));
    assert forall|seat: int| 0 <= seat < 3 implies piles_of(after)[seat] == target[seat] by {
        assert(seat == claimer || seat == discarder || seat == third);
        assert(table[seat] == before[seat].piles());
    }
    assert(piles_of(after) =~= target);
}

/// A table in play stays in order when the seat whose turn it is takes the offered claim,
/// and the hand has come nearer to its end.
#[verifier::rlimit(40)]
pub proof fn lemma_claim_keeps_order(
    before: Seq<Agent>,
    after: Seq<Agent>,
    stock: Seq<Card>,
    turn: int,
    resume: Option<u8>,
    offer: Mode,
)
    requires
        in_play(before, stock, turn, resume, offer, None),
        offer != Mode::Normal,
        after.len() == 3,
        after[turn].claimed(&before[turn], meld_of(offer)),
        after[left_of(resume->0 as int)].piles() == claim_at(
            before[left_of(resume->0 as int)].piles(),
            left_of(resume->0 as int),
            turn,
            left_of(resume->0 as int),
            meld_of(offer),
        ),
        after[3 - turn - left_of(resume->0 as int)].piles() == claim_at(
            before[3 - turn - left_of(resume->0 as int)].piles(),
            3 - turn - left_of(resume->0 as int),
            turn,
            left_of(resume->0 as int),
            meld_of(offer),
        ),
    ensures
        piles_of(after) == claim_piles(
            piles_of(before),
            turn,
            left_of(resume->0 as int),
            meld_of(offer),
        ),
        tiles_ok(piles_of(after), stock),
        sized(piles_of(after), turn, Mode::Normal),
        (holding(piles_of(after)[turn]) == 20) == (meld_of(offer) is Triplet),
        fuel_of(piles_of(after), stock, Mode::Normal) + 3
            <= fuel_of(piles_of(before), stock, offer),
{
    let meld = meld_of(offer);
    let discarder = left_of(resume->0 as int);
    let table = piles_of(before);
    assert(table[0] == before[0].piles());
    assert(table[1] == before[1].piles());
    assert(table[2] == before[2].piles());
    lemma_claim_settled(before, after, turn, discarder, meld);
    lemma_claim_keeps_tiles(table, stock, turn, discarder, meld);
}

} // verus!
