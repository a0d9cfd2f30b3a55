//! Counting the tiles of a kind in piles and melds.

use vstd::prelude::*;
use crate::card::Card;
use crate::card::Pairing;

verus! {

/// The tile with the given offset (0 to 3) among the copies of a kind.
pub open spec fn copy_of(kind: int, offset: int) -> Card {
    Card((4 * kind + offset) as u8)
}

/// How many tiles of the given kind a pile holds: how many of its four copies.
#[verifier::opaque]
pub open spec fn copies(tiles: Seq<Card>, kind: int) -> nat {
    let m = tiles.to_multiset();
    m.count(copy_of(kind, 0)) + m.count(copy_of(kind, 1)) + m.count(copy_of(kind, 2)) + m.count(
        copy_of(kind, 3),
    )
}

/// How many tiles of the given kind a list of melds reveals.
pub open spec fn melded(melds: Seq<Pairing>, kind: int) -> nat
    decreases melds.len(),
{
    if melds.len() == 0 {
        0
    } else {
        melded(melds.drop_last(), kind) + if melds.last().card().kind() == kind {
            melds.last().size()
        } else {
            0
        }
    }
}

/// An empty pile holds no tile of any kind.
pub proof fn lemma_copies_empty(kind: int)
    ensures
        copies(Seq::<Card>::empty(), kind) == 0,
{
    reveal(copies);
    broadcast use vstd::seq_lib::group_to_multiset_ensures;
}

/// A tile put on a pile adds one to the copies of its kind and nothing to the others.
pub proof fn lemma_copies_push(tiles: Seq<Card>, card: Card, kind: int)
    requires
        0 <= kind < 64,
    ensures
        copies(tiles.push(card), kind) == copies(tiles, kind) + if card.kind() == kind {
            1nat
        } else {
            0nat
        },
{
    reveal(copies);
    broadcast use vstd::seq_lib::group_to_multiset_ensures;
    assert(tiles.push(card).to_multiset() =~= tiles.to_multiset().insert(card));
}

/// A tile taken out of a pile takes one off the copies of its kind and nothing off the
/// others.
pub proof fn lemma_copies_remove(tiles: Seq<Card>, index: int, kind: int)
    requires
        0 <= kind < 64,
        0 <= index < tiles.len(),
    ensures
        copies(tiles, kind) == copies(tiles.remove(index), kind) + if tiles[index].kind() == kind {
            1nat
        } else {
            0nat
        },
{
    reveal(copies);
    broadcast use vstd::seq_lib::group_to_multiset_ensures;
    vstd::seq_lib::to_multiset_remove(tiles, index);
    assert(tiles.to_multiset().count(tiles[index]) > 0);
}

/// The top tile of a pile is one of the copies of its kind.
pub proof fn lemma_copies_drop_last(tiles: Seq<Card>, kind: int)
    requires
        0 <= kind < 64,
        tiles.len() > 0,
    ensures
        copies(tiles, kind) == copies(tiles.drop_last(), kind) + if tiles.last().kind() == kind {
            1nat
        } else {
            0nat
        },
{
    assert(tiles.drop_last().push(tiles.last()) =~= tiles);
    lemma_copies_push(tiles.drop_last(), tiles.last(), kind);
}

/// A pile holds no more copies of a kind than it holds tiles.
pub proof fn lemma_copies_bound(tiles: Seq<Card>, kind: int)
    requires
        0 <= kind < 64,
    ensures
        copies(tiles, kind) <= tiles.len(),
    decreases tiles.len(),
{
    if tiles.len() == 0 {
        assert(tiles =~= Seq::<Card>::empty());
        lemma_copies_empty(kind);
    } else {
        lemma_copies_bound(tiles.drop_last(), kind);
        lemma_copies_drop_last(tiles, kind);
    }
}

/// A meld added to a list adds its tiles to those of its kind and nothing to the others.
pub proof fn lemma_melded_push(melds: Seq<Pairing>, meld: Pairing, kind: int)
    ensures
        melded(melds.push(meld), kind) == melded(melds, kind) + if meld.card().kind() == kind {
            meld.size()
        } else {
            0nat
        },
{
    assert(melds.push(meld).drop_last() =~= melds);
}

/// A list of melds reveals no more than four tiles a meld.
pub proof fn lemma_melded_bound(melds: Seq<Pairing>, kind: int)
    ensures
        melded(melds, kind) <= 4 * melds.len(),
    decreases melds.len(),
{
    if melds.len() > 0 {
        lemma_melded_bound(melds.drop_last(), kind);
    }
}

/// Counts, for each of the 64 kinds, the tiles of that kind in a pile.
pub fn tally(tiles: &Vec<Card>) -> (table: [usize; 64])
    ensures
        forall|kind: int| 0 <= kind < 64 ==> table@[kind] == copies(tiles@, kind),
{
    let mut table = [0usize; 64];
    let mut i: usize = 0;
    proof {
        assert(tiles@.take(0) =~= Seq::<Card>::empty());
        assert forall|kind: int| 0 <= kind < 64 implies table@[kind] == copies(
            tiles@.take(0),
            kind,
        ) by {
            lemma_copies_empty(kind);
        }
    }
    while i < tiles.len()
        invariant
            i <= tiles@.len(),
            forall|kind: int| 0 <= kind < 64
                ==> table@[kind] == copies(tiles@.take(i as int), kind),
        decreases tiles@.len() - i,
    {
        let k = (tiles[i].0 / 4) as usize;
        proof {
            lemma_copies_bound(tiles@.take(i as int), k as int);
            assert(tiles@.take(i as int + 1) =~= tiles@.take(i as int).push(tiles@[i as int]));
            assert forall|kind: int| 0 <= kind < 64 implies copies(
                tiles@.take(i as int + 1),
                kind,
            ) == copies(tiles@.take(i as int), kind) + if kind == k {
                1nat
            } else {
                0nat
            } by {
                lemma_copies_push(tiles@.take(i as int), tiles@[i as int], kind);
            }
        }
        table[k] = table[k] + 1;
        i += 1;
    }
    proof {
        assert(tiles@.take(tiles@.len() as int) =~= tiles@);
    }
    table
}

/// Counts, for each of the 64 kinds, the tiles of that kind that a list of melds reveals.
pub fn meld_tally(melds: &Vec<Pairing>) -> (table: [u128; 64])
    ensures
        forall|kind: int| 0 <= kind < 64 ==> table@[kind] == melded(melds@, kind),
{
    let mut table = [0u128; 64];
    let mut i: usize = 0;
    proof {
        assert(melds@.take(0) =~= Seq::<Pairing>::empty());
    }
    while i < melds.len()
        invariant
            i <= melds@.len(),
            forall|kind: int|
                0 <= kind < 64 ==> table@[kind] == melded(melds@.take(i as int), kind),
        decreases melds@.len() - i,
    {
        let (k, n): (usize, u128) = match melds[i] {
            Pairing::Triplet(c) => ((c.0 / 4) as usize, 3),
            Pairing::Quadlet(c) => ((c.0 / 4) as usize, 4),
        };
        proof {
            lemma_melded_bound(melds@.take(i as int), k as int);
            assert(melds@.take(i as int + 1) =~= melds@.take(i as int).push(melds@[i as int]));
            assert forall|kind: int| 0 <= kind < 64 implies melded(
                melds@.take(i as int + 1),
                kind,
            ) == melded(melds@.take(i as int), kind) + if kind == k {
                n as nat
            } else {
                0nat
            } by {
                lemma_melded_push(melds@.take(i as int), melds@[i as int], kind);
            }
        }
        table[k] = table[k] + n;
        i += 1;
    }
    proof {
        assert(melds@.take(melds@.len() as int) =~= melds@);
    }
    table
}

/// Takes `val` copies of the kind `key` off a table of counts.
pub fn minus_entry(cnt: &mut [usize; 64], key: usize, val: usize)
    requires
        key < 64,
        val <= old(cnt)@[key as int],
    ensures
        final(cnt)@ == old(cnt)@.update(key as int, (old(cnt)@[key as int] - val) as usize),
{
    cnt[key] = cnt[key] - val;
}

/// The test that a tile is not of the given kind.
pub open spec fn not_of(kind: int) -> spec_fn(Card) -> bool {
    |tile: Card| tile.kind() != kind
}

/// The pile without its tiles of the given kind, the others in their order.
pub open spec fn without_kind(tiles: Seq<Card>, kind: int) -> Seq<Card> {
    tiles.filter(not_of(kind))
}

/// Taking a kind out of a pile takes out every copy of it and nothing else.
pub proof fn lemma_without_kind(tiles: Seq<Card>, kind: int, other: int)
    requires
        0 <= kind < 64,
        0 <= other < 64,
    ensures
        copies(without_kind(tiles, kind), other) == if other == kind {
            0
        } else {
            copies(tiles, other)
        },
        without_kind(tiles, kind).len() + copies(tiles, kind) == tiles.len(),
    decreases tiles.len(),
{
    if tiles.len() == 0 {
        assert(tiles =~= Seq::<Card>::empty());
        reveal(Seq::filter);
        lemma_copies_empty(other);
        lemma_copies_empty(kind);
    } else {
        let front = tiles.drop_last();
        let last = tiles.last();
        assert(front.push(last) =~= tiles);
        lemma_without_kind(front, kind, other);
        front.lemma_filter_push(last, not_of(kind));
        lemma_copies_push(front, last, other);
        lemma_copies_push(front, last, kind);
        if last.kind() != kind {
            lemma_copies_push(without_kind(front, kind), last, other);
        }
    }
}

/// Takes every tile of the given kind out of a pile.
pub fn remove_kind(tiles: &mut Vec<Card>, kind: u8)
    ensures
        final(tiles)@ == without_kind(old(tiles)@, kind as int),
{
    let mut kept: Vec<Card> = Vec::new();
    let mut i: usize = 0;
    proof {
        assert(tiles@.take(0) =~= Seq::<Card>::empty());
        reveal(Seq::filter);
    }
    while i < tiles.len()
        invariant
            i <= tiles@.len(),
            tiles@ == old(tiles)@,
            kept@ == without_kind(tiles@.take(i as int), kind as int),
        decreases tiles@.len() - i,
    {
        let tile = tiles[i];
        proof {
            assert(tiles@.take(i as int + 1) =~= tiles@.take(i as int).push(tile));
            tiles@.take(i as int).lemma_filter_push(tile, not_of(kind as int));
        }
        if tile.0 / 4 != kind {
            kept.push(tile);
        }
        i += 1;
    }
    proof {
        assert(tiles@.take(tiles@.len() as int) =~= tiles@);
    }
    *tiles = kept;
}

} // verus!
