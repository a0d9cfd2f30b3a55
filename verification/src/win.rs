//! The winning hand: runs and sets taken out, a pair of one category is left, and the
//! hand is worth enough.

use vstd::prelude::*;
use crate::card::Card;
use crate::card::Pairing;
use crate::game::GameState;
use crate::tally::copies;
use crate::tally::lemma_copies_bound;
use crate::tally::minus_entry;
use crate::tally::tally;

verus! {

/// The lowest score with which a hand wins.
pub const WIN_SCORE: u8 = 12;

/// The least of three numbers.
pub open spec fn min3(a: nat, b: nat, c: nat) -> nat {
    if a <= b && a <= c {
        a
    } else if b <= c {
        b
    } else {
        c
    }
}

/// How many complete runs the category gives up: as many as its scarcest kind has copies.
pub open spec fn runs(tiles: Seq<Card>, category: int) -> nat {
    min3(
        copies(tiles, 3 * category),
        copies(tiles, 3 * category + 1),
        copies(tiles, 3 * category + 2),
    )
}

/// Copies of a kind that are left once every complete run has been taken out.
pub open spec fn loose(tiles: Seq<Card>, kind: int) -> nat {
    if 0 <= kind < 24 {
        (copies(tiles, kind) - runs(tiles, kind / 3)) as nat
    } else {
        copies(tiles, kind)
    }
}

/// Whether the copies left after the runs hold a set of the kind.
pub open spec fn forms_set(tiles: Seq<Card>, kind: int) -> bool {
    0 <= kind < 24 && loose(tiles, kind) >= 3
}

/// Copies of a kind that belong neither to a run nor to a set.
pub open spec fn residue(tiles: Seq<Card>, kind: int) -> nat {
    if forms_set(tiles, kind) {
        (loose(tiles, kind) - 3) as nat
    } else {
        loose(tiles, kind)
    }
}

/// Score of one run: four in the first category, four more in the wildcard's.
pub open spec fn run_bonus(category: int, jing: Card) -> nat {
    (if category == 0 {
        4nat
    } else {
        0nat
    }) + (if jing.category() == category {
        4nat
    } else {
        0nat
    })
}

/// Score of one set: four, eight more for the first kind, eight more for the wildcard's.
pub open spec fn set_bonus(kind: int, jing: Card) -> nat {
    4 + (if kind == 0 {
        8nat
    } else {
        0nat
    }) + (if jing.kind() == kind {
        8nat
    } else {
        0nat
    })
}

/// Score of the runs in the categories below `categories`.
pub open spec fn runs_score(tiles: Seq<Card>, jing: Card, categories: int) -> nat
    decreases categories,
{
    if categories <= 0 {
        0
    } else {
        runs_score(tiles, jing, categories - 1) + runs(tiles, categories - 1) * run_bonus(
            categories - 1,
            jing,
        )
    }
}

/// Score of the sets in the kinds below `kinds`.
pub open spec fn sets_score(tiles: Seq<Card>, jing: Card, kinds: int) -> nat
    decreases kinds,
{
    if kinds <= 0 {
        0
    } else {
        sets_score(tiles, jing, kinds - 1) + if forms_set(tiles, kinds - 1) {
            set_bonus(kinds - 1, jing)
        } else {
            0
        }
    }
}

/// What the hand is worth: the banked score of the melds and the score of its runs and sets.
pub open spec fn hand_score(tiles: Seq<Card>, banked: nat, jing: Card) -> nat {
    banked + runs_score(tiles, jing, 8) + sets_score(tiles, jing, 24)
}

/// Number of kinds below `kinds` of which a copy is left outside runs and sets.
pub open spec fn residual_kinds(tiles: Seq<Card>, kinds: int) -> nat
    decreases kinds,
{
    if kinds <= 0 {
        0
    } else {
        residual_kinds(tiles, kinds - 1) + if residue(tiles, kinds - 1) > 0 {
            1nat
        } else {
            0nat
        }
    }
}

/// Whether all the kinds left outside runs and sets lie in one category.
pub open spec fn one_family(tiles: Seq<Card>) -> bool {
    forall|a: int, b: int|
        0 <= a < 64 && 0 <= b < 64 && residue(tiles, a) > 0 && residue(tiles, b) > 0 ==> a / 3 == b
            / 3
}

/// The winning condition: runs and sets taken out, exactly two kinds are left, both of one
/// category, and the hand is worth at least [`WIN_SCORE`].
pub open spec fn is_win(tiles: Seq<Card>, banked: nat, jing: Card) -> bool {
    &&& residual_kinds(tiles, 64) == 2
    &&& one_family(tiles)
    &&& hand_score(tiles, banked, jing) >= WIN_SCORE
}

/// A banked score that has reached the winning score wins or loses with the hand's shape alone.
pub proof fn lemma_win_score_saturates(tiles: Seq<Card>, a: nat, b: nat, jing: Card)
    requires
        a >= WIN_SCORE,
        b >= WIN_SCORE,
    ensures
        is_win(tiles, a, jing) == is_win(tiles, b, jing),
{
}

impl GameState {
/// Decides whether a hand wins, given the score banked by the seat's melds and the wildcard.
pub fn is_hu(hand: &Vec<Card>, score: u8, jing: Card) -> (won: bool)
    ensures
        won == is_win(hand@, score as nat, jing),
{
    let mut table = tally(hand);
    let mut total: u128 = score as u128;
    let ghost tiles = hand@;
    proof {
        assert forall|kind: int| 0 <= kind < 64 implies copies(tiles, kind) <= usize::MAX by {
            lemma_copies_bound(tiles, kind);
        }
    }
    let mut cat: usize = 0;
    while cat < 8
        invariant
            cat <= 8,
            tiles == hand@,
            forall|kind: int| 0 <= kind < 64 ==> copies(tiles, kind) <= usize::MAX,
            forall|kind: int|
                0 <= kind < 64 ==> table@[kind] == if kind < 3 * cat {
                    loose(tiles, kind)
                } else {
                    copies(tiles, kind)
                },
            total == score + runs_score(tiles, jing, cat as int),
            total <= 255 + cat * 8 * 0x1_0000_0000_0000_0000,
        decreases 8 - cat,
    {
        let i = 3 * cat;
        let a = table[i];
        let b = table[i + 1];
        let c = table[i + 2];
        let m = if a <= b && a <= c {
            a
        } else if b <= c {
            b
        } else {
            c
        };
        assert(m == runs(tiles, cat as int));
        minus_entry(&mut table, i, m);
        minus_entry(&mut table, i + 1, m);
        minus_entry(&mut table, i + 2, m);
        let first: u128 = if cat == 0 {
            4 * (m as u128)
        } else {
            0
        };
        let wild: u128 = if (jing.0 / 12) as usize == cat {
            4 * (m as u128)
        } else {
            0
        };
        assert(first + wild == runs(tiles, cat as int) * run_bonus(cat as int, jing)) by {
            let r = runs(tiles, cat as int);
            assert(r * 0 == 0 && r * 4 == 4 * r && r * 8 == 8 * r) by (nonlinear_arith);
        }
        total = total + first + wild;
        cat += 1;
    }
    let mut kind: usize = 0;
    while kind < 24
        invariant
            kind <= 24,
            tiles == hand@,
            forall|k: int|
                0 <= k < 64 ==> table@[k] == if k < kind {
                    residue(tiles, k)
                } else {
                    loose(tiles, k)
                },
            total == score + runs_score(tiles, jing, 8) + sets_score(tiles, jing, kind as int),
            total <= 255 + 8 * 8 * 0x1_0000_0000_0000_0000 + kind * 20,
        decreases 24 - kind,
    {
        if table[kind] >= 3 {
            minus_entry(&mut table, kind, 3);
            total = total + 4;
            if kind == 0 {
                total = total + 8;
            }
            if (jing.0 / 4) as usize == kind {
                total = total + 8;
            }
        }
        kind += 1;
    }
    let mut found: usize = 0;
    let mut low: usize = 0;
    let mut high: usize = 0;
    let mut k: usize = 0;
    while k < 64
        invariant
            k <= 64,
            found <= k,
            forall|j: int| 0 <= j < 64 ==> table@[j] == residue(tiles, j),
            found == residual_kinds(tiles, k as int),
            found > 0 ==> low <= high < k && residue(tiles, low as int) > 0 && residue(
                tiles,
                high as int,
            ) > 0,
            found == 1 ==> low == high,
            found == 2 ==> low < high,
            found <= 2 ==> forall|j: int|
                0 <= j < k && residue(tiles, j) > 0 ==> j == low || j == high,
            found == 0 ==> forall|j: int| 0 <= j < k ==> residue(tiles, j) == 0,
        decreases 64 - k,
    {
        if table[k] > 0 {
            if found == 0 {
                low = k;
            }
            high = k;
            found = found + 1;
        }
        k += 1;
    }
    if found != 2 {
        return false;
    }
    proof {
        if low / 3 == high / 3 {
            assert(one_family(tiles));
        } else {
            assert(!one_family(tiles));
        }
    }
    low / 3 == high / 3 && total >= 12
}

}

/// What a triplet banks.
pub const TRIPLET_SCORE: u8 = 4;

/// What a quadlet banks.
pub const QUADLET_SCORE: u8 = 8;

/// The score banked by a seat's melds: four a triplet, eight a quadlet. This is the one
/// score with which a hand is looked at, both for a win and for what it waits for.
pub open spec fn banked(melds: Seq<Pairing>) -> nat
    decreases melds.len(),
{
    if melds.len() == 0 {
        0
    } else {
        banked(melds.drop_last()) + match melds.last() {
            Pairing::Triplet(_) => TRIPLET_SCORE as nat,
            Pairing::Quadlet(_) => QUADLET_SCORE as nat,
        }
    }
}

/// The banked score as far as a byte holds it: from 255 on it stays at 255.
pub open spec fn capped(score: nat) -> nat {
    if score > 255 {
        255
    } else {
        score
    }
}

/// Adds up the score banked by a seat's melds, stopping at 255.
pub fn bank(melds: &Vec<Pairing>) -> (score: u8)
    ensures
        score == capped(banked(melds@)),
{
    let mut score: u8 = 0;
    let mut i: usize = 0;
    proof {
        assert(melds@.take(0) =~= Seq::<Pairing>::empty());
    }
    while i < melds.len()
        invariant
            i <= melds@.len(),
            score == capped(banked(melds@.take(i as int))),
        decreases melds@.len() - i,
    {
        let worth = match melds[i] {
            Pairing::Triplet(_) => TRIPLET_SCORE,
            Pairing::Quadlet(_) => QUADLET_SCORE,
        };
        proof {
            assert(melds@.take(i as int + 1).drop_last() =~= melds@.take(i as int));
        }
        score = if 255 - score < worth {
            255
        } else {
            score + worth
        };
        i += 1;
    }
    proof {
        assert(melds@.take(melds@.len() as int) =~= melds@);
    }
    score
}

/// Whether a hand wins depends on how many tiles of each kind it holds, not on which of the
/// four copies they are nor on their order.
pub proof fn lemma_win_by_copies(first: Seq<Card>, second: Seq<Card>, score: nat, jing: Card)
    requires
        forall|kind: int| 0 <= kind < 64 ==> copies(first, kind) == copies(second, kind),
    ensures
        is_win(first, score, jing) == is_win(second, score, jing),
{
    assert forall|kind: int| 0 <= kind < 64 implies residue(first, kind) == residue(
        second,
        kind,
    ) && forms_set(first, kind) == forms_set(second, kind) by {
        if kind < 24 {
            assert(runs(first, kind / 3) == runs(second, kind / 3));
        }
    }
    lemma_scores_by_copies(first, second, jing, 8, 24, 64);
}

/// The scores of runs and sets and the number of kinds left depend on how many tiles of each
/// kind a hand holds.
proof fn lemma_scores_by_copies(
    first: Seq<Card>,
    second: Seq<Card>,
    jing: Card,
    categories: int,
    kinds: int,
    left: int,
)
    requires
        0 <= categories <= 8,
        0 <= kinds <= 24,
        0 <= left <= 64,
        forall|kind: int| 0 <= kind < 64 ==> copies(first, kind) == copies(second, kind),
        forall|kind: int|
            0 <= kind < 64 ==> residue(first, kind) == residue(second, kind) && forms_set(
                first,
                kind,
            ) == forms_set(second, kind),
    ensures
        runs_score(first, jing, categories) == runs_score(second, jing, categories),
        sets_score(first, jing, kinds) == sets_score(second, jing, kinds),
        residual_kinds(first, left) == residual_kinds(second, left),
    decreases categories + kinds + left,
{
    if categories > 0 {
        lemma_scores_by_copies(first, second, jing, categories - 1, kinds, left);
        assert(runs(first, categories - 1) == runs(second, categories - 1));
    } else if kinds > 0 {
        lemma_scores_by_copies(first, second, jing, categories, kinds - 1, left);
    } else if left > 0 {
        lemma_scores_by_copies(first, second, jing, categories, kinds, left - 1);
    }
}

/// Whether a hand wins does not change when the banked score is held in a byte.
pub proof fn lemma_win_capped(tiles: Seq<Card>, score: nat, jing: Card)
    ensures
        is_win(tiles, capped(score), jing) == is_win(tiles, score, jing),
{
    if score > 255 {
        lemma_win_score_saturates(tiles, capped(score), score, jing);
    }
}

} // verus!
