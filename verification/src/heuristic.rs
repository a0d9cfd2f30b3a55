//! The discard of the heuristic player: the hand divided by category, the shape of a group
//! for runs and sets, and the tile that an appraiser minds least to lose.

use vstd::prelude::*;
use crate::agent::Agent;
use crate::card::Card;
use crate::tally::copies;
use crate::tally::lemma_copies_bound;
use crate::tally::minus_entry;
use crate::tally::tally;
use crate::win::runs;

verus! {

/// The test that a hand holds the tile.
pub open spec fn held_in(hand: Seq<Card>) -> spec_fn(Card) -> bool {
    |tile: Card| hand.contains(tile)
}

/// The twelve tiles of a category, in ascending order.
pub open spec fn category_tiles(category: int) -> Seq<Card> {
    Seq::new(12, |i: int| Card((12 * category + i) as u8))
}

/// The tiles of a category that the hand holds, each once, in ascending order.
pub open spec fn group_of(hand: Seq<Card>, category: int) -> Seq<Card> {
    category_tiles(category).filter(held_in(hand))
}

/// The test that a group holds a tile.
pub open spec fn is_nonempty() -> spec_fn(Seq<Card>) -> bool {
    |group: Seq<Card>| group.len() > 0
}

/// The hand divided by category: the groups of the eight categories in their order, those
/// left out of which the hand holds nothing.
pub open spec fn groups_of(hand: Seq<Card>) -> Seq<Seq<Card>> {
    Seq::new(8, |category: int| group_of(hand, category)).filter(is_nonempty())
}

/// Whether the hand holds the tile.
fn holds(hand: &Vec<Card>, tile: Card) -> (found: bool)
    ensures
        found == hand@.contains(tile),
{
    let mut i: usize = 0;
    while i < hand.len()
        invariant
            i <= hand@.len(),
            forall|j: int| 0 <= j < i ==> hand@[j] != tile,
        decreases hand@.len() - i,
    {
        if hand[i].0 == tile.0 {
            return true;
        }
        i += 1;
    }
    false
}

/// Divides a hand into its groups, one for each category it holds a tile of.
pub fn divide_into_group(hand: &Vec<Card>) -> (groups: Vec<Vec<Card>>)
    ensures
        groups@.len() == groups_of(hand@).len(),
        forall|i: int| 0 <= i < groups@.len() ==> (#[trigger] groups@[i])@ == groups_of(hand@)[i],
{
    let mut groups: Vec<Vec<Card>> = Vec::new();
    let ghost all = Seq::new(8, |category: int| group_of(hand@, category));
    let ghost mut shapes: Seq<Seq<Card>> = Seq::empty();
    let mut category: u8 = 0;
    proof {
        assert(all.take(0) =~= Seq::<Seq<Card>>::empty());
        reveal(Seq::filter);
    }
    while category < 8
        invariant
            category <= 8,
            all == Seq::new(8, |category: int| group_of(hand@, category)),
            shapes == all.take(category as int).filter(is_nonempty()),
            groups@.len() == shapes.len(),
            forall|i: int| 0 <= i < groups@.len() ==> (#[trigger] groups@[i])@ == shapes[i],
        decreases 8 - category,
    {
        let mut group: Vec<Card> = Vec::new();
        let ghost tiles = category_tiles(category as int);
        let mut i: u8 = 0;
        proof {
            assert(tiles.take(0) =~= Seq::<Card>::empty());
        }
        while i < 12
            invariant
                i <= 12,
                category < 8,
                tiles == category_tiles(category as int),
                group@ == tiles.take(i as int).filter(held_in(hand@)),
            decreases 12 - i,
        {
            let tile = Card(12 * category + i);
            proof {
                assert(tiles.take(i as int + 1) =~= tiles.take(i as int).push(tile));
                tiles.take(i as int).lemma_filter_push(tile, held_in(hand@));
            }
            if holds(hand, tile) {
                group.push(tile);
            }
            i += 1;
        }
        proof {
            assert(tiles.take(12) =~= tiles);
            assert(all.take(category as int + 1) =~= all.take(category as int).push(group@));
            all.take(category as int).lemma_filter_push(group@, is_nonempty());
        }
        if group.len() != 0 {
            groups.push(group);
            proof {
                shapes = shapes.push(group@);
            }
        }
        category += 1;
    }
    proof {
        assert(all.take(8) =~= all);
    }
    groups
}

/// Every tile of a hand's groups is a tile of the hand.
pub proof fn lemma_groups_held(hand: Seq<Card>, group: int, index: int)
    requires
        0 <= group < groups_of(hand).len(),
        0 <= index < groups_of(hand)[group].len(),
    ensures
        hand.contains(groups_of(hand)[group][index]),
        groups_of(hand)[group][index].in_deck(),
{
    let all = Seq::new(8, |category: int| group_of(hand, category));
    let chosen = groups_of(hand)[group];
    assert(all.filter(is_nonempty()).contains(chosen));
    all.lemma_filter_contains_rev(is_nonempty(), chosen);
    let category = choose|category: int| 0 <= category < 8 && all[category] == chosen;
    let tiles = category_tiles(category);
    assert(chosen == tiles.filter(held_in(hand)));
    let tile = chosen[index];
    assert(chosen.contains(tile));
    tiles.lemma_filter_contains_rev(held_in(hand), tile);
    tiles.lemma_filter_pred(held_in(hand), index);
    let within = choose|within: int| 0 <= within < 12 && tiles[within] == tile;
    assert(tile.0 == 12 * category + within);
}

/// A hand that holds a tile of the deck has a group.
pub proof fn lemma_groups_exist(hand: Seq<Card>, index: int)
    requires
        0 <= index < hand.len(),
        hand[index].in_deck(),
    ensures
        groups_of(hand).len() > 0,
{
    broadcast use vstd::seq_lib::group_filter_ensures;
    let tile = hand[index];
    let category = tile.category();
    let all = Seq::new(8, |category: int| group_of(hand, category));
    let within = tile.0 as int - 12 * category;
    assert(category_tiles(category)[within] == tile);
    assert(held_in(hand)(tile));
    assert(group_of(hand, category).contains(tile));
    assert(is_nonempty()(all[category]));
    assert(all.filter(is_nonempty()).contains(all[category]));
}

/// How near a group is to its runs.
pub enum RunShape {
    /// The group holds no tile.
    Empty,
    /// Every tile of the group stands in a run.
    Complete,
    /// Tiles are left outside runs.
    Wanting {
        /// The kinds of the category of which no copy is left: what a run still wants.
        kinds: Vec<u8>,
        /// The category is the first or the wildcard's, where a run counts double.
        doubled: bool,
    },
}

/// How near a group is to its sets.
pub enum SetShape {
    /// The group holds no tile.
    Empty,
    /// Every tile of the group stands in a set.
    Complete,
    /// Tiles are left outside sets.
    Wanting {
        /// The kinds of which copies are left, ascending, each with the number left.
        rest: Vec<(u8, usize)>,
        /// The category is the first or the wildcard's, where a set counts double.
        doubled: bool,
    },
}

/// Copies of a kind left in a group once the runs of the given category are taken out.
pub open spec fn left_of_runs(tiles: Seq<Card>, category: int, kind: int) -> nat {
    if kind / 3 == category {
        (copies(tiles, kind) - runs(tiles, category)) as nat
    } else {
        copies(tiles, kind)
    }
}

/// Copies of a kind left in a group once a set of each kind of the category is taken out.
pub open spec fn left_of_sets(tiles: Seq<Card>, category: int, kind: int) -> nat {
    if kind / 3 == category && copies(tiles, kind) >= 3 {
        (copies(tiles, kind) - 3) as nat
    } else {
        copies(tiles, kind)
    }
}

/// The kinds of a category of which a group has no copy left outside runs, ascending.
pub open spec fn wanted_for_run(tiles: Seq<Card>, category: int) -> Seq<u8> {
    (if left_of_runs(tiles, category, 3 * category) == 0 {
        seq![(3 * category) as u8]
    } else {
        seq![]
    }) + (if left_of_runs(tiles, category, 3 * category + 1) == 0 {
        seq![(3 * category + 1) as u8]
    } else {
        seq![]
    }) + (if left_of_runs(tiles, category, 3 * category + 2) == 0 {
        seq![(3 * category + 2) as u8]
    } else {
        seq![]
    })
}

/// Each kind with the copies of it that a group has left outside sets.
pub open spec fn set_counts(tiles: Seq<Card>, category: int) -> Seq<(u8, usize)> {
    Seq::new(64, |kind: int| (kind as u8, left_of_sets(tiles, category, kind) as usize))
}

/// The test that copies of a kind are left.
pub open spec fn is_left() -> spec_fn((u8, usize)) -> bool {
    |entry: (u8, usize)| entry.1 > 0
}

/// The kinds of which a group has copies left outside sets, ascending, each with the number.
pub open spec fn left_for_sets(tiles: Seq<Card>, category: int) -> Seq<(u8, usize)> {
    set_counts(tiles, category).filter(is_left())
}

/// Whether a run or a set of the category counts double with the given wildcard.
pub open spec fn counts_double(category: int, jing: Card) -> bool {
    category == 0 || jing.category() == category
}

impl Agent {
    /// Looks at a group for its runs: takes out the complete runs of the category of its first
    /// tile and says which kinds of that category the rest wants.
    #[verifier::rlimit(40)]
    pub fn form_shun(&self, group: &Vec<Card>) -> (shape: RunShape)
        requires
            group@.len() > 0 ==> group@[0].in_deck(),
        ensures
            match shape {
                RunShape::Empty => group@.len() == 0,
                RunShape::Complete => group@.len() > 0 && forall|kind: int|
                    0 <= kind < 64 ==> left_of_runs(group@, group@[0].category(), kind) == 0,
                RunShape::Wanting { kinds, doubled } => {
                    &&& group@.len() > 0
                    &&& exists|kind: int|
                        0 <= kind < 64 && left_of_runs(group@, group@[0].category(), kind) > 0
                    &&& kinds@ == wanted_for_run(group@, group@[0].category())
                    &&& doubled == counts_double(group@[0].category(), self.jing)
                },
            },
    {
        if group.len() == 0 {
            return RunShape::Empty;
        }
        let mut table = tally(group);
        let cat = (group[0].0 / 12) as usize;
        let i = 3 * cat;
        let a = table[i];
        let b = table[i + 1];
        let c = table[i + 2];
        let m = if a <= b && a <= c {
            a
        } else if b <= c {
            b
        } else {
            c
        };
        minus_entry(&mut table, i, m);
        minus_entry(&mut table, i + 1, m);
        minus_entry(&mut table, i + 2, m);
        assert(forall|kind: int|
            0 <= kind < 64 ==> table@[kind] == left_of_runs(group@, cat as int, kind));
        let mut k: usize = 0;
        let mut any = false;
        while k < 64
            invariant
                k <= 64,
                forall|kind: int|
                    0 <= kind < 64 ==> table@[kind] == left_of_runs(group@, cat as int, kind),
                any <==> exists|kind: int|
                    0 <= kind < k && left_of_runs(group@, cat as int, kind) > 0,
            decreases 64 - k,
        {
            if table[k] > 0 {
                any = true;
            }
            k += 1;
        }
        if !any {
            return RunShape::Complete;
        }
        let mut kinds: Vec<u8> = Vec::new();
        if table[i] == 0 {
            kinds.push(i as u8);
        }
        if table[i + 1] == 0 {
            kinds.push((i + 1) as u8);
        }
        if table[i + 2] == 0 {
            kinds.push((i + 2) as u8);
        }
        assert(kinds@ =~= wanted_for_run(group@, cat as int));
        RunShape::Wanting { kinds, doubled: cat == 0 || (self.jing.0 / 12) as usize == cat }
    }

    /// Looks at a group for its sets: takes a set out of each kind of the category of its
    /// first tile that has one and says what is left of which kind.
    #[verifier::rlimit(40)]
    pub fn form_ke(&self, group: &Vec<Card>) -> (shape: SetShape)
        requires
            group@.len() > 0 ==> group@[0].in_deck(),
        ensures
            match shape {
                SetShape::Empty => group@.len() == 0,
                SetShape::Complete => group@.len() > 0 && left_for_sets(
                    group@,
                    group@[0].category(),
                ).len() == 0,
                SetShape::Wanting { rest, doubled } => {
                    &&& group@.len() > 0
                    &&& rest@.len() > 0
                    &&& rest@ == left_for_sets(group@, group@[0].category())
                    &&& doubled == counts_double(group@[0].category(), self.jing)
                },
            },
    {
        if group.len() == 0 {
            return SetShape::Empty;
        }
        let mut table = tally(group);
        let cat = (group[0].0 / 12) as usize;
        let mut j: usize = 0;
        while j < 3
            invariant
                j <= 3,
                cat < 8,
                forall|kind: int|
                    0 <= kind < 64 ==> table@[kind] == if kind < 3 * cat + j {
                        left_of_sets(group@, cat as int, kind)
                    } else {
                        copies(group@, kind)
                    },
            decreases 3 - j,
        {
            if table[3 * cat + j] >= 3 {
                minus_entry(&mut table, 3 * cat + j, 3);
            }
            j += 1;
        }
        let ghost all = set_counts(group@, cat as int);
        let mut rest: Vec<(u8, usize)> = Vec::new();
        let mut k: usize = 0;
        proof {
            assert(all.take(0) =~= Seq::<(u8, usize)>::empty());
            reveal(Seq::filter);
            assert forall|kind: int| 0 <= kind < 64 implies copies(group@, kind)
                <= usize::MAX by {
                lemma_copies_bound(group@, kind);
            }
        }
        while k < 64
            invariant
                k <= 64,
                cat < 8,
                all == set_counts(group@, cat as int),
                forall|kind: int| 0 <= kind < 64 ==> copies(group@, kind) <= usize::MAX,
                forall|kind: int|
                    0 <= kind < 64 ==> table@[kind] == left_of_sets(group@, cat as int, kind),
                rest@ == all.take(k as int).filter(is_left()),
            decreases 64 - k,
        {
            let entry = (k as u8, table[k]);
            proof {
                assert(all.take(k as int + 1) =~= all.take(k as int).push(entry));
                all.take(k as int).lemma_filter_push(entry, is_left());
            }
            if table[k] > 0 {
                rest.push(entry);
            }
            k += 1;
        }
        proof {
            assert(all.take(64) =~= all);
        }
        if rest.len() == 0 {
            SetShape::Complete
        } else {
            SetShape::Wanting { rest, doubled: cat == 0 || (self.jing.0 / 12) as usize == cat }
        }
    }
}

/// Whether `index` is where the lowest score stands first.
pub open spec fn is_first_min(scores: Seq<usize>, index: int) -> bool {
    &&& 0 <= index < scores.len()
    &&& forall|j: int| 0 <= j < scores.len() ==> scores[index] <= scores[j]
    &&& forall|j: int| 0 <= j < index ==> scores[index] < scores[j]
}

/// Finds where the lowest score stands first.
pub fn first_minimum(scores: &Vec<usize>) -> (index: usize)
    requires
        scores@.len() > 0,
    ensures
        is_first_min(scores@, index as int),
{
    let mut index: usize = 0;
    let mut i: usize = 1;
    while i < scores.len()
        invariant
            1 <= i <= scores@.len(),
            index < i,
            forall|j: int| 0 <= j < i ==> scores@[index as int] <= scores@[j],
            forall|j: int| 0 <= j < index ==> scores@[index as int] < scores@[j],
        decreases scores@.len() - i,
    {
        if scores[i] < scores[index] {
            index = i;
        }
        i += 1;
    }
    index
}

/// An appraiser says of a group of tiles what it is worth to a seat, as a whole number: the
/// lower, the sooner a tile of the group is given away. Its scores are made of chances,
/// which are worked out in floating point by whoever hands the appraiser in; here only their
/// order counts. This is whether the appraiser can be asked about every seat and every
/// group.
pub open spec fn appraises_all<F: Fn(&Agent, &Vec<Card>) -> usize>(appraise: &F) -> bool {
    forall|seat: &Agent, group: &Vec<Card>| call_requires(appraise, (seat, group))
}

/// Whether `score` is what the appraiser may say of the tiles for the seat.
pub open spec fn appraised<F: Fn(&Agent, &Vec<Card>) -> usize>(
    appraise: &F,
    seat: &Agent,
    tiles: Seq<Card>,
    score: usize,
) -> bool {
    exists|group: Vec<Card>| #[trigger] group@ == tiles
        && call_ensures(appraise, (seat, &group), score)
}

/// Whether `worst` is the tile of the group whose loss the appraiser minds least: with
/// `scores[i]` what it says of the group without its tile at `i`, the tile where the lowest
/// score stands first.
pub open spec fn is_worst_of<F: Fn(&Agent, &Vec<Card>) -> usize>(
    appraise: &F,
    seat: &Agent,
    group: Seq<Card>,
    worst: Card,
) -> bool {
    exists|scores: Seq<usize>, index: int|
        {
            &&& scores.len() == group.len()
            &&& #[trigger] is_first_min(scores, index)
            &&& worst == group[index]
            &&& forall|i: int|
                0 <= i < group.len()
                    ==> appraised(appraise, seat, group.remove(i), #[trigger] scores[i])
        }
}

/// Whether `index` is the discard that the appraiser leads to: with `scores[i]` what it says
/// of the hand's group at `i`, the worst tile of the group where the lowest score stands
/// first, at its first place in the hand.
pub open spec fn is_heuristic_discard<F: Fn(&Agent, &Vec<Card>) -> usize>(
    appraise: &F,
    seat: &Agent,
    index: int,
) -> bool {
    &&& 0 <= index < seat.hand@.len()
    &&& forall|i: int| 0 <= i < index ==> seat.hand@[i] != seat.hand@[index]
    &&& exists|scores: Seq<usize>, chosen: int|
        {
            &&& scores.len() == groups_of(seat.hand@).len()
            &&& #[trigger] is_first_min(scores, chosen)
            &&& is_worst_of(appraise, seat, groups_of(seat.hand@)[chosen], seat.hand@[index])
            &&& forall|i: int|
                0 <= i < scores.len() ==> appraised(
                    appraise,
                    seat,
                    groups_of(seat.hand@)[i],
                    #[trigger] scores[i],
                )
        }
}

impl Agent {
    /// Picks the tile of a group whose loss the appraiser minds least.
    pub fn select_worst_one_from_group<F: Fn(&Agent, &Vec<Card>) -> usize>(
        &self,
        group: &Vec<Card>,
        appraise: &F,
    ) -> (worst: Card)
        requires
            group@.len() > 0,
            appraises_all(appraise),
        ensures
            is_worst_of(appraise, self, group@, worst),
    {
        let mut scores: Vec<usize> = Vec::new();
        let mut i: usize = 0;
        while i < group.len()
            invariant
                i <= group@.len(),
                scores@.len() == i,
                appraises_all(appraise),
                forall|j: int|
                    0 <= j < i
                        ==> appraised(appraise, self, group@.remove(j), #[trigger] scores@[j]),
            decreases group@.len() - i,
        {
            let mut rest = group.clone();
            assert(rest@ =~= group@);
            rest.remove(i);
            let score = appraise(self, &rest);
            assert(rest@ == group@.remove(i as int)
                && call_ensures(appraise, (self, &rest), score));
            scores.push(score);
            i += 1;
        }
        let index = first_minimum(&scores);
        assert(is_first_min(scores@, index as int));
        group[index]
    }

    /// Picks the discard by the appraiser: of the group it thinks least of, the tile whose
    /// loss it minds least. The answer is the first place of that tile in the hand.
    pub fn choose_discard_card<F: Fn(&Agent, &Vec<Card>) -> usize>(&self, appraise: &F) -> (index:
        usize)
        requires
            groups_of(self.hand@).len() > 0,
            appraises_all(appraise),
        ensures
            is_heuristic_discard(appraise, self, index as int),
    {
        let groups = divide_into_group(&self.hand);
        let mut scores: Vec<usize> = Vec::new();
        let mut i: usize = 0;
        while i < groups.len()
            invariant
                i <= groups@.len(),
                scores@.len() == i,
                appraises_all(appraise),
                groups@.len() == groups_of(self.hand@).len(),
                forall|j: int|
                    0 <= j < groups@.len() ==> (#[trigger] groups@[j])@ == groups_of(
                        self.hand@,
                    )[j],
                forall|j: int|
                    0 <= j < i ==> appraised(
                        appraise,
                        self,
                        groups_of(self.hand@)[j],
                        #[trigger] scores@[j],
                    ),
            decreases groups@.len() - i,
        {
            let score = appraise(self, &groups[i]);
            assert(groups@[i as int]@ == groups_of(self.hand@)[i as int] && call_ensures(
                appraise,
                (self, &groups@[i as int]),
                score,
            ));
            scores.push(score);
            i += 1;
        }
        let chosen = first_minimum(&scores);
        assert(is_first_min(scores@, chosen as int));
        proof {
            broadcast use vstd::seq_lib::group_filter_ensures;
            assert(is_nonempty()(groups_of(self.hand@)[chosen as int]));
        }
        let worst = self.select_worst_one_from_group(&groups[chosen], appraise);
        proof {
            let group = groups_of(self.hand@)[chosen as int];
            let (tile_scores, at) = choose|tile_scores: Seq<usize>, at: int|
                {
                    &&& tile_scores.len() == group.len()
                    &&& #[trigger] is_first_min(tile_scores, at)
                    &&& worst == group[at]
                    &&& forall|i: int|
                        0 <= i < group.len() ==> appraised(
                            appraise,
                            self,
                            group.remove(i),
                            #[trigger] tile_scores[i],
                        )
                };
            lemma_groups_held(self.hand@, chosen as int, at);
        }
        let mut index: usize = 0;
        while index < self.hand.len() && self.hand[index].0 != worst.0
            invariant
                index <= self.hand@.len(),
                self.hand@.contains(worst),
                forall|j: int| 0 <= j < index ==> self.hand@[j] != worst,
            decreases self.hand@.len() - index,
        {
            index += 1;
        }
        index
    }
}

} // verus!
