//! The belief of a seat: how many copies of each kind it takes to be unseen.

use vstd::prelude::*;
use crate::agent::Agent;
use crate::tally::copies;
use crate::tally::lemma_melded_bound;
use crate::tally::meld_tally;
use crate::tally::melded;
use crate::tally::tally;

verus! {

/// Sum of the first `kinds` entries of a belief table.
pub open spec fn table_sum(table: Seq<u8>, kinds: int) -> nat
    decreases kinds,
{
    if kinds <= 0 {
        0
    } else {
        table_sum(table, kinds - 1) + table[kinds - 1] as nat
    }
}

/// The sum of the first entries depends on those entries alone.
pub proof fn lemma_table_sum_agrees(a: Seq<u8>, b: Seq<u8>, kinds: int)
    requires
        forall|kind: int| 0 <= kind < kinds ==> a[kind] == b[kind],
    ensures
        table_sum(a, kinds) == table_sum(b, kinds),
    decreases kinds,
{
    if kinds > 0 {
        lemma_table_sum_agrees(a, b, kinds - 1);
    }
}

impl Agent {
    /// How many copies of a kind the seat can see: in its hand, in the three discard piles and
    /// in the melds of the three seats.
    pub open spec fn seen(&self, kind: int) -> nat {
        copies(self.hand@, kind) + copies(self.out@, kind) + copies(self.player_left_out@, kind)
            + copies(self.player_right_out@, kind) + melded(self.pairing@, kind) + melded(
            self.player_left_pairing@,
            kind,
        ) + melded(self.player_right_pairing@, kind)
    }

    /// No kind shows more than its four copies.
    pub open spec fn accountable(&self) -> bool {
        forall|kind: int| 0 <= kind < 24 ==> self.seen(kind) <= 4
    }

    /// The belief is that of what the seat sees now: four less the copies seen, kind by kind,
    /// and their sum.
    #[verifier::opaque]
    pub open spec fn informed(&self) -> bool {
        &&& forall|kind: int| 0 <= kind < 24 ==> self.prob@[kind] == 4 - self.seen(kind)
        &&& self.remaining == table_sum(self.prob@, 24)
    }

    /// For each of the 64 kinds, how many copies the seat can see.
    fn seen_table(&self) -> (table: [u128; 64])
        ensures
            forall|kind: int| 0 <= kind < 64 ==> table@[kind] == self.seen(kind),
    {
        let hand = tally(&self.hand);
        let out = tally(&self.out);
        let left = tally(&self.player_left_out);
        let right = tally(&self.player_right_out);
        let own = meld_tally(&self.pairing);
        let left_melds = meld_tally(&self.player_left_pairing);
        let right_melds = meld_tally(&self.player_right_pairing);
        let mut table = [0u128; 64];
        let mut k: usize = 0;
        let own_len = self.pairing.len();
        let left_len = self.player_left_pairing.len();
        let right_len = self.player_right_pairing.len();
        while k < 64
            invariant
                k <= 64,
                self.pairing@.len() <= usize::MAX,
                self.player_left_pairing@.len() <= usize::MAX,
                self.player_right_pairing@.len() <= usize::MAX,
                forall|kind: int| 0 <= kind < 64 ==> hand@[kind] == copies(self.hand@, kind),
                forall|kind: int| 0 <= kind < 64 ==> out@[kind] == copies(self.out@, kind),
                forall|kind: int|
                    0 <= kind < 64 ==> left@[kind] == copies(self.player_left_out@, kind),
                forall|kind: int|
                    0 <= kind < 64 ==> right@[kind] == copies(self.player_right_out@, kind),
                forall|kind: int| 0 <= kind < 64 ==> own@[kind] == melded(self.pairing@, kind),
                forall|kind: int|
                    0 <= kind < 64 ==> left_melds@[kind] == melded(
                        self.player_left_pairing@,
                        kind,
                    ),
                forall|kind: int|
                    0 <= kind < 64 ==> right_melds@[kind] == melded(
                        self.player_right_pairing@,
                        kind,
                    ),
                forall|kind: int| 0 <= kind < k ==> table@[kind] == self.seen(kind),
            decreases 64 - k,
        {
            proof {
                lemma_melded_bound(self.pairing@, k as int);
                lemma_melded_bound(self.player_left_pairing@, k as int);
                lemma_melded_bound(self.player_right_pairing@, k as int);
            }
            table[k] = hand[k] as u128 + out[k] as u128 + left[k] as u128 + right[k] as u128
                + own[k] + left_melds[k] + right_melds[k];
            k += 1;
        }
        table
    }

    /// Whether no kind shows more than its four copies.
    pub fn is_accountable(&self) -> (yes: bool)
        ensures
            yes == self.accountable(),
    {
        let table = self.seen_table();
        let mut k: usize = 0;
        while k < 24
            invariant
                k <= 24,
                forall|kind: int| 0 <= kind < 64 ==> table@[kind] == self.seen(kind),
                forall|kind: int| 0 <= kind < k ==> self.seen(kind) <= 4,
            decreases 24 - k,
        {
            if table[k] > 4 {
                assert(self.seen(k as int) > 4);
                return false;
            }
            k += 1;
        }
        true
    }

    /// Works the belief out anew from what the seat sees: of each kind, the four copies less
    /// those in its hand, in the discard piles and in the melds.
    pub fn update_probability(&mut self)
        requires
            old(self).accountable(),
        ensures
            final(self).same_table(old(self)),
            final(self).waiting() == old(self).waiting(),
            final(self).informed(),
            final(self).accountable(),
    {
        let table = self.seen_table();
        let mut prob = [0u8; 24];
        let mut total: u8 = 0;
        let mut k: usize = 0;
        while k < 24
            invariant
                k <= 24,
                self.accountable(),
                forall|kind: int| 0 <= kind < 64 ==> table@[kind] == self.seen(kind),
                forall|kind: int| 0 <= kind < k ==> prob@[kind] == 4 - self.seen(kind),
                total == table_sum(prob@, k as int),
                total <= 4 * k,
            decreases 24 - k,
        {
            let unseen: u8 = (4 - table[k]) as u8;
            let ghost before = prob@;
            prob[k] = unseen;
            proof {
                lemma_table_sum_agrees(before, prob@, k as int);
            }
            total = total + unseen;
            k += 1;
        }
        self.prob = prob;
        self.remaining = total;
        assert forall|kind: int| 0 <= kind < 24 implies self.seen(kind) == old(self).seen(
            kind,
        ) by {}
        reveal(Agent::informed);
    }
}

} // verus!
