//! One betting round: a fixed close time, five outcome bins, a pool of
//! accepted stakes, and the outcome once revealed.

use vstd::prelude::*;

use crate::payout::MAX_POOL_AMOUNT;

verus! {

broadcast use vstd::array::group_array_axioms;

/// The number of outcome bins of every round.
pub const BIN_COUNT: u32 = 5;

/// The `winning_bin` value of a round that has not been finalized.
pub const NO_WINNING_BIN: u32 = 99;

/// One prediction round.
#[derive(Clone, Copy, Debug, PartialEq, Eq)]
pub struct Round {
    /// The caller-assigned round identifier.
    pub id: u32,
    /// The absolute time after which betting is closed.
    pub end_time: u64,
    /// The sum of all accepted stakes, over all bins.
    pub total_pool: i128,
    /// The accepted stake per outcome bin; the index is the bin id.
    pub bin_totals: [i128; 5],
    /// Whether the outcome has been revealed; moves once from false to true.
    pub finalized: bool,
    /// The winning bin once finalized; `NO_WINNING_BIN` before that.
    pub winning_bin: u32,
}

/// The sum of the five bin totals.
pub open spec fn pool_sum(bins: Seq<i128>) -> int
    recommends
        bins.len() == 5,
{
    bins[0] + bins[1] + bins[2] + bins[3] + bins[4]
}

impl Round {
    /// A consistent round: non-negative bin totals that add up to the
    /// pool, a bounded pool, and a winning bin exactly when finalized.
    pub open spec fn wf(self) -> bool {
        &&& forall|i: int| 0 <= i < 5 ==> self.bin_totals@[i] >= 0
        &&& self.total_pool == pool_sum(self.bin_totals@)
        &&& self.total_pool <= MAX_POOL_AMOUNT
        &&& if self.finalized {
            self.winning_bin < BIN_COUNT
        } else {
            self.winning_bin == NO_WINNING_BIN
        }
    }

    /// A fresh, empty, open round.
    pub fn new(id: u32, end_time: u64) -> (r: Round)
        ensures
            r.wf(),
            r.id == id,
            r.end_time == end_time,
            r.total_pool == 0,
            forall|i: int| 0 <= i < 5 ==> r.bin_totals@[i] == 0,
            !r.finalized,
            r.winning_bin == NO_WINNING_BIN,
    {
        Round {
            id,
            end_time,
            total_pool: 0,
            bin_totals: [0, 0, 0, 0, 0],
            finalized: false,
            winning_bin: NO_WINNING_BIN,
        }
    }
}

} // verus!
