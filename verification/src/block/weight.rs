//! # Block Weights
//!
//! This module contains calculations for block weights, including calculating block weight
//! limits, effective medians and long term block weights.
//!
//! The formulas are stated over mathematical integers. The executable code
//! works in `usize` and widens where a product could leave it, so that every
//! result is the exact value of its formula.

use std::collections::VecDeque;

use vstd::math::{max, min};
use vstd::prelude::*;
use vstd::seq_lib::{to_multiset_build, to_multiset_remove};

use crate::block::sorted::{
    insert, is_sorted, lemma_remove_value, lemma_sort, lemma_sort_by_items, lemma_sorted_eq,
    remove, search, sort, sorted_copy,
};
use crate::hardforks::HardFork;

verus! {

pub const PENALTY_FREE_ZONE_1: usize = 20000;

pub const PENALTY_FREE_ZONE_2: usize = 60000;

pub const PENALTY_FREE_ZONE_5: usize = 300000;

/// The number of blocks in the short-term window.
pub const SHORT_TERM_WINDOW: u64 = 100;

/// The number of blocks in the long-term window.
pub const LONG_TERM_WINDOW: u64 = 100000;

/// The two weights that the chain records of a block.
#[derive(Debug)]
pub struct BlockWeightInfo {
    pub block_weight: usize,
    pub long_term_weight: usize,
}

/// The sum of the weights in `weights`.
pub open spec fn total_weight(weights: Seq<usize>) -> nat
    decreases weights.len(),
{
    if weights.len() == 0 {
        0
    } else {
        total_weight(weights.drop_last()) + weights.last() as nat
    }
}

/// The sum of a prefix is no more than the sum of the whole.
proof fn lemma_total_weight_prefix(weights: Seq<usize>, n: int)
    requires
        0 <= n <= weights.len(),
    ensures
        total_weight(weights.take(n)) <= total_weight(weights),
    decreases weights.len(),
{
    if n == weights.len() {
        assert(weights.take(n) == weights);
    } else {
        lemma_total_weight_prefix(weights.drop_last(), n);
        assert(weights.drop_last().take(n) == weights.take(n));
    }
}

/// Calculates the blocks weight: the weight of its miner transaction and of
/// all its other transactions together.
pub fn block_weight(miner_tx_weight: usize, tx_weights: &[usize]) -> (weight: usize)
    requires
        miner_tx_weight + total_weight(tx_weights@) <= usize::MAX,
    ensures
        weight == miner_tx_weight + total_weight(tx_weights@),
{
    let mut sum: usize = 0;
    let mut i: usize = 0;
    while i < tx_weights.len()
        invariant
            i <= tx_weights.len(),
            sum == total_weight(tx_weights@.take(i as int)),
            miner_tx_weight + total_weight(tx_weights@) <= usize::MAX,
        decreases tx_weights.len() - i,
    {
        proof {
            lemma_total_weight_prefix(tx_weights@, i + 1);
            assert(tx_weights@.take(i + 1).drop_last() == tx_weights@.take(i as int));
        }
        sum = sum + tx_weights[i];
        i = i + 1;
    }
    proof {
        assert(tx_weights@.take(i as int) == tx_weights@);
    }
    sum + miner_tx_weight
}

/// The penalty free zone of a fork: blocks below this weight pay no penalty.
pub open spec fn penalty_free_zone_of(hf: HardFork) -> int {
    if hf.number() == 1 {
        PENALTY_FREE_ZONE_1 as int
    } else if hf.number() < 5 {
        PENALTY_FREE_ZONE_2 as int
    } else {
        PENALTY_FREE_ZONE_5 as int
    }
}

/// Returns the penalty free zone
pub fn penalty_free_zone(hf: &HardFork) -> (zone: usize)
    ensures
        zone == penalty_free_zone_of(*hf),
{
    if *hf == HardFork::V1 {
        PENALTY_FREE_ZONE_1
    } else if hf.in_range(&HardFork::V2, &HardFork::V5) {
        PENALTY_FREE_ZONE_2
    } else {
        PENALTY_FREE_ZONE_5
    }
}

/// The midpoint of two weights, rounded down.
pub open spec fn mid(a: int, b: int) -> int {
    (a + b) / 2
}

/// The median of a window of weights, which is meant to be sorted and not
/// empty: the middle item, or the midpoint of the two middle items.
pub open spec fn median_of(window: Seq<usize>) -> int {
    let n = window.len() as int;
    if n % 2 == 0 {
        mid(window[n / 2 - 1] as int, window[n / 2] as int)
    } else {
        window[n / 2] as int
    }
}

/// The effective median weight at fork `hf`, from the sorted short-term
/// window and the sorted long-term window.
pub open spec fn effective_median_of(
    hf: HardFork,
    short_term: Seq<usize>,
    long_term: Seq<usize>,
) -> int {
    let short_term_median = median_of(short_term);
    if hf.number() < 10 {
        short_term_median
    } else {
        let long_term_median = max(median_of(long_term), PENALTY_FREE_ZONE_5 as int);
        let floor = if hf.number() < 15 {
            PENALTY_FREE_ZONE_5 as int
        } else {
            long_term_median
        };
        max(min(max(floor, short_term_median), 50 * long_term_median), penalty_free_zone_of(hf))
    }
}

/// The long-term weight at fork `hf` of a block of weight `block_weight`
/// that follows the blocks of the sorted long-term window.
pub open spec fn long_term_weight_of(
    hf: HardFork,
    block_weight: int,
    long_term: Seq<usize>,
) -> int {
    if hf.number() < 10 {
        block_weight
    } else {
        let long_term_median = max(penalty_free_zone_of(hf), median_of(long_term));
        if hf.number() < 15 {
            min(long_term_median + long_term_median * 2 / 5, block_weight)
        } else {
            min(
                long_term_median + long_term_median * 7 / 10,
                max(block_weight, long_term_median * 10 / 17),
            )
        }
    }
}

fn larger(a: usize, b: usize) -> (m: usize)
    ensures
        m == max(a as int, b as int),
{
    if a >= b {
        a
    } else {
        b
    }
}

/// The effective median weight from the two sorted windows.
pub fn calculate_effective_median_block_weight(
    hf: &HardFork,
    sorted_short_term_window: &[usize],
    sorted_long_term_window: &[usize],
) -> (median_weight: usize)
    requires
        sorted_short_term_window@.len() > 0,
        hf.number() >= 10 ==> sorted_long_term_window@.len() > 0,
    ensures
        median_weight == effective_median_of(
            *hf,
            sorted_short_term_window@,
            sorted_long_term_window@,
        ),
{
    if hf.in_range(&HardFork::V1, &HardFork::V10) {
        return median(sorted_short_term_window);
    }
    let long_term_median = larger(median(sorted_long_term_window), PENALTY_FREE_ZONE_5);
    let short_term_median = median(sorted_short_term_window);
    let floor = if hf.in_range(&HardFork::V10, &HardFork::V15) {
        PENALTY_FREE_ZONE_5
    } else {
        long_term_median
    };
    let raised = larger(floor, short_term_median);
    let cap: u128 = 50 * (long_term_median as u128);
    let effective_median: usize = if raised as u128 <= cap {
        raised
    } else {
        cap as usize
    };
    larger(effective_median, penalty_free_zone(hf))
}

/// The long-term weight of a block of weight `block_weight` from the sorted
/// long-term window.
pub fn calculate_block_long_term_weight(
    hf: &HardFork,
    block_weight: usize,
    sorted_long_term_window: &[usize],
) -> (weight: usize)
    requires
        hf.number() >= 10 ==> sorted_long_term_window@.len() > 0,
    ensures
        weight == long_term_weight_of(*hf, block_weight as int, sorted_long_term_window@),
{
    if hf.in_range(&HardFork::V1, &HardFork::V10) {
        return block_weight;
    }
    let long_term_median: u128 = larger(
        penalty_free_zone(hf),
        median(sorted_long_term_window),
    ) as u128;
    let (short_term_constraint, adjusted_block_weight): (u128, usize) = if hf.in_range(
        &HardFork::V10,
        &HardFork::V15,
    ) {
        let stc: u128 = long_term_median + long_term_median * 2 / 5;
        (stc, block_weight)
    } else {
        let stc: u128 = long_term_median + long_term_median * 7 / 10;
        (stc, larger(block_weight, (long_term_median * 10 / 17) as usize))
    };
    if short_term_constraint <= adjusted_block_weight as u128 {
        short_term_constraint as usize
    } else {
        adjusted_block_weight
    }
}

/// The midpoint of `a` and `b`, rounded down, with no sum that could
/// overflow.
pub fn get_mid(a: usize, b: usize) -> (m: usize)
    ensures
        m == mid(a as int, b as int),
        a <= b ==> a <= m <= b,
        b <= a ==> b <= m <= a,
{
    (a / 2) + (b / 2) + ((a - 2 * (a / 2)) + (b - 2 * (b / 2))) / 2
}

/// The median of a window that is not empty. On a sorted window it lies
/// between the two middle items.
pub fn median(array: &[usize]) -> (m: usize)
    requires
        array@.len() > 0,
    ensures
        m == median_of(array@),
        is_sorted(array@) ==> array@[(array@.len() - 1) / 2] <= m <= array@[array@.len() as int
            / 2],
{
    let mid = array.len() / 2;

    if array.len() == 1 {
        return array[0];
    }
    if array.len() % 2 == 0 {
        get_mid(array[mid - 1], array[mid])
    } else {
        array[mid]
    }
}

/// The last `n` items of `s`, or all of `s` where it has fewer.
pub open spec fn tail<T>(s: Seq<T>, n: int) -> Seq<T> {
    s.subrange(max(0, s.len() - n), s.len() as int)
}

/// The block weights of `infos`, in the same order.
pub open spec fn block_weights(infos: Seq<BlockWeightInfo>) -> Seq<usize> {
    infos.map_values(|info: BlockWeightInfo| info.block_weight)
}

/// The long-term weights of `infos`, in the same order.
pub open spec fn long_term_weights(infos: Seq<BlockWeightInfo>) -> Seq<usize> {
    infos.map_values(|info: BlockWeightInfo| info.long_term_weight)
}

/// What a [`BlockWeightsCache`] holds.
pub struct WeightWindows {
    /// The block weights of the last blocks, oldest first.
    pub short_term: Seq<usize>,
    /// The long-term weights of the last blocks, in ascending order.
    pub long_term: Seq<usize>,
    /// The height of the top block, or -1 before the first block.
    pub tip_height: int,
}

impl WeightWindows {
    /// The windows are sorted and sized as the height of the tip asks: each
    /// holds one item for each of the last blocks, up to its limit.
    pub open spec fn wf(self) -> bool {
        &&& -1 <= self.tip_height < u64::MAX
        &&& self.short_term.len() == min(self.tip_height + 1, SHORT_TERM_WINDOW as int)
        &&& self.long_term.len() == min(self.tip_height + 1, LONG_TERM_WINDOW as int)
        &&& is_sorted(self.long_term)
    }

    /// The windows of a chain of `chain_height` blocks, the last of which
    /// have the weights in `weights`.
    pub open spec fn init(chain_height: int, weights: Seq<BlockWeightInfo>) -> WeightWindows {
        WeightWindows {
            short_term: block_weights(tail(weights, SHORT_TERM_WINDOW as int)),
            long_term: sort(long_term_weights(weights)),
            tip_height: chain_height - 1,
        }
    }

    /// The windows after one more block: its weights enter, and what has
    /// left the windows goes. `leaving` is the long-term weight of the block
    /// that leaves the long-term window, if one does.
    pub open spec fn new_block_added(
        self,
        block_weight: usize,
        long_term_weight: usize,
        leaving: Option<usize>,
    ) -> WeightWindows {
        let grown = sort(self.long_term.push(long_term_weight));
        let pushed = self.short_term.push(block_weight);
        WeightWindows {
            short_term: if pushed.len() > SHORT_TERM_WINDOW {
                pushed.drop_first()
            } else {
                pushed
            },
            long_term: match leaving {
                Some(weight) => grown.remove_value(weight),
                None => grown,
            },
            tip_height: self.tip_height + 1,
        }
    }
}

/// A cache used to calculate block weight limits, the effective median and
/// long term block weights.
///
/// These calculations require a lot of data from the database so by caching
/// this data it reduces the load on the database.
#[derive(Clone)]
pub struct BlockWeightsCache {
    /// This list is not sorted.
    short_term_block_weights: VecDeque<usize>,
    /// This list is sorted.
    long_term_weights: Vec<usize>,
    /// The number of blocks seen: one more than the height of the top block.
    chain_height: u64,
}

impl View for BlockWeightsCache {
    type V = WeightWindows;

    closed spec fn view(&self) -> WeightWindows {
        WeightWindows {
            short_term: self.short_term_block_weights@,
            long_term: self.long_term_weights@,
            tip_height: self.chain_height - 1,
        }
    }
}

/// The block weights of the last `SHORT_TERM_WINDOW` of `weights`, in chain
/// order.
fn get_blocks_weight_in_range(weights: &Vec<BlockWeightInfo>) -> (window: VecDeque<usize>)
    ensures
        window@ == block_weights(tail(weights@, SHORT_TERM_WINDOW as int)),
{
    let len = weights.len();
    let start: usize = if len > SHORT_TERM_WINDOW as usize {
        len - SHORT_TERM_WINDOW as usize
    } else {
        0
    };
    let mut window: VecDeque<usize> = VecDeque::new();
    let mut i: usize = start;
    while i < len
        invariant
            start <= i <= len,
            len == weights.len(),
            start == max(0, len - SHORT_TERM_WINDOW),
            window@ == block_weights(weights@.subrange(start as int, i as int)),
        decreases len - i,
    {
        window.push_back(weights[i].block_weight);
        i = i + 1;
    }
    window
}

/// The long-term weights of `weights`, in chain order.
fn get_long_term_weight_in_range(weights: &Vec<BlockWeightInfo>) -> (list: Vec<usize>)
    ensures
        list@ == long_term_weights(weights@),
{
    let mut list: Vec<usize> = Vec::new();
    let mut i: usize = 0;
    while i < weights.len()
        invariant
            i <= weights.len(),
            list@ == long_term_weights(weights@.take(i as int)),
        decreases weights.len() - i,
    {
        list.push(weights[i].long_term_weight);
        i = i + 1;
    }
    proof {
        assert(weights@.take(i as int) == weights@);
    }
    list
}

impl BlockWeightsCache {
    /// The cache is sound: see [`WeightWindows::wf`].
    pub open spec fn wf(&self) -> bool {
        self@.wf()
    }

    /// The first height of the long-term window of a chain of `chain_height`
    /// blocks. The window ends before `chain_height`.
    pub fn long_term_window_start(chain_height: u64) -> (start: u64)
        ensures
            start == max(0, chain_height - LONG_TERM_WINDOW),
    {
        chain_height.saturating_sub(LONG_TERM_WINDOW)
    }

    /// The height of the block that leaves the long-term window when the
    /// block at `block_height` enters it, if one does.
    pub fn height_leaving_window(block_height: u64) -> (leaving: Option<u64>)
        ensures
            block_height < LONG_TERM_WINDOW ==> leaving is None,
            block_height >= LONG_TERM_WINDOW ==> leaving == Some(
                (block_height - LONG_TERM_WINDOW) as u64,
            ),
    {
        block_height.checked_sub(LONG_TERM_WINDOW)
    }

    /// Initialize the [`BlockWeightsCache`] at the given chain height, from
    /// the weights of the blocks of the long-term window, oldest first.
    pub fn init_from_chain_height(chain_height: u64, weights: Vec<BlockWeightInfo>) -> (cache:
        BlockWeightsCache)
        requires
            weights@.len() == min(chain_height as int, LONG_TERM_WINDOW as int),
        ensures
            cache@ == WeightWindows::init(chain_height as int, weights@),
            cache.wf(),
    {
        let listed = get_long_term_weight_in_range(&weights);
        let long_term_weights = sorted_copy(&listed);
        let short_term_block_weights = get_blocks_weight_in_range(&weights);
        proof {
            lemma_sort(listed@);
        }
        BlockWeightsCache { short_term_block_weights, long_term_weights, chain_height }
    }

    /// The number of blocks that the cache has seen: the height of the next
    /// block.
    pub fn chain_height(&self) -> (height: u64)
        ensures
            height == self@.tip_height + 1,
    {
        self.chain_height
    }

    /// The block weights in the short-term window, oldest first.
    pub fn short_term_block_weights(&self) -> (weights: Vec<usize>)
        ensures
            weights@ == self@.short_term,
    {
        let mut weights: Vec<usize> = Vec::new();
        let mut i: usize = 0;
        while i < self.short_term_block_weights.len()
            invariant
                i <= self.short_term_block_weights@.len(),
                weights@ == self.short_term_block_weights@.take(i as int),
            decreases self.short_term_block_weights@.len() - i,
        {
            weights.push(self.short_term_block_weights[i]);
            i = i + 1;
        }
        proof {
            assert(self.short_term_block_weights@.take(i as int) == self.short_term_block_weights@);
        }
        weights
    }

    /// The long-term weights in the long-term window, in ascending order.
    pub fn long_term_weights(&self) -> (weights: Vec<usize>)
        ensures
            weights@ == self@.long_term,
    {
        let mut weights: Vec<usize> = Vec::new();
        let mut i: usize = 0;
        while i < self.long_term_weights.len()
            invariant
                i <= self.long_term_weights@.len(),
                weights@ == self.long_term_weights@.take(i as int),
            decreases self.long_term_weights@.len() - i,
        {
            weights.push(self.long_term_weights[i]);
            i = i + 1;
        }
        proof {
            assert(self.long_term_weights@.take(i as int) == self.long_term_weights@);
        }
        weights
    }

    /// Whether the long-term window holds `weight`.
    pub fn holds_long_term_weight(&self, weight: usize) -> (held: bool)
        requires
            self.wf(),
        ensures
            held == self@.long_term.contains(weight),
    {
        let idx = search(&self.long_term_weights, weight);
        idx < self.long_term_weights.len() && self.long_term_weights[idx] == weight
    }

    /// Add a new block to the cache.
    ///
    /// The block_height **MUST** be one more than the last height the cache has
    /// seen. `leaving` holds the weights of the block that leaves the
    /// long-term window, at the height that [`Self::height_leaving_window`]
    /// gives.
    pub fn new_block_added(
        &mut self,
        block_height: u64,
        block_weight: usize,
        long_term_weight: usize,
        leaving: Option<BlockWeightInfo>,
    )
        requires
            old(self).wf(),
            block_height == old(self)@.tip_height + 1,
            block_height < u64::MAX,
            leaving is Some <==> block_height >= LONG_TERM_WINDOW,
            leaving matches Some(info) ==> old(self)@.long_term.push(long_term_weight).contains(
                info.long_term_weight,
            ),
        ensures
            final(self)@ == old(self)@.new_block_added(
                block_weight,
                long_term_weight,
                match leaving {
                    Some(info) => Some(info.long_term_weight),
                    None => None,
                },
            ),
            final(self).wf(),
            final(self)@.tip_height == block_height,
            final(self)@.short_term.len() <= SHORT_TERM_WINDOW,
            final(self)@.long_term.len() <= LONG_TERM_WINDOW,
            is_sorted(final(self)@.long_term),
    {
        self.chain_height = self.chain_height + 1;

        insert(&mut self.long_term_weights, long_term_weight);
        proof {
            lemma_sort(old(self)@.long_term.push(long_term_weight));
        }

        if let Some(info) = leaving {
            proof {
                let grown = self.long_term_weights@;
                let pushed = old(self)@.long_term.push(long_term_weight);
                grown.to_multiset_ensures();
                pushed.to_multiset_ensures();
                assert(pushed.to_multiset().count(info.long_term_weight) > 0);
                assert(grown.to_multiset().count(info.long_term_weight) > 0);
                grown.index_of_first_ensures(info.long_term_weight);
            }
            remove(&mut self.long_term_weights, info.long_term_weight);
        }
        self.short_term_block_weights.push_back(block_weight);
        if self.short_term_block_weights.len() > SHORT_TERM_WINDOW as usize {
            let _ = self.short_term_block_weights.pop_front();
        }
    }

    /// Returns the next blocks long term weight.
    pub fn next_block_long_term_weight(&self, hf: &HardFork, block_weight: usize) -> (weight: usize)
        requires
            self.wf(),
            hf.number() >= 10 ==> self@.tip_height >= 0,
        ensures
            weight == long_term_weight_of(*hf, block_weight as int, self@.long_term),
    {
        calculate_block_long_term_weight(hf, block_weight, self.long_term_weights.as_slice())
    }

    /// Returns the effective median weight, used for block reward calculations and to calculate
    /// the block weight limit.
    pub fn effective_median_block_weight(&self, hf: &HardFork) -> (median_weight: usize)
        requires
            self.wf(),
            self@.tip_height >= 0,
        ensures
            median_weight == effective_median_of(*hf, sort(self@.short_term), self@.long_term),
    {
        let short_term_weights = self.short_term_block_weights();
        let sorted_short_term_weights = sorted_copy(&short_term_weights);
        proof {
            lemma_sort(self@.short_term);
        }
        calculate_effective_median_block_weight(
            hf,
            sorted_short_term_weights.as_slice(),
            self.long_term_weights.as_slice(),
        )
    }

    /// Returns the block weight limit: twice the effective median.
    pub fn next_block_weight_limit(&self, hf: &HardFork) -> (limit: usize)
        requires
            self.wf(),
            self@.tip_height >= 0,
            2 * effective_median_of(*hf, sort(self@.short_term), self@.long_term) <= usize::MAX,
        ensures
            limit == 2 * effective_median_of(*hf, sort(self@.short_term), self@.long_term),
    {
        2 * self.effective_median_block_weight(hf)
    }
}

/// The midpoint is what the overflow-free formula computes, and lies
/// between its arguments.
pub proof fn lemma_mid(a: int, b: int)
    requires
        0 <= a,
        0 <= b,
    ensures
        mid(a, b) == a / 2 + b / 2 + (a % 2 + b % 2) / 2,
        a <= b ==> a <= mid(a, b) <= b,
        mid(a, b) == mid(b, a),
{
}

/// Below fork 10 the long-term weight of a block is its weight. At fork 10
/// it is the weight capped at seven fifths of the long-term median, which is
/// raised to the penalty free zone first.
pub proof fn lemma_long_term_weight_at_fork_10(block_weight: usize, long_term: Seq<usize>)
    ensures
        long_term_weight_of(HardFork::V9, block_weight as int, long_term) == block_weight,
        ({
            let median_weight = max(PENALTY_FREE_ZONE_5 as int, median_of(long_term));
            long_term_weight_of(HardFork::V10, block_weight as int, long_term) == min(
                median_weight + median_weight * 2 / 5,
                block_weight as int,
            )
        }),
{
}

/// The weights of the blocks that are in the long-term window when `chain`
/// has grown to `height` blocks.
pub open spec fn window_at(chain: Seq<BlockWeightInfo>, height: int) -> Seq<BlockWeightInfo> {
    chain.subrange(max(0, height - LONG_TERM_WINDOW), height)
}

/// The long-term weight that leaves the long-term window when the block at
/// `height` of `chain` enters it.
pub open spec fn leaving_at(chain: Seq<BlockWeightInfo>, height: int) -> Option<usize> {
    if height >= LONG_TERM_WINDOW {
        Some(chain[height - LONG_TERM_WINDOW].long_term_weight)
    } else {
        None
    }
}

/// The windows after the first `height` blocks of `chain` were added, one by
/// one, to the windows of an empty chain.
pub open spec fn replay(chain: Seq<BlockWeightInfo>, height: nat) -> WeightWindows
    decreases height,
{
    if height == 0 {
        WeightWindows::init(0, Seq::empty())
    } else {
        let h = height - 1;
        replay(chain, h as nat).new_block_added(
            chain[h].block_weight,
            chain[h].long_term_weight,
            leaving_at(chain, h),
        )
    }
}

/// Windows that followed the chain hold the long-term weight that leaves
/// them with the next block.
pub proof fn lemma_replay_goes_on(chain: Seq<BlockWeightInfo>, height: nat)
    requires
        height < chain.len(),
    ensures
        leaving_at(chain, height as int) matches Some(weight) ==> replay(
            chain,
            height,
        ).long_term.contains(weight),
{
    lemma_rebuild_equivalence(chain, height);
    if height >= LONG_TERM_WINDOW {
        let weights = long_term_weights(window_at(chain, height as int));
        let gone = chain[height - LONG_TERM_WINDOW].long_term_weight;
        assert(weights[0] == gone);
        lemma_sort(weights);
        weights.to_multiset_ensures();
        sort(weights).to_multiset_ensures();
        assert(weights.to_multiset().count(gone) > 0);
        assert(sort(weights).to_multiset().count(gone) > 0);
    }
}

/// After any number of blocks were added, the short-term window holds at
/// most `SHORT_TERM_WINDOW` weights, the long-term window at most
/// `LONG_TERM_WINDOW`, and the long-term window is in ascending order.
pub proof fn lemma_replay_bounds(chain: Seq<BlockWeightInfo>, height: nat)
    requires
        height <= chain.len(),
    ensures
        replay(chain, height).short_term.len() <= SHORT_TERM_WINDOW,
        replay(chain, height).long_term.len() <= LONG_TERM_WINDOW,
        is_sorted(replay(chain, height).long_term),
        replay(chain, height).tip_height == height - 1,
        height <= u64::MAX ==> replay(chain, height).wf(),
{
    lemma_rebuild_equivalence(chain, height);
    lemma_sort(long_term_weights(window_at(chain, height as int)));
}

/// Building the windows anew at a height gives the windows that adding
/// every block up to that height to the windows of an empty chain gives.
pub proof fn lemma_rebuild_equivalence(chain: Seq<BlockWeightInfo>, height: nat)
    requires
        height <= chain.len(),
    ensures
        WeightWindows::init(height as int, window_at(chain, height as int)) == replay(
            chain,
            height,
        ),
    decreases height,
{
    if height == 0 {
        assert(window_at(chain, 0) == Seq::<BlockWeightInfo>::empty());
    } else {
        let h = height - 1;
        lemma_rebuild_equivalence(chain, h as nat);
        let before = WeightWindows::init(h, window_at(chain, h));
        let after = WeightWindows::init(height as int, window_at(chain, height as int));
        let block = chain[h];
        let stepped = before.new_block_added(
            block.block_weight,
            block.long_term_weight,
            leaving_at(chain, h),
        );
        let old_window = window_at(chain, h);
        let new_window = window_at(chain, height as int);
        let old_weights = long_term_weights(old_window);
        let new_weights = long_term_weights(new_window);
        let entered = old_weights.push(block.long_term_weight);

        assert(after.short_term == stepped.short_term);

        lemma_sort(old_weights);
        lemma_sort(new_weights);
        to_multiset_build(old_weights, block.long_term_weight);
        to_multiset_build(sort(old_weights), block.long_term_weight);
        lemma_sort_by_items(sort(old_weights).push(block.long_term_weight), entered);
        let grown = sort(sort(old_weights).push(block.long_term_weight));
        assert(grown == sort(entered));
        lemma_sort(entered);
        if h >= LONG_TERM_WINDOW {
            let gone = chain[h - LONG_TERM_WINDOW].long_term_weight;
            assert(entered[0] == gone);
            assert(new_weights == entered.remove(0));
            to_multiset_remove(entered, 0);
            grown.to_multiset_ensures();
            entered.to_multiset_ensures();
            assert(entered.to_multiset().count(gone) > 0);
            assert(grown.to_multiset().count(gone) > 0);
            lemma_remove_value(grown, gone);
            lemma_sorted_eq(sort(new_weights), grown.remove_value(gone));
        } else {
            assert(new_weights == entered);
        }
        assert(after.long_term == stepped.long_term);
    }
}

} // verus!
