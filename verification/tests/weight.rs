use monero_consensus::block::weight::{
    block_weight, calculate_block_long_term_weight, calculate_effective_median_block_weight,
    get_mid, median, penalty_free_zone, BlockWeightInfo, BlockWeightsCache, LONG_TERM_WINDOW,
    PENALTY_FREE_ZONE_1, PENALTY_FREE_ZONE_2, PENALTY_FREE_ZONE_5, SHORT_TERM_WINDOW,
};
use monero_consensus::hardforks::HardFork;

const ALL_FORKS: [HardFork; 16] = [
    HardFork::V1,
    HardFork::V2,
    HardFork::V3,
    HardFork::V4,
    HardFork::V5,
    HardFork::V6,
    HardFork::V7,
    HardFork::V8,
    HardFork::V9,
    HardFork::V10,
    HardFork::V11,
    HardFork::V12,
    HardFork::V13,
    HardFork::V14,
    HardFork::V15,
    HardFork::V16,
];

/// The weights of the block at `height` of a made-up chain.
fn block_at(height: u64) -> BlockWeightInfo {
    let h = height as usize;
    BlockWeightInfo {
        block_weight: 1000 + (h * 7919) % 5000,
        long_term_weight: 500 + (h * 104729) % 3000,
    }
}

/// The weights of the blocks of the long-term window of a chain of
/// `chain_height` blocks.
fn window_of(chain_height: u64) -> Vec<BlockWeightInfo> {
    let start = chain_height.saturating_sub(LONG_TERM_WINDOW);
    (start..chain_height).map(block_at).collect()
}

fn add_block(cache: &mut BlockWeightsCache, height: u64) {
    assert_eq!(cache.chain_height(), height);
    let block = block_at(height);
    let leaving = BlockWeightsCache::height_leaving_window(height).map(block_at);
    if let Some(info) = &leaving {
        assert!(
            cache.holds_long_term_weight(info.long_term_weight)
                || info.long_term_weight == block.long_term_weight
        );
    }
    cache.new_block_added(height, block.block_weight, block.long_term_weight, leaving);
}

fn same_state(a: &BlockWeightsCache, b: &BlockWeightsCache) {
    assert_eq!(a.chain_height(), b.chain_height());
    assert_eq!(a.short_term_block_weights(), b.short_term_block_weights());
    assert_eq!(a.long_term_weights(), b.long_term_weights());
}

fn cache_with(chain_height: u64, blocks: &[(usize, usize)]) -> BlockWeightsCache {
    let weights: Vec<BlockWeightInfo> = blocks
        .iter()
        .map(|(block_weight, long_term_weight)| BlockWeightInfo {
            block_weight: *block_weight,
            long_term_weight: *long_term_weight,
        })
        .collect();
    BlockWeightsCache::init_from_chain_height(chain_height, weights)
}

#[test]
fn median_odd() {
    assert_eq!(median(&[10, 20, 30, 40, 50]), 30);
}

#[test]
fn median_even_with_overflow_safe_mid() {
    assert_eq!(median(&[usize::MAX - 1, usize::MAX]), usize::MAX - 1);
}

#[test]
fn median_of_one() {
    assert_eq!(median(&[42]), 42);
}

#[test]
fn median_even() {
    assert_eq!(median(&[10, 20, 30, 40]), 25);
    assert_eq!(median(&[1, 2]), 1);
    assert_eq!(median(&[3, 3]), 3);
}

#[test]
fn median_lies_between_middle_items() {
    let window: [usize; 6] = [1, 4, 9, 16, 25, 36];
    let m = median(&window);
    assert_eq!(m, 12);
    assert!(window[2] <= m && m <= window[3]);
}

#[test]
fn mid_is_floor_of_half_sum() {
    assert_eq!(get_mid(0, 0), 0);
    assert_eq!(get_mid(1, 1), 1);
    assert_eq!(get_mid(1, 2), 1);
    assert_eq!(get_mid(2, 1), 1);
    assert_eq!(get_mid(3, 5), 4);
    assert_eq!(get_mid(3, 4), 3);
    assert_eq!(get_mid(10, 21), 15);
    assert_eq!(get_mid(0, usize::MAX), usize::MAX / 2);
    assert_eq!(get_mid(usize::MAX, usize::MAX), usize::MAX);
    assert_eq!(get_mid(usize::MAX - 1, usize::MAX), usize::MAX - 1);
}

#[test]
fn mid_stays_between_its_arguments() {
    for (a, b) in [(0usize, 1usize), (7, 7), (7, 8), (100, 1000), (usize::MAX - 3, usize::MAX)] {
        let m = get_mid(a, b);
        assert!(a <= m && m <= b);
        assert_eq!(m as u128, (a as u128 + b as u128) / 2);
    }
}

#[test]
fn penalty_free_zone_by_fork() {
    assert_eq!(penalty_free_zone(&HardFork::V1), 20000);
    assert_eq!(penalty_free_zone(&HardFork::V2), 60000);
    assert_eq!(penalty_free_zone(&HardFork::V3), 60000);
    assert_eq!(penalty_free_zone(&HardFork::V4), 60000);
    assert_eq!(penalty_free_zone(&HardFork::V5), 300000);
    assert_eq!(penalty_free_zone(&HardFork::V10), 300000);
    assert_eq!(penalty_free_zone(&HardFork::V16), 300000);
    assert_eq!(PENALTY_FREE_ZONE_1, 20000);
    assert_eq!(PENALTY_FREE_ZONE_2, 60000);
    assert_eq!(PENALTY_FREE_ZONE_5, 300000);
}

#[test]
fn block_weight_sums_all_transactions() {
    assert_eq!(block_weight(100, &[]), 100);
    assert_eq!(block_weight(100, &[1, 2, 3]), 106);
    assert_eq!(block_weight(0, &[usize::MAX - 5, 5]), usize::MAX);
}

#[test]
fn pre_v10_effective_median() {
    let short: [usize; 3] = [1000, 2000, 3000];
    assert_eq!(
        calculate_effective_median_block_weight(&HardFork::V5, &short, &[123456]),
        2000
    );
    assert_eq!(calculate_effective_median_block_weight(&HardFork::V5, &short, &[]), 2000);
    assert_eq!(calculate_effective_median_block_weight(&HardFork::V9, &short, &[7]), 2000);
    assert_eq!(calculate_effective_median_block_weight(&HardFork::V1, &short, &[7]), 2000);

    let cache = cache_with(3, &[(3000, 1), (1000, 900000), (2000, 5)]);
    assert_eq!(cache.effective_median_block_weight(&HardFork::V5), 2000);
    assert_eq!(cache.next_block_weight_limit(&HardFork::V5), 4000);
}

#[test]
fn v15_effective_median_lower_bound() {
    assert_eq!(
        calculate_effective_median_block_weight(&HardFork::V15, &[100000], &[50000]),
        300000
    );
    assert_eq!(
        calculate_effective_median_block_weight(&HardFork::V16, &[100000], &[50000]),
        300000
    );
}

#[test]
fn v10_effective_median() {
    // min(max(300000, 400000), 50 * 350000) = 400000
    assert_eq!(
        calculate_effective_median_block_weight(&HardFork::V10, &[400000], &[350000]),
        400000
    );
    // the long-term median does not raise the result before fork 15
    assert_eq!(
        calculate_effective_median_block_weight(&HardFork::V14, &[100000], &[900000]),
        300000
    );
    // min(max(300000, 20000000), 50 * 300000) = 15000000
    assert_eq!(
        calculate_effective_median_block_weight(&HardFork::V12, &[20000000], &[1000]),
        15000000
    );
}

#[test]
fn v15_effective_median_follows_long_term_median() {
    // lm = 900000; min(max(900000, 100000), 45000000) = 900000
    assert_eq!(
        calculate_effective_median_block_weight(&HardFork::V15, &[100000], &[900000]),
        900000
    );
    // min(max(400000, 30000000), 50 * 400000) = 20000000
    assert_eq!(
        calculate_effective_median_block_weight(&HardFork::V16, &[30000000], &[400000]),
        20000000
    );
}

#[test]
fn effective_median_with_a_cap_beyond_the_machine_word() {
    // 50 times the long-term median does not fit a word: the cap does not bind
    assert_eq!(
        calculate_effective_median_block_weight(&HardFork::V10, &[12345678], &[usize::MAX]),
        12345678
    );
    assert_eq!(
        calculate_effective_median_block_weight(&HardFork::V16, &[12345678], &[usize::MAX]),
        usize::MAX
    );
}

#[test]
fn v16_long_term_weight_adjustment() {
    assert_eq!(calculate_block_long_term_weight(&HardFork::V16, 10000, &[300000]), 176470);
    assert_eq!(calculate_block_long_term_weight(&HardFork::V16, 10000, &[1000]), 176470);
    // capped at 300000 + 210000
    assert_eq!(calculate_block_long_term_weight(&HardFork::V15, 600000, &[300000]), 510000);
    assert_eq!(calculate_block_long_term_weight(&HardFork::V15, 200000, &[300000]), 200000);
}

#[test]
fn long_term_weight_at_the_v10_boundary() {
    for block_weight in [0usize, 1, 299999, 420000, 420001, 5000000, usize::MAX] {
        assert_eq!(
            calculate_block_long_term_weight(&HardFork::V9, block_weight, &[300000]),
            block_weight
        );
        assert_eq!(
            calculate_block_long_term_weight(&HardFork::V1, block_weight, &[]),
            block_weight
        );
        // 300000 + 300000 * 2 / 5 = 420000
        assert_eq!(
            calculate_block_long_term_weight(&HardFork::V10, block_weight, &[300000]),
            block_weight.min(420000)
        );
    }
    // 1000001 + 2000002 / 5 = 1400001
    assert_eq!(calculate_block_long_term_weight(&HardFork::V14, 9999999, &[1000001]), 1400001);
}

#[test]
fn long_term_weight_with_a_constraint_beyond_the_machine_word() {
    assert_eq!(
        calculate_block_long_term_weight(&HardFork::V10, usize::MAX, &[usize::MAX]),
        usize::MAX
    );
    assert_eq!(
        calculate_block_long_term_weight(&HardFork::V16, 5, &[usize::MAX]),
        (usize::MAX as u128 * 10 / 17) as usize
    );
}

#[test]
fn limit_is_twice_the_effective_median() {
    let cache = BlockWeightsCache::init_from_chain_height(250, window_of(250));
    for hf in ALL_FORKS {
        assert_eq!(
            cache.next_block_weight_limit(&hf),
            2 * cache.effective_median_block_weight(&hf)
        );
    }
    // below fork 10 the median of the short-term window decides
    let mut short = cache.short_term_block_weights();
    short.sort_unstable();
    assert_eq!(cache.next_block_weight_limit(&HardFork::V9), 2 * median(&short));
    // from fork 10 on the penalty free zone is the floor
    assert_eq!(cache.next_block_weight_limit(&HardFork::V10), 600000);
}

#[test]
fn cache_of_an_empty_chain() {
    let cache = BlockWeightsCache::init_from_chain_height(0, Vec::new());
    assert_eq!(cache.chain_height(), 0);
    assert!(cache.short_term_block_weights().is_empty());
    assert!(cache.long_term_weights().is_empty());
    assert_eq!(cache.next_block_long_term_weight(&HardFork::V9, 77), 77);
}

#[test]
fn init_takes_last_block_weights_and_sorts_long_term_weights() {
    let cache = cache_with(4, &[(40, 9), (10, 3), (30, 7), (20, 3)]);
    assert_eq!(cache.chain_height(), 4);
    assert_eq!(cache.short_term_block_weights(), vec![40, 10, 30, 20]);
    assert_eq!(cache.long_term_weights(), vec![3, 3, 7, 9]);

    let cache = BlockWeightsCache::init_from_chain_height(250, window_of(250));
    let expected: Vec<usize> = (150..250).map(|h| block_at(h).block_weight).collect();
    assert_eq!(cache.short_term_block_weights(), expected);
    assert_eq!(cache.long_term_weights().len(), 250);
}

#[test]
fn new_block_moves_the_windows() {
    let mut cache = cache_with(2, &[(40, 9), (10, 3)]);
    cache.new_block_added(2, 30, 5, None);
    assert_eq!(cache.chain_height(), 3);
    assert_eq!(cache.short_term_block_weights(), vec![40, 10, 30]);
    assert_eq!(cache.long_term_weights(), vec![3, 5, 9]);
    assert!(cache.holds_long_term_weight(5));
    assert!(!cache.holds_long_term_weight(4));
    assert_eq!(cache.next_block_long_term_weight(&HardFork::V16, 10000), 176470);
}

#[test]
fn window_sizes_stay_bounded() {
    let mut cache = BlockWeightsCache::init_from_chain_height(0, Vec::new());
    for height in 0..350 {
        add_block(&mut cache, height);
        let expected_short = std::cmp::min(height + 1, SHORT_TERM_WINDOW) as usize;
        assert_eq!(cache.short_term_block_weights().len(), expected_short);
        assert_eq!(cache.long_term_weights().len(), (height + 1) as usize);
    }
    assert_eq!(cache.chain_height(), 350);
}

#[test]
fn long_term_window_stays_sorted_and_bounded_past_its_limit() {
    let start = LONG_TERM_WINDOW - 150;
    let mut cache = BlockWeightsCache::init_from_chain_height(start, window_of(start));
    for height in start..start + 400 {
        add_block(&mut cache, height);
        let long_term = cache.long_term_weights();
        assert!(long_term.len() as u64 <= LONG_TERM_WINDOW);
        assert_eq!(long_term.len() as u64, std::cmp::min(height + 1, LONG_TERM_WINDOW));
        assert!(long_term.windows(2).all(|pair| pair[0] <= pair[1]));
        assert_eq!(cache.short_term_block_weights().len() as u64, SHORT_TERM_WINDOW);
    }
}

#[test]
fn rebuild_equals_replay_from_an_empty_chain() {
    let mut replayed = BlockWeightsCache::init_from_chain_height(0, Vec::new());
    for height in 0..300 {
        let rebuilt = BlockWeightsCache::init_from_chain_height(height, window_of(height));
        same_state(&replayed, &rebuilt);
        add_block(&mut replayed, height);
    }
    same_state(&replayed, &BlockWeightsCache::init_from_chain_height(300, window_of(300)));
}

#[test]
fn rebuild_equals_replay_across_the_long_term_limit() {
    let start = LONG_TERM_WINDOW - 200;
    let end = LONG_TERM_WINDOW + 200;
    let mut replayed = BlockWeightsCache::init_from_chain_height(start, window_of(start));
    for height in start..end {
        add_block(&mut replayed, height);
    }
    same_state(&replayed, &BlockWeightsCache::init_from_chain_height(end, window_of(end)));
}

#[test]
fn heights_of_the_long_term_window() {
    assert_eq!(BlockWeightsCache::long_term_window_start(0), 0);
    assert_eq!(BlockWeightsCache::long_term_window_start(99999), 0);
    assert_eq!(BlockWeightsCache::long_term_window_start(100000), 0);
    assert_eq!(BlockWeightsCache::long_term_window_start(100001), 1);
    assert_eq!(BlockWeightsCache::long_term_window_start(2689608), 2589608);
    assert_eq!(BlockWeightsCache::height_leaving_window(0), None);
    assert_eq!(BlockWeightsCache::height_leaving_window(99999), None);
    assert_eq!(BlockWeightsCache::height_leaving_window(100000), Some(0));
    assert_eq!(BlockWeightsCache::height_leaving_window(100007), Some(7));
}
