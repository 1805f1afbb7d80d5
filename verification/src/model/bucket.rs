//! Prize buckets: groups of consecutive ranks that share one prize per bid.

use vstd::prelude::*;

verus! {

/// A stored prize bucket: every rank in `rank_start..=rank_end` is paid
/// `guaranteed_prize_per_bid + weight_prize_per_bid`.
#[derive(Clone, Copy, Debug, PartialEq, Eq, Structural)]
pub struct Bucket {
    pub guaranteed_prize_per_bid: u64,
    pub rank_start: u32,
    pub rank_end: u32,
    pub weight_prize_per_bid: u64,
    pub bucket: u8,
}

impl Bucket {
    /// Serialized size in bytes.
    pub const MAX_SIZE: usize = 8 + 4 + 4 + 8 + 1;

    /// Whether the bucket covers `rank`.
    pub open spec fn covers(self, rank: int) -> bool {
        self.rank_start <= rank <= self.rank_end
    }
}

/// A bucket while the prizes are being laid out.
///
/// Weights are whole numbers: a bucket's weight is `get_weight_by_bucket`
/// of its number, and its total weight is that times its participant count.
#[derive(Clone, Copy, Debug)]
pub struct TempBucket {
    pub guaranteed_prize_per_bid: u64,
    pub guaranteed_prize: u64,
    pub rank_start: u32,
    pub rank_end: u32,
    pub weight: u32,
    pub total_weight: u64,
    pub participant_count: u32,
    pub weight_prize: u64,
    pub weight_prize_per_bid: u64,
    pub bucket: u8,
}

/// The prize weight of bucket number `b`: the first bucket weighs 100000, the
/// next ten weigh 10000, 9000, ..., 1000, and from bucket 12 on the weight
/// starts at 500 and falls by 25 per bucket.
pub open spec fn weight_for_bucket(b: int) -> int {
    if b == 1 {
        100_000
    } else if b <= 11 {
        1_000 * (12 - b)
    } else {
        500 - 25 * (b - 12)
    }
}

/// The bucket numbers that have a weight: past bucket 32 the weight would be negative.
pub open spec fn has_weight(b: int) -> bool {
    1 <= b <= 32
}

impl TempBucket {
    /// The prize weight of bucket number `bucket`.
    pub fn get_weight_by_bucket(&self, bucket: u8) -> (w: u32)
        requires
            has_weight(bucket as int),
        ensures
            w == weight_for_bucket(bucket as int),
            bucket == 1 ==> w == 100_000,
            2 <= bucket <= 11 ==> w == 10_000 - 1_000 * (bucket - 2),
            12 <= bucket ==> w == 500 - 25 * (bucket - 12),
            bucket < 32 ==> w > 0,
    {
        let max_weight: u32 = 100000;
        let max_weight_for_lower_buckets: u32 = 500;

        if bucket == 1 {
            max_weight
        } else if bucket == 2 {
            max_weight / 10
        } else if bucket == 3 {
            (max_weight / 10) * 90 / 100
        } else if bucket == 4 {
            (max_weight / 10) * 80 / 100
        } else if bucket == 5 {
            (max_weight / 10) * 70 / 100
        } else if bucket == 6 {
            (max_weight / 10) * 60 / 100
        } else if bucket == 7 {
            (max_weight / 10) * 50 / 100
        } else if bucket == 8 {
            (max_weight / 10) * 40 / 100
        } else if bucket == 9 {
            (max_weight / 10) * 30 / 100
        } else if bucket == 10 {
            (max_weight / 10) * 20 / 100
        } else if bucket == 11 {
            (max_weight / 10) * 10 / 100
        } else {
            max_weight_for_lower_buckets - 25 * (bucket - 12) as u32
        }
    }
}

/// The weights step down in a fixed pattern: bucket 1 weighs ten times
/// bucket 2 (10000); buckets 2 to 11 fall by 1000 each down to 1000; bucket 12
/// weighs 500, and from there each bucket weighs 25 less than the one before,
/// so every bucket before 32 has a positive weight and bucket 32 weighs 0.
pub proof fn lemma_weight_steps(b: int)
    ensures
        weight_for_bucket(1) == 10 * weight_for_bucket(2),
        weight_for_bucket(2) == 10_000,
        2 <= b < 11 ==> weight_for_bucket(b) - weight_for_bucket(b + 1) == 1_000,
        weight_for_bucket(11) == 1_000,
        weight_for_bucket(12) == 500,
        12 <= b < 32 ==> weight_for_bucket(b) - weight_for_bucket(b + 1) == 25,
        12 <= b <= 32 ==> weight_for_bucket(b) == 500 - 25 * (b - 12),
        1 <= b < 32 ==> weight_for_bucket(b) > 0,
        weight_for_bucket(32) == 0,
{
}

/// Bucket weights never grow with the bucket number.
pub proof fn lemma_weights_nonincreasing(a: int, b: int)
    requires
        has_weight(a),
        has_weight(b),
        a <= b,
    ensures
        weight_for_bucket(a) >= weight_for_bucket(b),
        weight_for_bucket(b) >= 0,
{
}

} // verus!
