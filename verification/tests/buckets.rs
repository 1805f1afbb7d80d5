use social_game::model::{Bucket, ContestBucket, TempBucket};
use social_game::prize_layout::plan_buckets;

fn temp() -> TempBucket {
    TempBucket {
        guaranteed_prize_per_bid: 0,
        guaranteed_prize: 0,
        rank_start: 0,
        rank_end: 0,
        weight: 0,
        total_weight: 0,
        participant_count: 0,
        weight_prize: 0,
        weight_prize_per_bid: 0,
        bucket: 0,
    }
}

#[test]
fn weights_by_bucket() {
    let t = temp();
    assert_eq!(t.get_weight_by_bucket(1), 100000);
    assert_eq!(t.get_weight_by_bucket(2), 10000);
    assert_eq!(t.get_weight_by_bucket(3), 9000);
    assert_eq!(t.get_weight_by_bucket(7), 5000);
    assert_eq!(t.get_weight_by_bucket(11), 1000);
    assert_eq!(t.get_weight_by_bucket(12), 500);
    assert_eq!(t.get_weight_by_bucket(13), 475);
    assert_eq!(t.get_weight_by_bucket(32), 0);
}

#[test]
fn weights_never_grow() {
    let t = temp();
    for b in 1u8..32 {
        assert!(t.get_weight_by_bucket(b) >= t.get_weight_by_bucket(b + 1));
    }
}

#[test]
fn plan_for_twenty_ranks() {
    let plan = plan_buckets(1_000_000, 1000, 20, 20, 1000).unwrap();
    // 10% house cut, then 20 guaranteed minimum bids.
    assert_eq!(plan.prize_left_after_guaranteed, 1_000_000 - 100_000 - 20_000);
    let ranges: Vec<(u32, u32, u8)> =
        plan.buckets.iter().map(|b| (b.rank_start, b.rank_end, b.bucket)).collect();
    let mut expected: Vec<(u32, u32, u8)> = (1..=11).map(|r| (r, r, r as u8)).collect();
    expected.push((12, 14, 12));
    expected.push((15, 19, 13));
    expected.push((20, 20, 14));
    assert_eq!(ranges, expected);
    assert_eq!(plan.total_weight, 100_000 + 55_000 + 500 * 3 + 475 * 5 + 450);
    for b in &plan.buckets {
        assert_eq!(b.participant_count, b.rank_end - b.rank_start + 1);
        assert_eq!(b.guaranteed_prize_per_bid, 1000);
        assert_eq!(b.guaranteed_prize, 1000 * b.participant_count as u64);
        assert_eq!(b.total_weight, b.weight as u64 * b.participant_count as u64);
    }
    let total: u32 = plan.buckets.iter().map(|b| b.participant_count).sum();
    assert_eq!(total, 20);
}

#[test]
fn plan_for_no_ranks() {
    let plan = plan_buckets(0, 1000, 0, 0, 0).unwrap();
    assert!(plan.buckets.is_empty());
    assert_eq!(plan.total_weight, 0);
    assert_eq!(plan.prize_left_after_guaranteed, 0);
}

#[test]
fn plan_up_to_the_rank_limit() {
    let plan = plan_buckets(0, 0, 0, 4_194_334, 0).unwrap();
    assert_eq!(plan.buckets.len(), 32);
    let last = plan.buckets[31];
    assert_eq!(last.rank_start, 2_097_182);
    assert_eq!(last.rank_end, 4_194_334);
    assert_eq!(last.weight, 0);
    assert!(plan_buckets(0, 0, 0, 4_194_335, 0).is_none());
}

#[test]
fn plan_refuses_overflowing_inputs() {
    // The house cut overflows.
    assert!(plan_buckets(u64::MAX, 1, 0, 1, 2).is_none());
    // The house cut is more than the pot.
    assert!(plan_buckets(100, 1, 0, 1, 20_000).is_none());
    // The guaranteed prizes overflow.
    assert!(plan_buckets(100, u64::MAX, 2, 1, 0).is_none());
    // The guaranteed prizes are more than what is left for bidders.
    assert!(plan_buckets(100, 10, 11, 1, 0).is_none());
    // The guaranteed prize of bucket 12, which holds ranks 12 and 13, overflows.
    assert!(plan_buckets(0, u64::MAX / 2 + 1, 0, 13, 0).is_none());
    assert!(plan_buckets(0, u64::MAX / 2 + 1, 0, 12, 0).is_some());
}

fn bucket(start: u32, end: u32, n: u8) -> Bucket {
    Bucket {
        guaranteed_prize_per_bid: 10,
        rank_start: start,
        rank_end: end,
        weight_prize_per_bid: n as u64,
        bucket: n,
    }
}

#[test]
fn rank_bucket_is_the_first_that_holds_the_rank() {
    let cb = ContestBucket {
        contest_id: String::new(),
        buckets: vec![bucket(1, 1, 1), bucket(2, 5, 2), bucket(4, 9, 3)],
    };
    assert_eq!(cb.get_rank_bucket(1), Some(bucket(1, 1, 1)));
    assert_eq!(cb.get_rank_bucket(3), Some(bucket(2, 5, 2)));
    assert_eq!(cb.get_rank_bucket(4), Some(bucket(2, 5, 2)));
    assert_eq!(cb.get_rank_bucket(9), Some(bucket(4, 9, 3)));
    assert_eq!(cb.get_rank_bucket(0), None);
    assert_eq!(cb.get_rank_bucket(10), None);
}
