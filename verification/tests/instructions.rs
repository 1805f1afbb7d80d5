use social_game::instructions::{
    CreateBucket, CreateContest, DistributeWinning, EditBid, FinalizeContest, InitializeAdmin,
    PlaceBid, SetContestAccount, create_buckets, create_contest, distribute_winning, edit_bid,
    finalize_contest, initialize_admin, place_bid, set_contest_account,
};
use social_game::model::{
    AccountConstraintError, AdminAccount, Bid, Bucket, Contest, ContestBucket, ContestError,
    ContestStatus, ProgramErrorCode,
};
use social_game::prize_layout::plan_buckets;
use social_game::Pubkey;

fn key(b: u8) -> Pubkey {
    Pubkey::new_from_array([b; 32])
}

fn contest(status: ContestStatus) -> Contest {
    Contest {
        object_id: "obj".to_string(),
        contest_id: "c1".to_string(),
        nft_address: key(9),
        start_time: 100,
        end_time: 300,
        bidding_end_time: 200,
        status,
        max_participants: 100,
        minimum_bid: 1000,
        actual_count: 0,
        total_pot: 0,
        company_share: 500,
        authority: key(1),
        total_bids: 0,
        total_paid: 0,
    }
}

fn empty_bid() -> Bid {
    Bid { user: Pubkey::default(), predicted_count: 0, rank: 0, winning: 0 }
}

fn admin_account(admin: Pubkey, contest_account: Pubkey) -> AdminAccount {
    AdminAccount { admin, contest_account }
}

#[test]
fn default_key_is_zero() {
    assert_eq!(Pubkey::default().bytes, [0u8; 32]);
    assert!(key(3).same_as(&key(3)));
    assert!(!key(3).same_as(&key(4)));
}

#[test]
fn admin_is_claimed_once_then_handed_over_by_the_admin() {
    let mut ctx = InitializeAdmin { admin_account: admin_account(Pubkey::default(), Pubkey::default()), signer: key(5) };
    assert_eq!(initialize_admin(&mut ctx, key(7)), Ok(()));
    assert_eq!(ctx.admin_account.admin.bytes, [7u8; 32]);
    // Another signer may not change it.
    ctx.signer = key(5);
    assert_eq!(initialize_admin(&mut ctx, key(5)), Err(ProgramErrorCode::AdminNotAuthorized));
    assert_eq!(ctx.admin_account.admin.bytes, [7u8; 32]);
    // The admin may.
    ctx.signer = key(7);
    assert_eq!(initialize_admin(&mut ctx, key(8)), Ok(()));
    assert_eq!(ctx.admin_account.admin.bytes, [8u8; 32]);
}

#[test]
fn contest_account_is_set_by_any_signer() {
    let mut ctx = InitializeAdmin { admin_account: admin_account(key(7), key(1)), signer: key(5) };
    assert_eq!(set_contest_account(&mut ctx, key(2)), Ok(()));
    assert_eq!(ctx.admin_account.contest_account.bytes, [2u8; 32]);
    assert_eq!(ctx.admin_account.admin.bytes, [7u8; 32]);
}

#[test]
fn account_constraints() {
    let set = SetContestAccount { admin_account: admin_account(key(7), key(1)), signer: key(7) };
    assert_eq!(set.check_constraints(), Ok(()));
    let set = SetContestAccount { admin_account: admin_account(key(7), key(1)), signer: key(6) };
    assert_eq!(set.check_constraints(), Err(AccountConstraintError::Raw));

    let mut pb = PlaceBid {
        contest: contest(ContestStatus::Active),
        bid: empty_bid(),
        user: key(4),
        contest_account: key(1),
        admin_account: admin_account(key(7), key(1)),
    };
    assert_eq!(pb.check_constraints(), Ok(()));
    pb.contest_account = key(2);
    assert_eq!(pb.check_constraints(), Err(AccountConstraintError::HasOne));

    let eb = EditBid { contest: contest(ContestStatus::Active), bid: Bid { user: key(4), ..empty_bid() }, user: key(5) };
    assert_eq!(eb.check_constraints(), Err(AccountConstraintError::HasOne));

    let cc = CreateContest { contest: contest(ContestStatus::Active), payer: key(7), admin_account: admin_account(key(7), key(1)), mint_account: key(9) };
    assert_eq!(cc.check_constraints(), Ok(()));
    let cb = CreateBucket {
        contest: contest(ContestStatus::Active),
        bucket_account: ContestBucket { contest_id: String::new(), buckets: vec![] },
        payer: key(6),
        admin_account: admin_account(key(7), key(1)),
    };
    assert_eq!(cb.check_constraints(), Err(AccountConstraintError::Raw));
    let fc = FinalizeContest {
        contest: contest(ContestStatus::Active),
        contest_account: key(1),
        admin_account: admin_account(key(7), key(1)),
    };
    assert_eq!(fc.check_constraints(), Ok(()));
    let dw = DistributeWinning {
        contest: contest(ContestStatus::Active),
        bucket_account: ContestBucket { contest_id: String::new(), buckets: vec![] },
        bid: empty_bid(),
        contest_account: key(2),
        admin_account: admin_account(key(7), key(1)),
    };
    assert_eq!(dw.check_constraints(), Err(AccountConstraintError::HasOne));
}

#[test]
fn new_contest_is_active_and_empty() {
    let mut old = contest(ContestStatus::Completed);
    old.total_pot = 55;
    old.total_bids = 3;
    let mut ctx = CreateContest { contest: old, payer: key(7), admin_account: admin_account(key(7), key(1)), mint_account: key(8) };
    create_contest(&mut ctx, "c2".to_string(), "o2".to_string(), 10, 20, 15, 250, 700, 50);
    let c = &ctx.contest;
    assert_eq!(c.contest_id, "c2");
    assert_eq!(c.object_id, "o2");
    assert_eq!(c.status, ContestStatus::Active);
    assert_eq!((c.start_time, c.end_time, c.bidding_end_time), (10, 20, 15));
    assert_eq!((c.minimum_bid, c.company_share, c.max_participants), (250, 700, 50));
    assert_eq!((c.total_pot, c.total_bids, c.actual_count), (0, 0, 0));
    assert_eq!(c.authority.bytes, [7u8; 32]);
    assert_eq!(c.nft_address.bytes, [8u8; 32]);
}

fn place_ctx(status: ContestStatus) -> PlaceBid {
    PlaceBid {
        contest: contest(status),
        bid: empty_bid(),
        user: key(4),
        contest_account: key(1),
        admin_account: admin_account(key(7), key(1)),
    }
}

#[test]
fn bids_add_the_minimum_bid_to_the_pot() {
    let mut ctx = place_ctx(ContestStatus::Active);
    assert_eq!(place_bid(&mut ctx, 42, 150), Ok(1000));
    assert_eq!(ctx.bid.user.bytes, [4u8; 32]);
    assert_eq!(ctx.bid.predicted_count, 42);
    assert_eq!((ctx.contest.total_pot, ctx.contest.total_bids), (1000, 1));
    ctx.bid = empty_bid();
    // The last moment of bidding still counts.
    assert_eq!(place_bid(&mut ctx, 7, 200), Ok(1000));
    assert_eq!((ctx.contest.total_pot, ctx.contest.total_bids), (2000, 2));
    assert_eq!(ctx.contest.total_pot, ctx.contest.minimum_bid * ctx.contest.total_bids);
}

#[test]
fn bids_are_refused_outside_the_window() {
    let mut ctx = place_ctx(ContestStatus::Active);
    assert_eq!(place_bid(&mut ctx, 42, 201), Err(ContestError::BiddingClosed));
    assert_eq!((ctx.contest.total_pot, ctx.contest.total_bids, ctx.bid.predicted_count), (0, 0, 0));
    let mut ctx = place_ctx(ContestStatus::Completed);
    assert_eq!(place_bid(&mut ctx, 42, 150), Err(ContestError::ContestNotActive));
    let mut ctx = place_ctx(ContestStatus::BiddingClosed);
    assert_eq!(place_bid(&mut ctx, 42, 250), Err(ContestError::ContestNotActive));
}

#[test]
fn edits_change_only_the_prediction() {
    let mut ctx = EditBid { contest: contest(ContestStatus::Active), bid: Bid { user: key(4), predicted_count: 3, rank: 2, winning: 0 }, user: key(4) };
    assert_eq!(edit_bid(&mut ctx, 9, 199), Ok(()));
    assert_eq!((ctx.bid.predicted_count, ctx.bid.rank, ctx.bid.winning), (9, 2, 0));
    assert_eq!(edit_bid(&mut ctx, 11, 201), Err(ContestError::BiddingClosed));
    assert_eq!(ctx.bid.predicted_count, 9);
    ctx.contest.status = ContestStatus::Completed;
    assert_eq!(edit_bid(&mut ctx, 11, 100), Err(ContestError::ContestNotActive));
}

fn finalize_ctx(total_pot: u64, total_paid: u64) -> FinalizeContest {
    let mut c = contest(ContestStatus::Active);
    c.total_pot = total_pot;
    c.total_paid = total_paid;
    FinalizeContest {
        contest: c,
        contest_account: key(1),
        admin_account: admin_account(key(7), key(1)),
    }
}

#[test]
fn finalize_sends_the_rest_of_the_pot_to_the_house() {
    let mut ctx = finalize_ctx(100_000, 60_000);
    assert_eq!(finalize_contest(&mut ctx, 77), Ok(Some(30_000)));
    assert_eq!(ctx.contest.status, ContestStatus::Completed);
    assert_eq!(ctx.contest.actual_count, 77);
    // Finalized once; the second time is refused and changes nothing.
    assert_eq!(finalize_contest(&mut ctx, 5), Err(ContestError::InvalidStatus));
    assert_eq!(ctx.contest.actual_count, 77);
    // And no bids are taken any more.
    let mut pb = place_ctx(ContestStatus::Active);
    pb.contest = ctx.contest;
    assert_eq!(place_bid(&mut pb, 1, 0), Err(ContestError::ContestNotActive));
}

#[test]
fn finalize_with_an_empty_pot_sends_nothing() {
    let mut ctx = finalize_ctx(0, 0);
    assert_eq!(finalize_contest(&mut ctx, 3), Ok(None));
    assert_eq!(ctx.contest.status, ContestStatus::Completed);
}

fn dist_ctx(buckets: Vec<Bucket>, winning: u64) -> DistributeWinning {
    DistributeWinning {
        contest: contest(ContestStatus::Completed),
        bucket_account: ContestBucket { contest_id: "c1".to_string(), buckets },
        bid: Bid { user: key(4), predicted_count: 10, rank: 0, winning },
        contest_account: key(1),
        admin_account: admin_account(key(7), key(1)),
    }
}

fn bucket(start: u32, end: u32, g: u64, w: u64, n: u8) -> Bucket {
    Bucket { guaranteed_prize_per_bid: g, rank_start: start, rank_end: end, weight_prize_per_bid: w, bucket: n }
}

#[test]
fn winnings_are_paid_once() {
    let mut ctx = dist_ctx(vec![bucket(1, 1, 1000, 9000, 1), bucket(2, 4, 1000, 600, 2)], 0);
    assert_eq!(distribute_winning(&mut ctx, 3), Some(1100));
    assert_eq!((ctx.bid.rank, ctx.bid.winning), (3, 1100));
    assert_eq!(ctx.contest.total_paid, 1100 + 5000);
    assert_eq!(distribute_winning(&mut ctx, 1), None);
    assert_eq!((ctx.bid.rank, ctx.bid.winning), (3, 1100));
    assert_eq!(ctx.contest.total_paid, 1100 + 5000 + 5000);
}

#[test]
fn unranked_bid_only_costs_the_transaction() {
    let mut ctx = dist_ctx(vec![bucket(1, 1, 1000, 9000, 1)], 0);
    assert_eq!(distribute_winning(&mut ctx, 2), None);
    assert_eq!((ctx.bid.rank, ctx.bid.winning), (0, 0));
    assert_eq!(ctx.contest.total_paid, 5000);
}

#[test]
fn zero_winning_can_be_paid_again() {
    let mut ctx = dist_ctx(vec![bucket(1, 1, 200, 300, 1)], 0);
    assert_eq!(distribute_winning(&mut ctx, 1), Some(0));
    assert_eq!(distribute_winning(&mut ctx, 1), Some(0));
    assert_eq!(ctx.contest.total_paid, 10_000);
}

#[test]
fn stored_buckets_cover_every_rank() {
    let mut c = contest(ContestStatus::Completed);
    c.total_pot = 1_000_000;
    let mut ctx = CreateBucket {
        contest: c,
        bucket_account: ContestBucket { contest_id: "c1".to_string(), buckets: vec![bucket(1, 1, 1, 1, 1)] },
        payer: key(7),
        admin_account: admin_account(key(7), key(1)),
    };
    let plan = plan_buckets(1_000_000, 1000, 20, 20, 1000).unwrap();
    let weight_prizes: Vec<u64> = plan.buckets.iter().map(|b| b.total_weight * 3).collect();
    create_buckets(&mut ctx, 20, 20, 1000, &weight_prizes);
    let stored = &ctx.bucket_account.buckets;
    assert_eq!(stored.len(), 14);
    assert_eq!(stored[0], Bucket { guaranteed_prize_per_bid: 1000, rank_start: 1, rank_end: 1, weight_prize_per_bid: 300_000, bucket: 1 });
    assert_eq!(stored[12], Bucket { guaranteed_prize_per_bid: 1000, rank_start: 15, rank_end: 19, weight_prize_per_bid: 475 * 3, bucket: 13 });
    for r in 1..=20u32 {
        let b = ctx.bucket_account.get_rank_bucket(r).unwrap();
        assert!(b.rank_start <= r && r <= b.rank_end);
    }
    assert_eq!(ctx.bucket_account.get_rank_bucket(0), None);
    assert_eq!(ctx.bucket_account.get_rank_bucket(21), None);
}
