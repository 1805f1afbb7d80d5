//! Creating, finalizing and paying out contests.

use vstd::prelude::*;
use crate::pubkey::Pubkey;
use crate::model::admin::AdminAccount;
use crate::model::bid::Bid;
use crate::model::bucket::Bucket;
use crate::model::contest::Contest;
use crate::model::contest_bucket::{ContestBucket, rank_bucket};
use crate::model::contest_error::ContestError;
use crate::model::contest_status::ContestStatus;
use crate::model::program_error::AccountConstraintError;
use crate::prize_layout::{
    plan_buckets, plan_fits, layout, layout_len, stored_layout, stored_bucket, first_rank,
    lemma_layout_is_partition, lemma_stored_layout_finds_rank, lemma_stored_prizes_split_evenly,
};
use crate::instructions::bid::bidding_check;

verus! {

/// The bytes kept in the mint account for the contest's metadata.
pub const META_DATA_SPACE: usize = 500;

/// Lamports that stay in the contest account when the house takes its cut.
pub const RESERVED_LAMPORTS: u64 = 10000;

/// Lamports taken off each winning to pay for its transfer.
pub const PER_TRANS_LAMPORTS: u64 = 500;

/// Lamports that each payout instruction adds to what the contest has paid.
pub const TRANSACTION_COST_LAMPORTS: u64 = 5000;

/// The accounts of `create_contest`.
#[derive(Debug)]
pub struct CreateContest {
    /// The new contest.
    pub contest: Contest,
    pub payer: Pubkey,
    pub admin_account: AdminAccount,
    /// The mint of the contest's NFT.
    pub mint_account: Pubkey,
}

/// The accounts of `finalize_contest`.
#[derive(Debug)]
pub struct FinalizeContest {
    pub contest: Contest,
    /// The account that holds the contest funds; it signs.
    pub contest_account: Pubkey,
    pub admin_account: AdminAccount,
}

/// The accounts of `create_buckets`.
#[derive(Debug)]
pub struct CreateBucket {
    pub contest: Contest,
    pub bucket_account: ContestBucket,
    pub payer: Pubkey,
    pub admin_account: AdminAccount,
}

/// The accounts of `distribute_winning`.
#[derive(Debug)]
pub struct DistributeWinning {
    pub contest: Contest,
    pub bucket_account: ContestBucket,
    pub bid: Bid,
    /// The account that holds the contest funds; it signs.
    pub contest_account: Pubkey,
    pub admin_account: AdminAccount,
}

impl CreateContest {
    /// Only the admin may create a contest.
    pub fn check_constraints(&self) -> (r: Result<(), AccountConstraintError>)
        ensures
            r is Ok <==> self.admin_account.admin@ == self.payer@,
            r is Err ==> r == Err::<(), AccountConstraintError>(AccountConstraintError::Raw),
    {
        if self.admin_account.admin.same_as(&self.payer) {
            Ok(())
        } else {
            Err(AccountConstraintError::Raw)
        }
    }
}

impl FinalizeContest {
    /// The contest account must be the one that the admin account names.
    pub fn check_constraints(&self) -> (r: Result<(), AccountConstraintError>)
        ensures
            r is Ok <==> self.admin_account.contest_account@ == self.contest_account@,
            r is Err ==> r == Err::<(), AccountConstraintError>(AccountConstraintError::HasOne),
    {
        if self.admin_account.contest_account.same_as(&self.contest_account) {
            Ok(())
        } else {
            Err(AccountConstraintError::HasOne)
        }
    }
}

impl CreateBucket {
    /// Only the admin may lay out the buckets.
    pub fn check_constraints(&self) -> (r: Result<(), AccountConstraintError>)
        ensures
            r is Ok <==> self.admin_account.admin@ == self.payer@,
            r is Err ==> r == Err::<(), AccountConstraintError>(AccountConstraintError::Raw),
    {
        if self.admin_account.admin.same_as(&self.payer) {
            Ok(())
        } else {
            Err(AccountConstraintError::Raw)
        }
    }
}

impl DistributeWinning {
    /// The contest account must be the one that the admin account names.
    pub fn check_constraints(&self) -> (r: Result<(), AccountConstraintError>)
        ensures
            r is Ok <==> self.admin_account.contest_account@ == self.contest_account@,
            r is Err ==> r == Err::<(), AccountConstraintError>(AccountConstraintError::HasOne),
    {
        if self.admin_account.contest_account.same_as(&self.contest_account) {
            Ok(())
        } else {
            Err(AccountConstraintError::HasOne)
        }
    }
}

/// Sets up a new, active contest with an empty pot.
pub fn create_contest(
    ctx: &mut CreateContest,
    contest_id: String,
    object_id: String,
    start_time: i64,
    end_time: i64,
    bid_end_time: i64,
    minimum_bid: u64,
    company_share: u32,
    max_participants: u32,
)
    ensures
        final(ctx).contest == (Contest {
            object_id,
            contest_id,
            nft_address: old(ctx).mint_account,
            start_time,
            end_time,
            bidding_end_time: bid_end_time,
            status: ContestStatus::Active,
            max_participants,
            minimum_bid,
            actual_count: 0,
            total_pot: 0,
            company_share,
            authority: old(ctx).payer,
            total_bids: 0,
            total_paid: old(ctx).contest.total_paid,
        }),
        final(ctx).payer == old(ctx).payer,
        final(ctx).admin_account == old(ctx).admin_account,
        final(ctx).mint_account == old(ctx).mint_account,
{
    ctx.contest.object_id = object_id;
    ctx.contest.contest_id = contest_id;
    ctx.contest.start_time = start_time;
    ctx.contest.end_time = end_time;
    ctx.contest.bidding_end_time = bid_end_time;
    ctx.contest.status = ContestStatus::Active;
    ctx.contest.total_pot = 0;
    ctx.contest.company_share = company_share;
    ctx.contest.authority = ctx.payer;
    ctx.contest.actual_count = 0;
    ctx.contest.nft_address = ctx.mint_account;
    ctx.contest.max_participants = max_participants;
    ctx.contest.minimum_bid = minimum_bid;
    ctx.contest.total_bids = 0;
}

/// Whether a contest can be finalized: only an active one can.
pub open spec fn finalize_check(contest: Contest) -> Result<(), ContestError> {
    if contest.status != ContestStatus::Active {
        Err(ContestError::InvalidStatus)
    } else {
        Ok(())
    }
}

/// The contest once finalized with the real count.
pub open spec fn finalized(contest: Contest, actual_count: u32) -> Contest {
    Contest { status: ContestStatus::Completed, actual_count, ..contest }
}

/// What the house is sent when a contest is finalized: all of the pot that
/// has not been paid out, but for the reserve; nothing if the pot is empty.
pub open spec fn house_transfer(contest: Contest) -> Option<u64> {
    if contest.total_pot > 0 {
        Some((contest.total_pot - contest.total_paid - RESERVED_LAMPORTS) as u64)
    } else {
        None
    }
}

/// Finalizing a non-empty pot needs the reserve and the payouts to fit in it.
pub open spec fn finalize_fits(contest: Contest) -> bool {
    contest.status == ContestStatus::Active && contest.total_pot > 0 ==> contest.total_pot
        >= contest.total_paid + RESERVED_LAMPORTS
}

/// Closes an active contest with the real count.
///
/// Returns the house's cut that the contest account must transfer, if the
/// pot is not empty.
pub fn finalize_contest(ctx: &mut FinalizeContest, actual_count: u32) -> (r: Result<
    Option<u64>,
    ContestError,
>)
    requires
        finalize_fits(old(ctx).contest),
    ensures
        match finalize_check(old(ctx).contest) {
            Err(e) => r == Err::<Option<u64>, ContestError>(e) && *final(ctx) == *old(ctx),
            Ok(_) => {
                &&& r == Ok::<Option<u64>, ContestError>(house_transfer(old(ctx).contest))
                &&& final(ctx).contest == finalized(old(ctx).contest, actual_count)
                &&& final(ctx).contest_account == old(ctx).contest_account
                &&& final(ctx).admin_account == old(ctx).admin_account
            },
        },
        // The house's cut, the payouts and the reserve make up the pot.
        r matches Ok(Some(cut)) ==> cut + old(ctx).contest.total_paid + RESERVED_LAMPORTS
            == old(ctx).contest.total_pot,
        // Only an active contest is finalized; it is then completed with the count.
        r is Ok <==> old(ctx).contest.status == ContestStatus::Active,
        r is Ok ==> final(ctx).contest.status == ContestStatus::Completed
            && final(ctx).contest.actual_count == actual_count,
        // The house is sent its cut exactly when the pot is not empty.
        r is Ok ==> (r matches Ok(Some(_)) <==> old(ctx).contest.total_pot > 0),
        r is Err ==> r == Err::<Option<u64>, ContestError>(ContestError::InvalidStatus)
            && *final(ctx) == *old(ctx),
{
    if ctx.contest.status != ContestStatus::Active {
        return Err(ContestError::InvalidStatus);
    }
    ctx.contest.status = ContestStatus::Completed;
    ctx.contest.actual_count = actual_count;

    if ctx.contest.total_pot > 0 {
        let house_cut = ctx.contest.total_pot - ctx.contest.total_paid - RESERVED_LAMPORTS;
        Ok(Some(house_cut))
    } else {
        Ok(None)
    }
}

/// Lays out the contest's prize buckets and stores them, replacing any
/// stored before.
///
/// `weight_prizes[i]` is the weighted prize of bucket `i + 1` of the layout
/// that `plan_buckets` gives for the same inputs.
pub fn create_buckets(
    ctx: &mut CreateBucket,
    total_winners: u32,
    max_rank: u32,
    company_share: u32,
    weight_prizes: &Vec<u64>,
)
    requires
        plan_fits(
            old(ctx).contest.total_pot,
            old(ctx).contest.minimum_bid,
            total_winners,
            max_rank,
            company_share,
        ),
        weight_prizes@.len() == layout_len(max_rank as int),
    ensures
        final(ctx).bucket_account.buckets@ == stored_layout(
            max_rank as int,
            old(ctx).contest.minimum_bid,
            weight_prizes@,
        ),
        // Each stored bucket splits its weighted prize evenly over its ranks.
        forall|i: int|
            0 <= i < final(ctx).bucket_account.buckets@.len() ==> {
                let b = #[trigger] final(ctx).bucket_account.buckets@[i];
                let count = b.rank_end - b.rank_start + 1;
                &&& 1 <= b.rank_start <= b.rank_end <= max_rank
                &&& b.bucket == i + 1
                &&& b.guaranteed_prize_per_bid == old(ctx).contest.minimum_bid
                &&& b.weight_prize_per_bid * count <= weight_prizes@[i]
                &&& weight_prizes@[i] < (b.weight_prize_per_bid + 1) * count
            },
        final(ctx).bucket_account.contest_id == old(ctx).bucket_account.contest_id,
        final(ctx).contest == old(ctx).contest,
        final(ctx).payer == old(ctx).payer,
        final(ctx).admin_account == old(ctx).admin_account,
{
    let plan = plan_buckets(
        ctx.contest.total_pot,
        ctx.contest.minimum_bid,
        total_winners,
        max_rank,
        company_share,
    );
    let plan = plan.unwrap();
    let ghost l = layout(max_rank as int, ctx.contest.minimum_bid);
    proof {
        lemma_layout_is_partition(max_rank, ctx.contest.minimum_bid);
    }
    ctx.bucket_account.buckets.clear();
    let n = plan.buckets.len();
    let mut i: usize = 0;
    while i < n
        invariant
            0 <= i <= n,
            n == plan.buckets@.len(),
            plan.buckets@ == l,
            l == layout(max_rank as int, old(ctx).contest.minimum_bid),
            n == layout_len(max_rank as int),
            weight_prizes@.len() == n,
            forall|j: int| 0 <= j < n ==> (#[trigger] l[j]).participant_count >= 1,
            ctx.bucket_account.buckets@.len() == i,
            forall|j: int|
                0 <= j < i ==> #[trigger] ctx.bucket_account.buckets@[j] == stored_bucket(
                    l[j],
                    weight_prizes@[j],
                ),
            ctx.bucket_account.contest_id == old(ctx).bucket_account.contest_id,
            ctx.contest == old(ctx).contest,
            ctx.payer == old(ctx).payer,
            ctx.admin_account == old(ctx).admin_account,
        decreases n - i,
    {
        let t = plan.buckets[i];
        let weight_prize = weight_prizes[i];
        let weight_prize_per_bid = weight_prize / t.participant_count as u64;
        let stored = Bucket {
            guaranteed_prize_per_bid: t.guaranteed_prize_per_bid,
            weight_prize_per_bid,
            rank_start: t.rank_start,
            rank_end: t.rank_end,
            bucket: t.bucket,
        };
        ctx.bucket_account.buckets.push(stored);
        i = i + 1;
    }
    assert(ctx.bucket_account.buckets@ =~= stored_layout(
        max_rank as int,
        old(ctx).contest.minimum_bid,
        weight_prizes@,
    ));
    proof {
        lemma_stored_prizes_split_evenly(max_rank, old(ctx).contest.minimum_bid, weight_prizes@);
    }
}

/// What a winner in `bucket` is paid: both per-bid prizes, less the cost of the transfer.
pub open spec fn winning_amount(bucket: Bucket) -> int {
    bucket.guaranteed_prize_per_bid + bucket.weight_prize_per_bid - PER_TRANS_LAMPORTS
}

/// What a bid with `rank` is paid: nothing if it was paid before or no
/// bucket holds the rank, else the winning of the first bucket that does.
pub open spec fn payout(bid: Bid, buckets: Seq<Bucket>, rank: u32) -> Option<u64> {
    if bid.winning == 0 {
        match rank_bucket(buckets, rank as int) {
            Some(b) => Some(winning_amount(b) as u64),
            None => None,
        }
    } else {
        None
    }
}

/// The inputs on which a payout can be computed and counted without overflow.
pub open spec fn distribute_fits(contest: Contest, bid: Bid, buckets: Seq<Bucket>, rank: u32) -> bool {
    if bid.winning == 0 && rank_bucket(buckets, rank as int) is Some {
        let b = rank_bucket(buckets, rank as int).unwrap();
        &&& b.guaranteed_prize_per_bid + b.weight_prize_per_bid <= u64::MAX
        &&& winning_amount(b) >= 0
        &&& contest.total_paid + winning_amount(b) + TRANSACTION_COST_LAMPORTS <= u64::MAX
    } else {
        contest.total_paid + TRANSACTION_COST_LAMPORTS <= u64::MAX
    }
}

/// The contest once `paid` has been paid out in an instruction.
pub open spec fn contest_after_payout(contest: Contest, paid: Option<u64>) -> Contest {
    let amount: int = match paid {
        Some(w) => w as int,
        None => 0,
    };
    Contest { total_paid: (contest.total_paid + amount + TRANSACTION_COST_LAMPORTS) as u64, ..contest }
}

/// The bid once it has been paid `amount` for `rank`.
pub open spec fn paid_bid(bid: Bid, rank: u32, amount: u64) -> Bid {
    Bid { rank, winning: amount, ..bid }
}

/// Pays a bid its winning for `rank` if it has not been paid yet, and counts
/// the cost of the instruction against the contest.
///
/// Returns the lamports that the contest account must transfer to the user.
pub fn distribute_winning(ctx: &mut DistributeWinning, rank: u32) -> (r: Option<u64>)
    requires
        distribute_fits(old(ctx).contest, old(ctx).bid, old(ctx).bucket_account.buckets@, rank),
    ensures
        r == payout(old(ctx).bid, old(ctx).bucket_account.buckets@, rank),
        // A payout is both per-bid prizes of the first bucket that holds the
        // rank, less the cost of the transfer, and only for an unpaid bid.
        r is Some ==> {
            &&& old(ctx).bid.winning == 0
            &&& rank_bucket(old(ctx).bucket_account.buckets@, rank as int) is Some
            &&& rank_bucket(old(ctx).bucket_account.buckets@, rank as int).unwrap().covers(
                rank as int,
            )
            &&& r.unwrap() + PER_TRANS_LAMPORTS == rank_bucket(
                old(ctx).bucket_account.buckets@,
                rank as int,
            ).unwrap().guaranteed_prize_per_bid + rank_bucket(
                old(ctx).bucket_account.buckets@,
                rank as int,
            ).unwrap().weight_prize_per_bid
        },
        r is None <==> (old(ctx).bid.winning != 0 || rank_bucket(
            old(ctx).bucket_account.buckets@,
            rank as int,
        ) is None),
        r is Some ==> final(ctx).bid.winning == r.unwrap() && final(ctx).bid.rank == rank
            && final(ctx).bid.user == old(ctx).bid.user && final(ctx).bid.predicted_count
            == old(ctx).bid.predicted_count,
        r is None ==> final(ctx).bid == old(ctx).bid,
        final(ctx).contest.total_paid == old(ctx).contest.total_paid + match r {
            Some(w) => w as int,
            None => 0,
        } + TRANSACTION_COST_LAMPORTS,
        final(ctx).contest == contest_after_payout(old(ctx).contest, r),
        final(ctx).bid == match r {
            Some(w) => paid_bid(old(ctx).bid, rank, w),
            None => old(ctx).bid,
        },
        final(ctx).bucket_account == old(ctx).bucket_account,
        final(ctx).contest_account == old(ctx).contest_account,
        final(ctx).admin_account == old(ctx).admin_account,
{
    proof {
        crate::model::contest_bucket::lemma_rank_bucket_is_first_cover(
            ctx.bucket_account.buckets@,
            rank as int,
            0,
        );
    }
    let mut paid: Option<u64> = None;
    if ctx.bid.winning == 0 {
        if let Some(rank_bucket) = ctx.bucket_account.get_rank_bucket(rank) {
            let winning_amount = rank_bucket.guaranteed_prize_per_bid
                + rank_bucket.weight_prize_per_bid - PER_TRANS_LAMPORTS;

            ctx.bid.rank = rank;
            ctx.bid.winning = winning_amount;
            ctx.contest.total_paid = ctx.contest.total_paid + winning_amount;
            paid = Some(winning_amount);
        }
    }
    ctx.contest.total_paid = ctx.contest.total_paid + TRANSACTION_COST_LAMPORTS;
    paid
}

/// Finalizing an active contest sends the house something exactly when the
/// pot is not empty, and then it sends the pot less what was paid out and
/// less the reserve.
pub proof fn lemma_house_gets_the_rest(contest: Contest)
    requires
        contest.status == ContestStatus::Active,
        finalize_fits(contest),
    ensures
        house_transfer(contest) is Some <==> contest.total_pot > 0,
        house_transfer(contest) matches Some(cut) ==> cut + contest.total_paid
            + RESERVED_LAMPORTS == contest.total_pot,
        finalize_check(contest) is Ok,
{
}

/// An unpaid bid whose rank lies in a bucket is paid the sum of that
/// bucket's two per-bid prizes less the transfer cost, whatever the bucket's
/// number or ranks; a paid bid, or a rank in no bucket, is paid nothing.
pub proof fn lemma_payout_is_both_prizes(bid: Bid, buckets: Seq<Bucket>, rank: u32)
    ensures
        bid.winning != 0 ==> payout(bid, buckets, rank) is None,
        rank_bucket(buckets, rank as int) is None ==> payout(bid, buckets, rank) is None,
        ({
            let b = rank_bucket(buckets, rank as int).unwrap();
            bid.winning == 0 && rank_bucket(buckets, rank as int) is Some && PER_TRANS_LAMPORTS
                <= b.guaranteed_prize_per_bid + b.weight_prize_per_bid <= u64::MAX ==> {
                &&& payout(bid, buckets, rank) is Some
                &&& payout(bid, buckets, rank).unwrap() + PER_TRANS_LAMPORTS
                    == b.guaranteed_prize_per_bid + b.weight_prize_per_bid
                &&& b.covers(rank as int)
            }
        }),
{
    crate::model::contest_bucket::lemma_rank_bucket_is_first_cover(buckets, rank as int, 0);
}

/// A contest as `create_contest` leaves it takes bids exactly up to and
/// including its bidding end time, and its pot is the minimum bid times its
/// number of bids.
pub proof fn lemma_new_contest_takes_bids(contest: Contest, current_time: i64)
    requires
        contest.status == ContestStatus::Active,
        contest.total_pot == 0,
        contest.total_bids == 0,
    ensures
        bidding_check(contest, current_time) is Ok <==> current_time <= contest.bidding_end_time,
        contest.total_pot == contest.minimum_bid * contest.total_bids,
{
}

/// Once a contest is finalized it takes no bids, and it cannot be finalized again.
pub proof fn lemma_finalized_contest_is_closed(contest: Contest, actual_count: u32, current_time: i64)
    requires
        finalize_check(contest) is Ok,
    ensures
        bidding_check(finalized(contest, actual_count), current_time) == Err::<(), ContestError>(
            ContestError::ContestNotActive,
        ),
        finalize_check(finalized(contest, actual_count)) == Err::<(), ContestError>(
            ContestError::InvalidStatus,
        ),
{
}

/// With the buckets that `create_buckets` stores for ranks `1..=max_rank`, an
/// unpaid bid is paid exactly when its rank is in `1..=max_rank`, and then it
/// is paid by the bucket that holds its rank.
pub proof fn lemma_ranked_bids_are_paid(
    max_rank: u32,
    minimum_bid: u64,
    weight_prizes: Seq<u64>,
    bid: Bid,
    rank: u32,
)
    requires
        max_rank < first_rank(33),
        weight_prizes.len() == layout_len(max_rank as int),
        bid.winning == 0,
    ensures
        payout(bid, stored_layout(max_rank as int, minimum_bid, weight_prizes), rank) is Some
            <==> 1 <= rank <= max_rank,
        rank_bucket(stored_layout(max_rank as int, minimum_bid, weight_prizes), rank as int) matches Some(b)
            ==> b.covers(rank as int) && payout(
            bid,
            stored_layout(max_rank as int, minimum_bid, weight_prizes),
            rank,
        ) == Some(winning_amount(b) as u64),
{
    lemma_stored_layout_finds_rank(max_rank, minimum_bid, weight_prizes, rank as int);
}

/// A bid that has been paid a non-zero amount is not paid again, whatever
/// rank or buckets come with the next payout.
pub proof fn lemma_bid_paid_once(
    bid: Bid,
    buckets: Seq<Bucket>,
    rank: u32,
    later_buckets: Seq<Bucket>,
    later_rank: u32,
)
    requires
        payout(bid, buckets, rank) matches Some(w) && w > 0,
    ensures
        payout(paid_bid(bid, rank, payout(bid, buckets, rank).unwrap()), later_buckets, later_rank)
            is None,
{
}

} // verus!
