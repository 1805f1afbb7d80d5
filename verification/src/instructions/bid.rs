//! Placing and editing bids.

use vstd::prelude::*;
use crate::pubkey::Pubkey;
use crate::model::admin::AdminAccount;
use crate::model::bid::Bid;
use crate::model::contest::Contest;
use crate::model::contest_error::ContestError;
use crate::model::contest_status::ContestStatus;
use crate::model::program_error::AccountConstraintError;

verus! {

/// The accounts of `place_bid`.
#[derive(Debug)]
pub struct PlaceBid {
    pub contest: Contest,
    /// The new bid.
    pub bid: Bid,
    pub user: Pubkey,
    /// The account that receives the bid's lamports.
    pub contest_account: Pubkey,
    pub admin_account: AdminAccount,
}

/// The accounts of `edit_bid`.
#[derive(Debug)]
pub struct EditBid {
    pub contest: Contest,
    pub bid: Bid,
    pub user: Pubkey,
}

impl PlaceBid {
    /// The contest account must be the one that the admin account names.
    pub fn check_constraints(&self) -> (r: Result<(), AccountConstraintError>)
        ensures
            r is Ok <==> self.admin_account.contest_account@ == self.contest_account@,
            r is Err ==> r == Err::<(), AccountConstraintError>(AccountConstraintError::HasOne),
    {
        if self.admin_account.contest_account.same_as(&self.contest_account) {
            Ok(())
        } else {
            Err(AccountConstraintError::HasOne)
        }
    }
}

impl EditBid {
    /// Only the user who placed the bid may edit it.
    pub fn check_constraints(&self) -> (r: Result<(), AccountConstraintError>)
        ensures
            r is Ok <==> self.bid.user@ == self.user@,
            r is Err ==> r == Err::<(), AccountConstraintError>(AccountConstraintError::HasOne),
    {
        if self.bid.user.same_as(&self.user) {
            Ok(())
        } else {
            Err(AccountConstraintError::HasOne)
        }
    }
}

/// Whether a contest takes bids at `current_time`: it must be active, and its
/// bidding must not have ended.
pub open spec fn bidding_check(contest: Contest, current_time: i64) -> Result<(), ContestError> {
    if contest.status != ContestStatus::Active {
        Err(ContestError::ContestNotActive)
    } else if current_time > contest.bidding_end_time {
        Err(ContestError::BiddingClosed)
    } else {
        Ok(())
    }
}

/// The contest after one more bid of its minimum amount.
pub open spec fn with_bid_added(contest: Contest) -> Contest {
    Contest {
        total_pot: (contest.total_pot + contest.minimum_bid) as u64,
        total_bids: (contest.total_bids + 1) as u64,
        ..contest
    }
}

/// The inputs on which a bid can be counted without overflow.
pub open spec fn bid_fits(contest: Contest) -> bool {
    contest.total_pot + contest.minimum_bid <= u64::MAX && contest.total_bids + 1 <= u64::MAX
}

fn check_bidding(contest: &Contest, current_time: i64) -> (r: Result<(), ContestError>)
    ensures
        r == bidding_check(*contest, current_time),
{
    if contest.status != ContestStatus::Active {
        return Err(ContestError::ContestNotActive);
    }
    if current_time > contest.bidding_end_time {
        return Err(ContestError::BiddingClosed);
    }
    Ok(())
}

/// Records the user's bid and adds the contest's minimum bid to the pot.
///
/// Returns the lamports that the user must transfer to the contest account.
pub fn place_bid(ctx: &mut PlaceBid, predicted_count: u32, current_time: i64) -> (r: Result<
    u64,
    ContestError,
>)
    requires
        bidding_check(old(ctx).contest, current_time) is Ok ==> bid_fits(old(ctx).contest),
    ensures
        match bidding_check(old(ctx).contest, current_time) {
            Err(e) => r == Err::<u64, ContestError>(e) && *final(ctx) == *old(ctx),
            Ok(_) => {
                &&& r == Ok::<u64, ContestError>(old(ctx).contest.minimum_bid)
                &&& final(ctx).contest == with_bid_added(old(ctx).contest)
                &&& final(ctx).bid == (Bid {
                    user: old(ctx).user,
                    predicted_count,
                    ..old(ctx).bid
                })
                &&& final(ctx).user == old(ctx).user
                &&& final(ctx).contest_account == old(ctx).contest_account
                &&& final(ctx).admin_account == old(ctx).admin_account
            },
        },
        // A bid is taken exactly while the contest is active and its bidding
        // has not ended, whatever the pot and the number of bids so far.
        r is Ok <==> (old(ctx).contest.status == ContestStatus::Active && current_time
            <= old(ctx).contest.bidding_end_time),
        old(ctx).contest.status != ContestStatus::Active ==> r == Err::<u64, ContestError>(
            ContestError::ContestNotActive,
        ),
        old(ctx).contest.status == ContestStatus::Active && current_time
            > old(ctx).contest.bidding_end_time ==> r == Err::<u64, ContestError>(
            ContestError::BiddingClosed,
        ),
        r is Ok ==> final(ctx).contest.total_pot == old(ctx).contest.total_pot
            + old(ctx).contest.minimum_bid && final(ctx).contest.total_bids
            == old(ctx).contest.total_bids + 1,
        r is Err ==> *final(ctx) == *old(ctx),
        // The pot stays the minimum bid times the number of bids.
        old(ctx).contest.total_pot == old(ctx).contest.minimum_bid * old(ctx).contest.total_bids
            ==> final(ctx).contest.total_pot == final(ctx).contest.minimum_bid
            * final(ctx).contest.total_bids,
{
    match check_bidding(&ctx.contest, current_time) {
        Err(e) => return Err(e),
        Ok(()) => {},
    }
    let lamports = ctx.contest.minimum_bid;

    ctx.bid.user = ctx.user;
    ctx.bid.predicted_count = predicted_count;

    ctx.contest.total_pot = ctx.contest.total_pot + lamports;
    ctx.contest.total_bids = ctx.contest.total_bids + 1;
    proof {
        vstd::arithmetic::mul::lemma_mul_is_distributive_add(
            old(ctx).contest.minimum_bid as int,
            old(ctx).contest.total_bids as int,
            1,
        );
    }
    Ok(lamports)
}

/// Changes the prediction of a bid while bidding is open.
pub fn edit_bid(ctx: &mut EditBid, predicted_count: u32, current_time: i64) -> (r: Result<
    (),
    ContestError,
>)
    ensures
        match bidding_check(old(ctx).contest, current_time) {
            Err(e) => r == Err::<(), ContestError>(e) && *final(ctx) == *old(ctx),
            Ok(_) => {
                &&& r is Ok
                &&& final(ctx).contest == old(ctx).contest
                &&& final(ctx).bid == (Bid { predicted_count, ..old(ctx).bid })
                &&& final(ctx).user == old(ctx).user
            },
        },
        r is Ok <==> (old(ctx).contest.status == ContestStatus::Active && current_time
            <= old(ctx).contest.bidding_end_time),
        r is Ok ==> final(ctx).bid.predicted_count == predicted_count,
        r is Err ==> *final(ctx) == *old(ctx),
{
    match check_bidding(&ctx.contest, current_time) {
        Err(e) => return Err(e),
        Ok(()) => {},
    }
    ctx.bid.predicted_count = predicted_count;
    Ok(())
}

/// Bidding is open exactly while the contest is active and the time is at or
/// before its bidding end time, whatever its pot and number of bids; an
/// inactive contest is refused as not active, a late bid as closed.
pub proof fn lemma_bidding_window(contest: Contest, current_time: i64)
    ensures
        bidding_check(contest, current_time) is Ok <==> (contest.status == ContestStatus::Active
            && current_time <= contest.bidding_end_time),
        contest.status != ContestStatus::Active ==> bidding_check(contest, current_time)
            == Err::<(), ContestError>(ContestError::ContestNotActive),
        contest.status == ContestStatus::Active && current_time > contest.bidding_end_time
            ==> bidding_check(contest, current_time) == Err::<(), ContestError>(
            ContestError::BiddingClosed,
        ),
{
}

} // verus!
