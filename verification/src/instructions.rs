//! The program's instructions, each on the accounts it reads and writes.

pub mod admin;
pub mod bid;
pub mod contest;

pub use admin::{InitializeAdmin, SetContestAccount, initialize_admin, set_contest_account};
pub use bid::{EditBid, PlaceBid, edit_bid, place_bid};
pub use contest::{
    CreateBucket, CreateContest, DistributeWinning, FinalizeContest, create_buckets,
    create_contest, distribute_winning, finalize_contest,
};
