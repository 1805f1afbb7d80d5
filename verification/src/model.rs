//! Account data and error kinds of the game.

pub mod admin;
pub mod bid;
pub mod bid_error;
pub mod bucket;
pub mod contest;
pub mod contest_bucket;
pub mod contest_error;
pub mod contest_status;
pub mod program_error;

pub use admin::AdminAccount;
pub use bid::Bid;
pub use bid_error::BidError;
pub use bucket::{Bucket, TempBucket};
pub use contest::Contest;
pub use contest_bucket::ContestBucket;
pub use contest_error::ContestError;
pub use contest_status::ContestStatus;
pub use program_error::{AccountConstraintError, ProgramErrorCode};
