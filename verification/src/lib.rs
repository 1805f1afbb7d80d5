//! Contest, bid and prize-bucket logic of the social prediction game.
//!
//! Players bid a contest's minimum amount on a predicted count; when the
//! contest is finalized with the real count, ranked players are paid from
//! prize buckets laid out over the ranks.

pub mod pubkey;
pub mod model;
pub mod prize_layout;
pub mod instructions;
pub mod nft;

pub use pubkey::Pubkey;
