//! A ledger of points that members award one another, and the payout of a
//! pool of funds in proportion to the points each member has earned.

pub mod account;
pub mod errors;
pub mod events;
pub mod points;
pub mod tally;
pub mod share;
pub mod payout;
pub mod ledger;
pub mod membership;
pub mod award;
pub mod distribution;
