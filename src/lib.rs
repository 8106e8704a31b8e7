//! A vote-per-address service: one vote per client address for a username,
//! and a ranked, paginated leaderboard of the votes.

pub mod address;
pub mod leaderboard;
pub mod ranking;
pub mod response;
pub mod store;
pub mod text;
pub mod user;
pub mod verification;
pub mod vote;
pub mod voter;
