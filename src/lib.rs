//! Geotagged environmental observations, peer votes on their validity, and
//! token rewards once a majority of votes confirms them.
//!
//! - [`votes`]: one vote per user and submission, tallies.
//! - [`submissions`]: observation records and their lifecycle.
//! - [`challenges`]: time-bounded, geofenced campaigns.
//! - [`users`]: profiles, payout addresses, balances, roles.
//! - [`dao`]: the stores together; finalizing and rewarding.
//! - [`leaderboard`], [`city_map`]: ranked and grouped views.
//! - [`ledger`], [`weather`]: what is exchanged with outside services.
//! - [`external`]: the outside calls relied on, and what is assumed of them.
pub mod challenges;
pub mod city_map;
pub mod dao;
pub mod external;
pub mod leaderboard;
pub mod ledger;
pub mod submissions;
pub mod users;
pub mod votes;
pub mod weather;
