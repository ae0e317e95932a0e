//! Leaderboard aggregation for a coding-time chat bot: member discovery,
//! two-tier caching and ranking, written as verified decision logic that an
//! outer driver feeds with the results of network and store operations.

pub mod codec;
pub mod config;
pub mod models;
pub mod ranking;
pub mod protocol;
pub mod members;
pub mod scraper;
pub mod commands;
pub mod redis_client;
pub mod utils;
