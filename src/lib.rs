//! Wallets and the miners attached to them: storage rows, presentation views,
//! and the repository logic that joins, groups and aggregates them.
//!
//! Storage itself is reached by the caller: each repository operation takes
//! what the store returned (rows, or a fault) and decides the result.
pub mod ids;
pub mod miner;
pub mod wallet;
