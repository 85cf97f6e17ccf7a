//! The rules of a poker training server: hand strength, strategy tables,
//! simulated opponents, live duels, accounts and friendships.

pub mod accounts;
pub mod bot;
pub mod cards;
pub mod database;
pub mod duel;
pub mod friends;
pub mod lobby;
pub mod ranges;
pub mod single;
pub mod store;
pub mod strategy;
pub mod strength;
pub mod text;
pub mod wire;
