//! A six-seat blackjack table whose rounds move staked funds between the
//! players and a shared pool, together with the ledger that holds the pool.

pub mod bank;
pub mod cards;
pub mod chain;
pub mod error;
pub mod game;
