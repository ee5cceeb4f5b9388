//! The blackjack table: its data, its stored state and its rules.

pub mod contract;
pub mod laws;
pub mod model;
pub mod msg;
pub mod state;
pub mod validate;
