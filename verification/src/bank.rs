//! The ledger: the component that holds the shared pool and pays from it on
//! the table's instruction.

pub mod contract;
pub mod msg;
pub mod state;
