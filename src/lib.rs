pub mod balances;
pub mod error;
pub mod reserve;
pub mod supply;
pub mod vault;
pub mod program;
pub mod laws;
