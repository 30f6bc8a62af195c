pub mod account;
pub mod amount;
pub mod laws;
pub mod processor;
pub mod transaction;
