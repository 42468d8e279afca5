pub mod client;
pub mod report;
pub mod transactions;
