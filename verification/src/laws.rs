//! What holds of the store across its operations, proved over the tables.

pub mod accounts;
pub mod handles;
pub mod hashing;
