//! Account management core: salted password hashing, login verification and
//! session handles that never collide.
//!
//! The store, [`database::Database`], holds two tables, accounts and handles,
//! and keeps them consistent at all times: no username, no identifier and no
//! handle value twice, and no handle without its account. What each operation
//! returns and what it does to the tables is stated over their mathematical
//! form, [`tables::Tables`], and proved. [`laws`] holds what follows across
//! operations: a created account logs in, a minted handle is new and belongs
//! to its account alone, a deleted handle is gone.
//!
//! The store lives in memory. Keeping it between runs is the caller's part:
//! [`database::Database::users`] and [`database::Database::handles`] hand the
//! rows out, and [`database::Database::from_rows`] takes rows back if they are
//! consistent.
//!
//! Three things come from other crates and are believed, not proved: the
//! SHA-256 digest (sha2), the text of an instant and the current time
//! (chrono), and random numbers (rand). Each is called in one place, in
//! [`hashing`], [`clock`] and [`random`].

pub mod account;
pub mod clock;
pub mod database;
pub mod handle;
pub mod hashing;
pub mod laws;
pub mod logger;
pub mod random;
pub mod routes;
pub mod tables;
