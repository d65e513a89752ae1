//! Account lifecycle core: registration checks, password hashing, signed
//! expiring tokens and the account store's state transitions.
pub mod api;
pub mod auth;
pub mod hashing;
pub mod repository;
pub mod text;
pub mod token;
pub mod validation;
