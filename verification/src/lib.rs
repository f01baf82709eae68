//! Authentication and resource-ownership core of a property-management backend.
//!
//! The crate holds the decisions of the backend: hashing and checking
//! passwords, issuing and validating bearer tokens, recovering the caller from
//! a request, and deciding who may touch which resource when resources belong
//! either to a user or to an organization with several members.

pub mod accounts;
pub mod dates;
pub mod error;
pub mod identity;
pub mod ids;
pub mod leases;
pub mod listing;
pub mod models;
pub mod organizations;
pub mod ownership;
pub mod password;
pub mod portfolio;
pub mod properties;
pub mod receipts;
pub mod retry;
pub mod seqs;
pub mod tenants;
pub mod text;
pub mod token;
