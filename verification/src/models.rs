//! The records the core works on, as plain values.

pub mod lease;
pub mod organization;
pub mod property;
pub mod receipt;
pub mod tenant;
pub mod user;
