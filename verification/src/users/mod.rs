//! The users who own items.

pub mod user;
