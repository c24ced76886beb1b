//! The credentials of the providers that a user can log in to.

pub mod chatgpt;
pub mod model;
pub mod provider;
