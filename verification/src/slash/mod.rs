//! The slash commands that choose providers, models and efforts.

pub mod command;
pub mod connect;
pub mod effort_levels;
pub mod fast;
pub mod provider;
