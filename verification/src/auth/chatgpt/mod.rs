//! Logging in with a ChatGPT account: an authorization code with a proof key, a
//! callback on the local machine, and refreshed tokens.

pub mod login;
pub mod refresh;
pub mod token;
