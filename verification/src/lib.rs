//! Choosing, connecting and reaching the providers of language models.
//!
//! The library decides and computes; it does no input or output. What it has to
//! know from outside (files, the environment, the time, answers of servers) it
//! takes as arguments, and what is to be done outside it gives back as values.

use vstd::prelude::*;

pub mod auth;
pub mod catalog;
pub mod efforts;
pub mod encoding;
pub mod extensions;
pub mod headers;
pub mod json;
pub mod models;
pub mod openai_models;
pub mod ordered;
pub mod privacy;
pub mod providers;
pub mod records;
pub mod responses_websocket;
pub mod sampling;
pub mod session_config;
pub mod slash;
pub mod status_line;
pub mod text;
pub mod urls;

verus! {

} // verus!
