//! The persistent WebSocket transport for the Responses API.
//!
//! One connection is kept for a sampler session and used again for each request.
//! A request that only continues the exchange before it sends its new input and
//! names the response that it continues. An endpoint that cannot upgrade to a
//! WebSocket is served over HTTP for the rest of the session.

pub mod chaining;
pub mod failures;
pub mod reader;
pub mod state;
