//! An in-memory calendar of dated tasks and the request handling around it.
//!
//! `model` holds the mathematical model of the store, `laws` what holds of
//! its operations, `store` the executable store, `text` and `json` the wire
//! helpers, and `http` the routing from a request to a response.

pub mod model;
pub mod laws;
pub mod store;
pub mod text;
pub mod json;
pub mod http;
