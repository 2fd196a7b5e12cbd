//! The MySQL side: what a row's cells look like to a reader, and what a bind
//! looks like to the server.

pub mod cancel_token;
pub mod row;
pub mod serialize;
