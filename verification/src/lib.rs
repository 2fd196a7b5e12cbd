//! Turso's side of a query builder: how values travel, how SQL is rendered,
//! which statements are worth preparing, and what a transaction may do next.
//!
//! Everything here computes on plain values. Opening a database, running a
//! statement and awaiting a row happen around this crate, not in it.

pub mod array_comparison;
pub mod backend;
pub mod bind;
pub mod building;
pub mod calls;
pub mod classes;
pub mod connecting;
pub mod connection;
pub mod date_and_time;
pub mod deserialize;
pub mod error;
pub mod expr;
pub mod mysql;
pub mod pg;
pub mod pooled_connection;
pub mod pragma;
pub mod probe;
pub mod query;
pub mod query_fragments;
pub mod reading;
pub mod round_trips;
pub mod row;
pub mod serialize;
pub mod sql_types;
pub mod statement_cache;
pub mod string_list;
pub mod text;
pub mod transaction;
pub mod types;
pub mod union;
pub mod uuid;
pub mod value;
