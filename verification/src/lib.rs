//! A verified core for a small movie-list service: session-based
//! authentication resolution and reconstruction of nested list summaries
//! from a flat, sorted relational join.

pub mod aggregate;
pub mod auth;
pub mod db;
pub mod model;
pub mod session;
