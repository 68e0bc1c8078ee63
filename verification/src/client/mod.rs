//! The command line of the client.
pub mod auth;
pub mod laws;
pub mod names;
