//! The credentials of users: what their tokens say, whom they may be given to, and how they are
//! kept.
pub mod cipher;
pub mod domain;
pub mod domain_laws;
pub mod error;
pub mod identities;
pub mod jwt;
pub mod secret_laws;
pub mod secret_store;
pub mod store_key;
pub mod store_laws;
pub mod token_laws;
pub mod token_map;
