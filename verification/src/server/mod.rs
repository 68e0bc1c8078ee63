//! Decisions of the repository server.
pub mod creation_laws;
pub mod creation_v1_laws;
pub mod deletion_laws;
pub mod health;
pub mod jwk;
pub mod jwt;
pub mod key_laws;
pub mod rebac;
pub mod repository_create;
pub mod repository_create_v1;
pub mod repository_delete;
pub mod repository_metadata_get;
pub mod service_laws;
pub mod verification_laws;
