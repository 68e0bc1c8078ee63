//! Authentication and authorization of a revision control system: which tokens are accepted, what
//! they allow, how they are kept, and who owns and may delete a repository.
//!
//! Files, networks and processes are left to the program around the library. Where work alternates
//! with such questions, the library is a machine that asks one question at a time and takes its
//! answer.
pub mod allocator;
pub mod client;
pub mod credential;
pub mod ids;
pub mod jose;
pub mod model;
pub mod server;
pub mod status;
pub mod text;
pub mod text_laws;
