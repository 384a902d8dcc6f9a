//! Stateless capability signing and proof-of-work anti-spam for a comment
//! system: every token carries its own parameters and is bound to one shared
//! secret, so that it can be checked without any stored session.

pub mod config;
pub mod helpers;
pub mod routes;
