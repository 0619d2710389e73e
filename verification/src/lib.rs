//! Core logic of a small ticket web service: request context, the error
//! taxonomy and its client-facing mapping, the auth-token grammar, the
//! in-memory ticket store, and the request-log / error-response builder.
//! The HTTP transport around it lives outside this crate.

pub mod auth;
pub mod context;
pub mod error;
pub mod hello;
pub mod log;
pub mod login;
pub mod model;
