//! A library-lending service: opaque identifiers, credential rules,
//! password hashing, session tokens, roles and the decisions behind each
//! request handler. Storage and HTTP live around this crate.

pub mod auth;
pub mod catalog;
pub mod client;
pub mod config;
pub mod digits;
pub mod error;
pub mod id;
pub mod secret;
