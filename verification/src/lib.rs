//! Catalog synchronisation for a music-streaming service: the credential
//! exchange, the decoding of new releases and track listings, and the
//! order in which the requests of one synchronisation run are made.
//!
//! The library performs no I/O. It says which request comes next and
//! decodes each reply; the caller sends the requests.

pub mod album;
pub mod auth;
pub mod color;
pub mod credentials;
pub mod error;
pub mod json;
pub mod market;
pub mod report;
pub mod song;
pub mod spotify;
