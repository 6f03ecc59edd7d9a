//! The credential and the exchange that obtains it.

pub mod auth_client;
pub mod auth_data;

pub use auth_client::AuthClient;
pub use auth_data::AuthData;
