//! The decision core of a JSON-RPC gateway that forwards requests to several
//! upstream providers.
pub mod gateway;
pub mod health;
pub mod json;
pub mod payload;
pub mod settings;
pub mod text;
pub mod time;
