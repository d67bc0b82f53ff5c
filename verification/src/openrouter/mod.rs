//! The request and response vocabulary of the OpenRouter chat-completion
//! API, the client configuration, and the pieces of the wire format that
//! are decided by hand rather than by a derive.

pub mod config;
pub mod models;
pub mod providers;
pub mod request;
pub mod response;
pub mod wire;
