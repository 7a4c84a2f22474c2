//! The identities and messages that the server's actors exchange.
pub mod message;
pub mod userinfo;
