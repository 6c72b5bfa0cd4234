//! Request-processing plugins of a reverse-proxy gateway: IP restriction,
//! key authentication and request ids, with the configuration they are built
//! from and the short-circuit responses they return.

pub mod config;
pub mod ip_restriction;
pub mod ip_rules;
pub mod ipv6;
pub mod key_auth;
pub mod provider;
pub mod request_id;
pub mod response;
pub mod text;

