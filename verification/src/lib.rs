//! Verified core of the Fluxgate API gateway: the semantic token bucket,
//! API-key authentication, round-robin routing, the DNS-over-HTTPS
//! resolver and the developer-portal credential checks.

pub mod token_bucket;
pub mod text;
pub mod digest;
pub mod auth;
pub mod rate_limiter;
pub mod admin;
pub mod portal;
pub mod proxy;
pub mod dns;
pub mod doh;
pub mod config;
