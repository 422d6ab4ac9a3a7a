//! Verified core of `eproxy`, a local HTTP forwarder that relays requests to an
//! upstream HTTPS endpoint over a pinned IP route while keeping TLS SNI and the
//! HTTP `Host` header on the upstream domain.

pub mod address;
pub mod config;
pub mod daemon;
pub mod install;
pub mod proxy;
pub mod text;
pub mod upstream_url;
