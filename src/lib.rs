//! Verified core of a TLS-terminating reverse proxy that obtains and rotates its
//! certificates through ACME HTTP-01 challenges.

pub mod challenge;
pub mod domains;
pub mod redirect;
pub mod text;
pub mod proxy;
pub mod tunnel;
pub mod resolver;
pub mod acme;
