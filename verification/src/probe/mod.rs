//! The probes' results and the pure decisions taken on them.

pub mod headers;
pub mod tech;
pub mod http;
pub mod dns;
pub mod tls;
pub mod redirect;
pub mod rdap;
pub mod rdap_value;
