//! Startup and teardown logic of a TUN-based proxy client: typed configuration
//! loading, address parsing, the resolver override guard and the ordered
//! interface setup.

pub mod text;
pub mod addr;
pub mod cipher;
pub mod config;
pub mod dns;
pub mod netif;
