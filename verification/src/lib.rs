//! A caching, filtering DNS forwarder core.
//!
//! The crate holds the decision logic of a small DNS forwarder: a static
//! denylist, a TTL-aware answer cache with a periodic sweep, and the
//! per-datagram pipeline that turns a decoded query into a response or into a
//! request for one upstream resolution.  Wire-format decoding and encoding are
//! delegated to the `trust_dns_proto` crate behind a few trusted wrappers; the
//! sockets, the upstream transport and the task plumbing live outside this
//! crate.

pub mod cache;
pub mod config;
pub mod denylist;
pub mod domain;
pub mod handler;
pub mod message;

pub use config::Config;
pub use config::ConfigHost;
