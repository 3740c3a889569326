//! An HTTP/1.x forwarding proxy core: an ordered header table, incremental
//! request parsing with target resolution, the per-connection read and
//! dispatch decisions, and the upstream client's forwarding decisions.

pub mod bytes;
pub mod headers;
pub mod request;
pub mod client;
pub mod server;
pub mod reply;
