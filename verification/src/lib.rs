//! Verified core of a live network-diagnostics dashboard.
//!
//! The crate contains the engine behind the dashboard's panels: a hop-by-hop
//! latency prober and its per-hop statistics fold, a link-layer capture
//! classifier with shared traffic counters, and the aggregation layer that
//! folds every producer's output into bounded time-series buffers.  All
//! socket, capture and terminal I/O lives outside this crate; the functions
//! here are pure state transitions with proved contracts.

pub mod agg;
pub mod args;
pub mod capture;
pub mod conn;
pub mod dns;
pub mod filter;
pub mod history;
pub mod hop;
pub mod net;
pub mod ping;
pub mod probe;
pub mod screen;
pub mod strfmt;
pub mod summary;
