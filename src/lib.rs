//! The core of a fixed-size worker pool in front of a small web server.
//!
//! `channel` is the first-in first-out handoff between submitters and
//! workers; `pool` holds the pool's decisions (which worker runs which job,
//! when a worker waits or exits, what shutdown discards); `http` routes a
//! request and frames the response. Threads, locks and sockets stay with the
//! program that drives these types.

pub mod channel;
pub mod http;
pub mod pool;
