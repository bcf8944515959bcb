//! Turns the newest row of an append-only CSV source into Prometheus text-exposition
//! metrics, and keeps the rendered snapshot for the readers that ask for it.
//!
//! The library computes; it neither reads files nor listens on sockets. Its caller
//! hands it the bytes of the source and reports what happened outside, and is told
//! what to serve and what to do next.

pub mod cache;
pub mod config;
pub mod format;
pub mod normalize;
pub mod numeric;
pub mod server;
pub mod source;
pub mod text;
pub mod watch;

pub use cache::Prom;
pub use config::{Config, Destination, Input, Output};
pub use format::format_record;
pub use normalize::normalize_string;
pub use numeric::is_numeric;
pub use server::{respond, route, Reply, Route};
pub use source::{extract, parse_input, ExtractionError};
pub use watch::{monitor_input, WatchAction, WatchEvent, WatchState, WatchStep};
