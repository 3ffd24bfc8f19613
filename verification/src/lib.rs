//! Bridges a publish/subscribe namespace to a polling spreadsheet host.
//!
//! The host registers topics bound to data paths; the `Server` keeps one
//! pending event per topic, fans every subscription event out to the topics
//! that share the subscription, and tells the host when data is ready. On a
//! pull the pending events are handed over and turned into cell values.

pub mod config;
pub mod dispatch;
pub mod glue;
pub mod model;
pub mod registry;
pub mod safearray;
pub mod server;
pub mod time;
pub mod value;
pub mod variant;
