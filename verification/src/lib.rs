//! Event processing engine.
//!
//! ```text
//! Client -> HTTP API -> Redis stream -> worker -> router -> effects
//! ```
//!
//! - [`event`]: the events that flow through the system
//! - [`server`]: the HTTP API's rules
//! - [`worker`]: reading events from the stream
//! - [`router`]: which effects an event triggers
//! - [`effects`]: what is done about an event
//! - [`queue`]: a plain list in place of the stream
//! - [`dlq`]: the queue for events that failed
//! - [`config`]: the configuration
//! - [`shutdown`]: graceful shutdown
//! - [`laws`]: what the parts promise together

use vstd::prelude::*;

pub mod ambient;
pub mod config;
pub mod dlq;
pub mod duration;
pub mod effects;
pub mod event;
pub mod json;
pub mod laws;
pub mod placeholders;
pub mod queue;
pub mod router;
pub mod server;
pub mod shutdown;
pub mod stream;
pub mod table;
pub mod text;
pub mod worker;

pub use config::SynapseConfig;
pub use dlq::{DeadLetterQueue, DlqError, DLQ_STREAM_NAME};
pub use effects::{Effect, EffectError, EffectResult};
pub use event::Event;
pub use router::Router;
pub use shutdown::ShutdownSignal;

verus! {

/// Name of the Redis stream that events wait in.
pub const EVENT_STREAM_NAME: &'static str = "synapse:events";

/// Name of the consumer group that workers join by default.
pub const DEFAULT_CONSUMER_GROUP: &'static str = "synapse_workers";

} // verus!
