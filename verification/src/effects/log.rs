//! The effect that records events in the log.

use crate::effects::{Effect, EffectError, EffectResult};
use crate::event::Event;
use vstd::prelude::*;

verus! {

/// Records events in the log, for debugging and audit trails.
#[derive(Debug)]
pub struct LogEffect {
    /// Stands in front of what is logged.
    pub prefix: String,
}

impl LogEffect {
    /// A log effect with the prefix `event`.
    pub fn new() -> (r: Self)
        ensures
            r.prefix@ == "event"@,
    {
        LogEffect { prefix: "event".to_string() }
    }

    /// A log effect with a prefix of its own, which tells it from others.
    pub fn with_prefix(prefix: &str) -> (r: Self)
        ensures
            r.prefix@ == prefix@,
    {
        LogEffect { prefix: prefix.to_string() }
    }

    /// What is reported of an event that was logged.
    pub open spec fn report(self, event: Event) -> Seq<char> {
        "Logged event "@ + event.source@ + "/"@ + event.event_type@ + " with prefix '"@
            + self.prefix@ + "'"@
    }

    /// The line that goes into the log for an event.
    pub open spec fn line(self, event: Event) -> Seq<char> {
        "["@ + self.prefix@ + "] Processed: "@ + event.source@ + "/"@ + event.event_type@
    }

    /// The line that goes into the log for an event.
    pub fn log_line(&self, event: &Event) -> (r: String)
        ensures
            r@ == self.line(*event),
    {
        "[".to_string().concat(self.prefix.as_str()).concat("] Processed: ").concat(
            event.source.as_str(),
        ).concat("/").concat(event.event_type.as_str())
    }

    /// Reports that an event was logged. This never fails.
    pub fn execute(&self, event: &Event) -> (r: Result<EffectResult, EffectError>)
        ensures
            r matches Ok(result) && result.effect_name@ == "log"@ && result.message@ == self.report(
                *event,
            ) && result.metadata is None,
    {
        let message = "Logged event ".to_string().concat(event.source.as_str()).concat("/").concat(
            event.event_type.as_str(),
        ).concat(" with prefix '").concat(self.prefix.as_str()).concat("'");
        Ok(EffectResult::success(self.name(), message.as_str()))
    }
}

impl Clone for LogEffect {
    /// The clone has the same prefix.
    fn clone(&self) -> (r: Self)
        ensures
            r == *self,
    {
        LogEffect { prefix: self.prefix.clone() }
    }
}

impl Default for LogEffect {
    /// A log effect with the prefix `event`.
    fn default() -> (r: Self)
        ensures
            r.prefix@ == "event"@,
    {
        Self::new()
    }
}

impl Effect for LogEffect {
    open spec fn effect_name(&self) -> Seq<char> {
        "log"@
    }

    fn name(&self) -> (r: &str) {
        "log"
    }
}

} // verus!
