//! Core event types.
//!
//! An [`Event`] comes in over HTTP, waits in a Redis stream and is processed by
//! a worker.

use crate::json::{Json, JsonView};
use vstd::prelude::*;

verus! {

/// The value of an event.
#[verifier::ext_equal]
pub struct EventView {
    pub source: Seq<char>,
    pub event_type: Seq<char>,
    pub payload: JsonView,
    pub correlation_id: Option<Seq<char>>,
}

impl EventView {
    /// The JSON document that describes an event.
    pub open spec fn document(self) -> JsonView {
        let document = JsonView::object().with("source"@, JsonView::Text(self.source)).with(
            "eventType"@,
            JsonView::Text(self.event_type),
        ).with("payload"@, self.payload);
        match self.correlation_id {
            Some(id) => document.with("correlationId"@, JsonView::Text(id)),
            None => document,
        }
    }
}

/// An event flowing through the system.
#[derive(Debug)]
pub struct Event {
    /// Origin system that emitted this event (such as `minecraft`).
    pub source: String,
    /// What happened, used for routing (such as `user.created`).
    pub event_type: String,
    /// Arbitrary JSON data.
    pub payload: Json,
    /// The id by which the event is traced through the system, where it has one.
    pub correlation_id: Option<String>,
}

/// The characters of a string that may be missing.
pub open spec fn text_option(s: Option<String>) -> Option<Seq<char>> {
    match s {
        Some(t) => Some(t@),
        None => None,
    }
}

impl View for Event {
    type V = EventView;

    open spec fn view(&self) -> EventView {
        EventView {
            source: self.source@,
            event_type: self.event_type@,
            payload: self.payload@,
            correlation_id: text_option(self.correlation_id),
        }
    }
}

impl Event {
    /// An event without a correlation id.
    pub fn new(source: &str, event_type: &str, payload: Json) -> (r: Event)
        ensures
            r@ == (EventView {
                source: source@,
                event_type: event_type@,
                payload: payload@,
                correlation_id: None,
            }),
    {
        Event {
            source: source.to_string(),
            event_type: event_type.to_string(),
            payload,
            correlation_id: None,
        }
    }

    /// The JSON document that describes the event.
    pub fn to_json(&self) -> (r: Json)
        ensures
            r@ == self@.document(),
    {
        let document = Json::object().with("source", Json::text(self.source.as_str())).with(
            "eventType",
            Json::text(self.event_type.as_str()),
        ).with("payload", self.payload.clone());
        match &self.correlation_id {
            Some(id) => document.with("correlationId", Json::text(id.as_str())),
            None => document,
        }
    }
}

impl Clone for Event {
    /// The clone of an event is the same event.
    fn clone(&self) -> (r: Self)
        ensures
            r@ == self@,
    {
        Event {
            source: self.source.clone(),
            event_type: self.event_type.clone(),
            payload: self.payload.clone(),
            correlation_id: self.correlation_id.clone(),
        }
    }
}

/// An event with the id of the stream entry that it was read from.
#[derive(Debug)]
pub struct StreamEvent {
    /// Id of the entry in the Redis stream (such as `1234567890123-0`).
    pub id: String,
    /// The event data.
    pub event: Event,
}

impl StreamEvent {
    /// Pairs an event with the id of its stream entry.
    pub fn new(id: String, event: Event) -> (r: Self)
        ensures
            r.id == id,
            r.event == event,
    {
        StreamEvent { id, event }
    }
}

impl Clone for StreamEvent {
    /// The clone holds the same id and the same event.
    fn clone(&self) -> (r: Self)
        ensures
            r.id@ == self.id@,
            r.event@ == self.event@,
    {
        StreamEvent { id: self.id.clone(), event: self.event.clone() }
    }
}

} // verus!
