//! The HTTP API: who may call it, what it puts into the event stream and what it
//! answers.

use crate::ambient::{current_timestamp, is_random_uuid, is_utc_timestamp, random_uuid};
use crate::event::{Event, EventView};
use crate::json::{compact_text, number_of, Json, JsonView};
use crate::stream::{command_of, flattened, words};
use crate::text::{decimal, decimal_text, same_text};
use crate::worker::{
    arrives, delivers, entry_event, is_readable, lemma_emitted_event_is_read, Fields,
};
use crate::EVENT_STREAM_NAME;
use vstd::prelude::*;

verus! {

/// The status of a request that was accepted for processing.
pub const ACCEPTED: u16 = 202;

/// The status of a request without a valid key.
pub const UNAUTHORIZED: u16 = 401;

/// The status of a request that failed on the server's side.
pub const INTERNAL_SERVER_ERROR: u16 = 500;

/// Whether a path is open to everyone.
pub open spec fn is_open_path(path: Seq<char>) -> bool {
    path == "/health"@ || path == "/metrics"@
}

/// Whether a request may pass: its path is open to everyone, or its
/// `Authorization` header is `Bearer` and the key.
pub open spec fn may_pass(path: Seq<char>, header: Option<Seq<char>>, api_key: Seq<char>) -> bool {
    is_open_path(path) || header == Some("Bearer "@ + api_key)
}

/// Lets a request pass or gives the status that it is refused with. `header` is
/// the request's `Authorization` header, where it has one that is text.
pub fn authorize(path: &str, header: Option<&str>, api_key: &str) -> (r: Result<(), u16>)
    ensures
        r is Ok <==> may_pass(
            path@,
            match header {
                Some(text) => Some(text@),
                None => None,
            },
            api_key@,
        ),
        r matches Err(status) ==> status == UNAUTHORIZED,
{
    if same_text(path, "/health") || same_text(path, "/metrics") {
        return Ok(());
    }
    match header {
        Some(text) => {
            let expected = "Bearer ".to_string().concat(api_key);
            if same_text(text, expected.as_str()) {
                Ok(())
            } else {
                Err(UNAUTHORIZED)
            }
        },
        None => Err(UNAUTHORIZED),
    }
}

/// The key that requests are checked against: the configured one, or `dev-key`.
pub fn api_key(configured: Option<&str>) -> (r: String)
    ensures
        match configured {
            Some(key) => r@ == key@,
            None => r@ == "dev-key"@,
        },
{
    match configured {
        Some(key) => key.to_string(),
        None => "dev-key".to_string(),
    }
}

/// The address to listen on: every interface, at the configured port or at 3000.
pub fn listen_address(port: Option<&str>) -> (r: String)
    ensures
        r@ == "0.0.0.0:"@ + (match port {
            Some(text) => text@,
            None => "3000"@,
        }),
{
    "0.0.0.0:".to_string().concat(
        match port {
            Some(text) => text,
            None => "3000",
        },
    )
}

/// What a health check answers, where `connected` says whether Redis replied.
pub fn health_check(connected: bool) -> (r: Result<Json, u16>)
    ensures
        r is Ok <==> connected,
        r matches Ok(body) ==> body@ == JsonView::object().with(
            "status"@,
            JsonView::Text("ok"@),
        ).with("redis"@, JsonView::Text("connected"@)),
        r matches Err(status) ==> status == INTERNAL_SERVER_ERROR,
{
    if connected {
        Ok(
            Json::object().with("status", Json::text("ok")).with("redis", Json::text("connected")),
        )
    } else {
        Err(INTERNAL_SERVER_ERROR)
    }
}

/// Time for a reader: hours where there are any, minutes where there are any, and
/// seconds.
pub open spec fn uptime_text(seconds: nat) -> Seq<char> {
    let in_seconds = decimal(seconds % 60) + "s"@;
    let in_minutes = decimal(seconds % 3600 / 60) + "m "@ + in_seconds;
    if seconds < 60 {
        in_seconds
    } else if seconds < 3600 {
        in_minutes
    } else {
        decimal(seconds / 3600) + "h "@ + in_minutes
    }
}

/// Time for a reader: hours where there are any, minutes where there are any, and
/// seconds.
pub fn format_uptime(seconds: u64) -> (r: String)
    ensures
        r@ == uptime_text(seconds as nat),
{
    let in_seconds = decimal_text(seconds % 60).concat("s");
    if seconds < 60 {
        return in_seconds;
    }
    let in_minutes = decimal_text(seconds % 3600 / 60).concat("m ").concat(in_seconds.as_str());
    if seconds < 3600 {
        return in_minutes;
    }
    decimal_text(seconds / 3600).concat("h ").concat(in_minutes.as_str())
}

/// What the server counts.
#[derive(Debug)]
pub struct Metrics {
    /// How many events came in.
    pub events_received: u64,
}

impl Metrics {
    /// Nothing counted yet.
    pub fn new() -> (r: Self)
        ensures
            r.events_received == 0,
    {
        Metrics { events_received: 0 }
    }

    /// Counts one more event. The largest count is followed by zero.
    pub fn increment_events(&mut self)
        ensures
            final(self).events_received == (if old(self).events_received == u64::MAX {
                0
            } else {
                old(self).events_received + 1
            }),
    {
        self.events_received = self.events_received.wrapping_add(1);
    }

    /// What the metrics endpoint answers, `uptime` seconds after the start.
    pub fn get_metrics(&self, version: &str, uptime: u64) -> (r: Json)
        ensures
            r@ == JsonView::object().with("version"@, JsonView::Text(version@)).with(
                "uptime_seconds"@,
                JsonView::Number(number_of(uptime)),
            ).with("uptime"@, JsonView::Text(uptime_text(uptime as nat))).with(
                "events"@,
                JsonView::object().with(
                    "received"@,
                    JsonView::Number(number_of(self.events_received)),
                ),
            ).with("status"@, JsonView::Text("running"@)),
    {
        Json::object().with("version", Json::text(version)).with(
            "uptime_seconds",
            Json::integer(uptime),
        ).with("uptime", Json::text(format_uptime(uptime).as_str())).with(
            "events",
            Json::object().with("received", Json::integer(self.events_received)),
        ).with("status", Json::text("running"))
    }
}

/// The id by which an event is traced: the one that came with the request, or a
/// random one.
pub fn correlation_id(header: Option<&str>) -> (r: String)
    ensures
        match header {
            Some(id) => r@ == id@,
            None => is_random_uuid(r@),
        },
{
    match header {
        Some(id) => id.to_string(),
        None => random_uuid(),
    }
}

/// The fields of the stream entry of an event.
pub open spec fn emitted_fields(
    event: EventView,
    timestamp: Seq<char>,
    correlation_id: Seq<char>,
) -> Seq<(Seq<char>, Seq<char>)> {
    seq![
        ("source"@, event.source),
        ("eventType"@, event.event_type),
        ("payload"@, compact_text(event.payload)),
        ("timestamp"@, timestamp),
        ("correlationId"@, correlation_id),
    ]
}

/// The words of the command that adds fields to the event stream.
pub open spec fn emit_words(fields: Seq<(Seq<char>, Seq<char>)>) -> Seq<Seq<char>> {
    seq!["XADD"@, EVENT_STREAM_NAME@, "*"@] + flattened(fields)
}

/// The command that puts an event into the stream, at a time and under an id.
///
/// A worker reads the event as it was sent; see [`is_readable`] for what is left
/// out.
pub fn emit_command(event: &Event, timestamp: &str, correlation_id: &str) -> (r: Vec<String>)
    ensures
        words(r@) == emit_words(emitted_fields(event@, timestamp@, correlation_id@)),
        is_readable(event@) ==> arrives(
            event@,
            emitted_fields(event@, timestamp@, correlation_id@),
            correlation_id@,
        ),
{
    let payload = event.payload.to_compact();
    let mut parts: Vec<&str> = Vec::new();
    parts.push("XADD");
    parts.push(EVENT_STREAM_NAME);
    parts.push("*");
    parts.push("source");
    parts.push(event.source.as_str());
    parts.push("eventType");
    parts.push(event.event_type.as_str());
    parts.push("payload");
    parts.push(payload.as_str());
    parts.push("timestamp");
    parts.push(timestamp);
    parts.push("correlationId");
    parts.push(correlation_id);
    proof {
        let fields = emitted_fields(event@, timestamp@, correlation_id@);
        reveal_with_fuel(flattened, 6);
        assert(parts@.map_values(|s: &str| s@) =~= emit_words(fields));
        if is_readable(event@) {
            assert forall|entry: Fields| #[trigger] delivers(entry, fields) implies entry_event(
                entry,
            ) == Some(EventView { correlation_id: Some(correlation_id@), ..event@ }) by {
                lemma_emitted_event_is_read(event@, timestamp@, correlation_id@, entry);
            }
        }
    }
    command_of(parts)
}

/// An event on its way into the stream.
#[derive(Debug)]
pub struct Emission {
    /// The command that puts it there.
    pub command: Vec<String>,
    /// The id by which it is traced.
    pub correlation_id: String,
}

/// Puts an event on its way into the stream, as of now. `header` is the request's
/// `X-Correlation-ID` header, where it has one that is text.
pub fn emit_event(event: &Event, header: Option<&str>) -> (r: Emission)
    ensures
        match header {
            Some(id) => r.correlation_id@ == id@,
            None => is_random_uuid(r.correlation_id@),
        },
        exists|timestamp: Seq<char>|
            {
                let fields = emitted_fields(event@, timestamp, r.correlation_id@);
                &&& #[trigger] is_utc_timestamp(timestamp)
                &&& words(r.command@) == emit_words(fields)
                &&& is_readable(event@) ==> arrives(event@, fields, r.correlation_id@)
            },
{
    let correlation_id = correlation_id(header);
    let timestamp = current_timestamp();
    let command = emit_command(event, timestamp.as_str(), correlation_id.as_str());
    Emission { command, correlation_id }
}

/// The answer to a request whose event was accepted.
#[derive(Debug)]
pub struct EventResponse {
    /// Id of the event's stream entry.
    pub id: String,
    /// What became of the request.
    pub status: String,
    /// The id by which the event is traced.
    pub correlation_id: String,
}

impl EventResponse {
    /// The JSON document that is answered.
    pub fn to_json(&self) -> (r: Json)
        ensures
            r@ == JsonView::object().with("id"@, JsonView::Text(self.id@)).with(
                "status"@,
                JsonView::Text(self.status@),
            ).with("correlationId"@, JsonView::Text(self.correlation_id@)),
    {
        Json::object().with("id", Json::text(self.id.as_str())).with(
            "status",
            Json::text(self.status.as_str()),
        ).with("correlationId", Json::text(self.correlation_id.as_str()))
    }
}

/// The answer to a request: the status and what goes with it. `id` is the id of
/// the event's stream entry, where the command came through.
pub fn emit_response(id: Option<String>, correlation_id: String) -> (r: Result<
    (u16, EventResponse),
    u16,
>)
    ensures
        match id {
            Some(id) => r matches Ok(answer) && answer.0 == ACCEPTED && answer.1.id == id
                && answer.1.status@ == "accepted"@ && answer.1.correlation_id == correlation_id,
            None => r == Err::<(u16, EventResponse), u16>(INTERNAL_SERVER_ERROR),
        },
{
    match id {
        Some(id) => Ok(
            (ACCEPTED, EventResponse { id, status: "accepted".to_string(), correlation_id }),
        ),
        None => Err(INTERNAL_SERVER_ERROR),
    }
}

} // verus!
