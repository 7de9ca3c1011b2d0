//! Events in a plain Redis list, the simplest way to hand them to a worker.

use crate::event::Event;
use crate::json::{compact_text, Json, JsonView};
use crate::server::{ACCEPTED, INTERNAL_SERVER_ERROR};
use crate::stream::{command_of, words};
use crate::EVENT_STREAM_NAME;
use vstd::prelude::*;

verus! {

/// The command that puts an event behind those that wait in the list.
pub fn push_command(event: &Event) -> (r: Vec<String>)
    ensures
        words(r@) == seq!["RPUSH"@, EVENT_STREAM_NAME@, compact_text(event@.document())],
{
    let document = event.to_json().to_compact();
    let mut parts: Vec<&str> = Vec::new();
    parts.push("RPUSH");
    parts.push(EVENT_STREAM_NAME);
    parts.push(document.as_str());
    assert(parts@.map_values(|s: &str| s@) =~= seq![
        "RPUSH"@,
        EVENT_STREAM_NAME@,
        compact_text(event@.document()),
    ]);
    command_of(parts)
}

/// The status that answers a request, by whether its event went into the list.
pub fn push_status(pushed: bool) -> (r: u16)
    ensures
        r == (if pushed {
            ACCEPTED
        } else {
            INTERNAL_SERVER_ERROR
        }),
{
    if pushed {
        ACCEPTED
    } else {
        INTERNAL_SERVER_ERROR
    }
}

/// What a health check answers, where `connected` says whether Redis replied.
pub fn health_check(connected: bool) -> (r: Result<Json, u16>)
    ensures
        r is Ok <==> connected,
        r matches Ok(body) ==> body@ == JsonView::object().with(
            "status"@,
            JsonView::Text("ok"@),
        ).with("redis"@, JsonView::Text("ok"@)),
        r matches Err(status) ==> status == INTERNAL_SERVER_ERROR,
{
    if connected {
        Ok(Json::object().with("status", Json::text("ok")).with("redis", Json::text("ok")))
    } else {
        Err(INTERNAL_SERVER_ERROR)
    }
}

} // verus!
