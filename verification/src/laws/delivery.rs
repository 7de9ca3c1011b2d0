//! Deliveries: requests, replies and what they come to.

use crate::effects::http::{
    is_client_error_code, is_server_error_code, is_success_code, status_line,
};
use crate::effects::wasdfx::metadata_of;
use crate::effects::webhook::{is_next_step, webhook_body, Attempts, NextStep, Progress, Reply};
use crate::effects::{EffectError, EffectResult, WasdfxEffect, WebhookEffect};
use crate::event::EventView;
use crate::json::{number_of, parsed_json, JsonView};
use vstd::prelude::*;

verus! {

/// A reply with a status from 200 to 299 settles a delivery at once, as a success that
/// tells the URL and the status. No other reply makes it a success.
pub proof fn lemma_two_hundreds_are_successes(
    effect: WebhookEffect,
    attempts: Attempts,
    reply: Reply,
    line: Seq<char>,
    step: NextStep,
    result: Result<EffectResult, EffectError>,
)
    requires
        is_next_step(effect.retries, attempts, reply, line, step),
    ensures
        reply matches Reply::Status(status) ==> (200 <= status <= 299 ==> {
            &&& step == NextStep::Settled(status)
            &&& effect.is_progress(step, Progress::Done(result)) ==> (result matches Ok(report)
                && report.effect_name@ == "webhook"@ && report.message@
                == "Webhook delivered to "@ + effect.url@ + " ("@ + status_line(status) + ")"@
                && (report.metadata matches Some(metadata) && metadata@ == JsonView::Object(
                Map::empty().insert("url"@, JsonView::Text(effect.url@)).insert(
                    "status"@,
                    JsonView::Number(number_of(status as u64)),
                ),
            )))
        }),
        !(reply matches Reply::Status(status) && 200 <= status <= 299) && effect.is_progress(
            step,
            Progress::Done(result),
        ) ==> result is Err,
{
}

/// A status from 400 to 499 settles a delivery at once, as a failure that tells the
/// status.
pub proof fn lemma_four_hundreds_are_refusals(
    effect: WebhookEffect,
    attempts: Attempts,
    status: u16,
    line: Seq<char>,
    step: NextStep,
    result: Result<EffectResult, EffectError>,
)
    requires
        400 <= status <= 499,
        is_next_step(effect.retries, attempts, Reply::Status(status), line, step),
        effect.is_progress(step, Progress::Done(result)),
    ensures
        step == NextStep::Settled(status),
        result matches Err(EffectError::Failed(detail)) && detail@ == "Webhook returned status "@
            + status_line(status),
{
}

/// Any other reply, a missing one among them, leads to another attempt while fewer
/// retries were made than are allowed, and ends the delivery when they are used up. A
/// status from 500 to 599 and a missing response are then the error; any other status
/// leaves the error that was there.
pub proof fn lemma_other_replies_are_retried(
    effect: WebhookEffect,
    attempts: Attempts,
    reply: Reply,
    line: Seq<char>,
    step: NextStep,
    result: Result<EffectResult, EffectError>,
)
    requires
        is_next_step(effect.retries, attempts, reply, line, step),
        reply matches Reply::Status(status) ==> !(200 <= status <= 299) && !(400 <= status <= 499),
    ensures
        attempts.made < effect.retries ==> (step matches NextStep::Retry(next) && next.made
            == attempts.made + 1 && (match reply {
            Reply::Error(detail) => next.last_error == Some(EffectError::Http(detail)),
            Reply::Status(status) => if 500 <= status <= 599 {
                next.last_error matches Some(EffectError::Failed(detail)) && detail@
                    == "Server error: "@ + line
            } else {
                next.last_error == attempts.last_error
            },
        })),
        attempts.made >= effect.retries ==> (step matches NextStep::GiveUp(error) && (match reply {
            Reply::Error(detail) => error == EffectError::Http(detail),
            Reply::Status(status) => if 500 <= status <= 599 {
                error matches EffectError::Failed(detail) && detail@ == "Server error: "@ + line
            } else {
                match attempts.last_error {
                    Some(last) => error == last,
                    None => error matches EffectError::Failed(detail) && detail@
                        == "Unknown error"@,
                }
            },
        })),
        effect.is_progress(step, Progress::Done(result)) ==> (step matches NextStep::GiveUp(error)
            && result == Err::<EffectResult, EffectError>(error)),
{
}

/// What a webhook posts holds the source, the type and the payload of the event, and
/// nothing else.
pub proof fn lemma_webhook_posts_the_event(event: EventView, other: Seq<char>)
    ensures
        webhook_body(event).get("source"@) == Some(JsonView::Text(event.source)),
        webhook_body(event).get("eventType"@) == Some(JsonView::Text(event.event_type)),
        webhook_body(event).get("payload"@) == Some(event.payload),
        other != "source"@ && other != "eventType"@ && other != "payload"@ ==> webhook_body(
            event,
        ).get(other) is None,
{
    reveal_strlit("source");
    reveal_strlit("eventType");
    reveal_strlit("payload");
    assert("source"@.len() == 6 && "eventType"@.len() == 9 && "payload"@.len() == 7);
}

/// A response of the activity feed is a success exactly for a status from 200 to 299.
/// A success tells the URL, the status and the body read as JSON, or an empty object
/// where it is none; a failure tells the status and the body as it came.
pub proof fn lemma_feed_responses(
    effect: WasdfxEffect,
    status: u16,
    body: Seq<char>,
    result: Result<EffectResult, EffectError>,
)
    requires
        effect.is_outcome(status, status_line(status), body, parsed_json(body), result),
    ensures
        result is Ok <==> 200 <= status <= 299,
        result matches Ok(report) ==> report.effect_name@ == "wasdfx"@ && report.message@
            == "Posted to WASDFX ("@ + status_line(status) + ")"@ && (report.metadata matches Some(
            metadata,
        ) && metadata@ == JsonView::Object(
            Map::empty().insert("url"@, JsonView::Text(effect.url@)).insert(
                "status"@,
                JsonView::Number(number_of(status as u64)),
            ).insert(
                "response"@,
                match parsed_json(body) {
                    Some(json) => json,
                    None => JsonView::Object(Map::empty()),
                },
            ),
        )),
        result matches Err(error) ==> (error matches EffectError::Failed(detail) && detail@
            == "WASDFX returned status "@ + status_line(status) + ": "@ + body),
{
}

/// Successes are the statuses from 200 to 299, client errors those from 400 to 499 and
/// server errors those from 500 to 599.
pub proof fn lemma_classes_of_statuses(status: u16)
    ensures
        is_success_code(status) <==> 200 <= status <= 299,
        is_client_error_code(status) <==> 400 <= status <= 499,
        is_server_error_code(status) <==> 500 <= status <= 599,
        Reply::Status(status).line() == status_line(status),
{
}

/// The metadata of an activity hold where the event came from and what it was, and
/// nothing else.
pub proof fn lemma_metadata_of_an_activity(event: EventView)
    ensures
        metadata_of(event) == JsonView::Object(
            Map::empty().insert("synapse_source"@, JsonView::Text(event.source)).insert(
                "synapse_event_type"@,
                JsonView::Text(event.event_type),
            ).insert(
                "synapse_correlation_id"@,
                match event.correlation_id {
                    Some(id) => JsonView::Text(id),
                    None => JsonView::Null,
                },
            ).insert("original_payload"@, event.payload),
        ),
{
}

} // verus!
