//! What goes into the streams and what is read from them.

use crate::dlq::{entry_meaning, field_meaning, DeadLetterQueue, FailedEventView};
use crate::duration::duration_nanos;
use crate::effects::LogEffect;
use crate::event::{Event, EventView};
use crate::json::{compact_text, number_of, parsed_json, JsonView};
use crate::laws::routing::lemma_handlers_add_up;
use crate::laws::text::lemma_numbers_are_read;
use crate::router::{
    has_pattern, lemma_handlers_iff_handled, texts, DispatchResult, RouterError, RouterView,
};
use crate::server::{emit_words, emitted_fields, may_pass, uptime_text};
use crate::stream::{field_texts, flattened, words};
use crate::table::Table;
use crate::text::decimal;
use crate::worker::{
    ack_words, default_routes, entry_event, entry_ids, failures_of, field_text, is_entry_step,
    is_loop_action, lemma_default_routes, optional_field, routes_to, EntryStep, FieldValue, Fields,
    Handling, LoopAction, LoopEvent,
};
use vstd::arithmetic::div_mod::lemma_fundamental_div_mod_converse;
use vstd::prelude::*;
use vstd::utf8::{decode_utf8, valid_utf8};

verus! {

/// Fields one behind the other are their names and values in turn.
pub proof fn lemma_fields_in_turn(fields: Seq<(Seq<char>, Seq<char>)>, i: int)
    ensures
        flattened(fields).len() == 2 * fields.len(),
        0 <= i < fields.len() ==> flattened(fields)[2 * i] == fields[i].0 && flattened(fields)[2 * i
            + 1] == fields[i].1,
    decreases fields.len(),
{
    if fields.len() > 0 {
        lemma_fields_in_turn(fields.drop_last(), i);
        if 0 <= i < fields.len() - 1 {
            assert(fields.drop_last()[i] == fields[i]);
        }
    }
}

/// The command for an event puts its fields behind `XADD`, the name of the stream and the
/// star that asks for a new id. The fields are the source, the type, the payload as JSON,
/// the time and the correlation id.
pub proof fn lemma_emitted_words(
    event: EventView,
    timestamp: Seq<char>,
    correlation_id: Seq<char>,
)
    ensures
        emit_words(emitted_fields(event, timestamp, correlation_id)) == seq![
            "XADD"@,
            "synapse:events"@,
            "*"@,
            "source"@,
            event.source,
            "eventType"@,
            event.event_type,
            "payload"@,
            compact_text(event.payload),
            "timestamp"@,
            timestamp,
            "correlationId"@,
            correlation_id,
        ],
{
    reveal_with_fuel(flattened, 6);
    assert(emit_words(emitted_fields(event, timestamp, correlation_id)) =~= seq![
        "XADD"@,
        "synapse:events"@,
        "*"@,
        "source"@,
        event.source,
        "eventType"@,
        event.event_type,
        "payload"@,
        compact_text(event.payload),
        "timestamp"@,
        timestamp,
        "correlationId"@,
        correlation_id,
    ]);
}

/// The command for a failed event puts its fields into the queue's stream, which it trims
/// to about ten thousand entries. An id that is not known is empty.
pub proof fn lemma_dead_letter_words(failed: FailedEventView, event_json: Seq<char>)
    ensures
        DeadLetterQueue::add_words(failed.fields(event_json)) == seq![
            "XADD"@,
            "synapse:events:dlq"@,
            "MAXLEN"@,
            "~"@,
            decimal(10000),
            "*"@,
            "event"@,
            event_json,
            "error"@,
            failed.error,
            "retryCount"@,
            decimal(failed.retry_count as nat),
            "failedAt"@,
            failed.failed_at,
            "originalId"@,
            match failed.original_id {
                Some(id) => id,
                None => Seq::empty(),
            },
            "source"@,
            failed.event.source,
            "eventType"@,
            failed.event.event_type,
        ],
{
    reveal_with_fuel(flattened, 8);
    assert(DeadLetterQueue::add_words(failed.fields(event_json)) =~= seq![
        "XADD"@,
        "synapse:events:dlq"@,
        "MAXLEN"@,
        "~"@,
        decimal(10000),
        "*"@,
        "event"@,
        event_json,
        "error"@,
        failed.error,
        "retryCount"@,
        decimal(failed.retry_count as nat),
        "failedAt"@,
        failed.failed_at,
        "originalId"@,
        failed.id_text(),
        "source"@,
        failed.event.source,
        "eventType"@,
        failed.event.event_type,
    ]);
}

/// What a field of an entry of the queue means: the event is the document that its text
/// holds, the retry count the number that it writes, and everything else, or what cannot
/// be read so, is text.
pub proof fn lemma_fields_of_dead_letters(
    name: Seq<char>,
    value: Seq<char>,
    parsed: Option<JsonView>,
    n: nat,
    i: int,
)
    ensures
        name != "event"@ && name != "retryCount"@ ==> field_meaning(name, value, parsed)
            == JsonView::Text(value),
        field_meaning("event"@, value, parsed) == (match parsed {
            Some(document) => document,
            None => JsonView::Text(value),
        }),
        field_meaning("retryCount"@, decimal(n), parsed) == (if n <= 0xffff_ffff {
            JsonView::Number(number_of(n as u64))
        } else {
            JsonView::Text(decimal(n))
        }),
        0 <= i < value.len() && !('0' <= value[i] <= '9') && !(i == 0 && value[i] == '+')
            ==> field_meaning("retryCount"@, value, parsed) == JsonView::Text(value),
        field_meaning("retryCount"@, Seq::<char>::empty(), parsed) == JsonView::Text(Seq::empty()),
{
    reveal_strlit("event");
    reveal_strlit("retryCount");
    assert("event"@.len() == 5 && "retryCount"@.len() == 10);
    lemma_numbers_are_read(n, value, i);
}

/// One more field is one more member of the object that an entry makes up, in place of
/// the one that had its name.
pub proof fn lemma_one_more_field(
    fields: Seq<(Seq<char>, Seq<char>)>,
    name: Seq<char>,
    value: Seq<char>,
    other: Seq<char>,
)
    ensures
        entry_meaning(Seq::<(Seq<char>, Seq<char>)>::empty()) == JsonView::Object(Map::empty()),
        entry_meaning(fields.push((name, value))).get(name) == Some(
            field_meaning(name, value, parsed_json(value)),
        ),
        other != name ==> entry_meaning(fields.push((name, value))).get(other) == entry_meaning(
            fields,
        ).get(other),
        entry_meaning(fields) is Object,
    decreases fields.len(),
{
    assert(fields.push((name, value)).drop_last() =~= fields);
    lemma_entry_is_object(fields);
}

/// An entry makes up an object.
proof fn lemma_entry_is_object(fields: Seq<(Seq<char>, Seq<char>)>)
    ensures
        entry_meaning(fields) is Object,
    decreases fields.len(),
{
    if fields.len() > 0 {
        lemma_entry_is_object(fields.drop_last());
    }
}

/// A request may pass to the health and metrics endpoints, and to any other with the key
/// behind the word `Bearer`; without it, it may not.
pub proof fn lemma_who_may_pass(path: Seq<char>, header: Option<Seq<char>>, api_key: Seq<char>)
    ensures
        path == "/health"@ || path == "/metrics"@ ==> may_pass(path, header, api_key),
        may_pass(path, Some("Bearer "@ + api_key), api_key),
        path != "/health"@ && path != "/metrics"@ && header != Some("Bearer "@ + api_key)
            ==> !may_pass(path, header, api_key),
{
}

/// Time is told in hours, minutes and seconds, without hours where there are none and
/// without minutes where there are neither.
pub proof fn lemma_uptime_is_told(hours: nat, minutes: nat, seconds: nat)
    requires
        minutes < 60,
        seconds < 60,
    ensures
        uptime_text(seconds) == decimal(seconds) + "s"@,
        minutes > 0 ==> uptime_text(60 * minutes + seconds) == decimal(minutes) + "m "@ + (decimal(
            seconds,
        ) + "s"@),
        hours > 0 ==> uptime_text(3600 * hours + 60 * minutes + seconds) == decimal(hours) + "h "@
            + (decimal(minutes) + "m "@ + (decimal(seconds) + "s"@)),
{
    let m = 60 * minutes + seconds;
    let t = 3600 * hours + 60 * minutes + seconds;
    let (h, k, n) = (hours as int, minutes as int, seconds as int);
    lemma_fundamental_div_mod_converse(n, 60, 0, n);
    lemma_fundamental_div_mod_converse(m as int, 60, k, n);
    lemma_fundamental_div_mod_converse(m as int, 3600, 0, m as int);
    lemma_fundamental_div_mod_converse(t as int, 3600, h, m as int);
    lemma_fundamental_div_mod_converse(t as int, 60, 60 * h + k, n);
}

/// The text of a field: what its bytes encode, or its text; a word for a field that has
/// none, and another for one that is missing.
pub proof fn lemma_texts_of_fields(fields: Fields, key: Seq<char>)
    ensures
        !fields.contains_key(key) ==> field_text(fields, key) == "unknown"@ && optional_field(
            fields,
            key,
        ) is None,
        fields.contains_key(key) ==> (match fields[key] {
            FieldValue::BulkString(bytes) => valid_utf8(bytes@) ==> field_text(fields, key)
                == decode_utf8(bytes@) && optional_field(fields, key) == Some(
                decode_utf8(bytes@),
            ),
            FieldValue::SimpleString(s) => field_text(fields, key) == s@ && optional_field(
                fields,
                key,
            ) == Some(s@),
            FieldValue::Other => field_text(fields, key) == "unknown_format"@ && optional_field(
                fields,
                key,
            ) is None,
        }),
{
}

/// An entry holds an event exactly where source and type are there and are other words
/// than `unknown`. The event has them, the payload that was read or an empty object, and
/// the correlation id where there is one.
pub proof fn lemma_event_of_an_entry(fields: Fields)
    ensures
        ({
            let source = field_text(fields, "source"@);
            let event_type = field_text(fields, "eventType"@);
            let payload = parsed_json(field_text(fields, "payload"@));
            match entry_event(fields) {
                Some(event) => {
                    &&& source != "unknown"@ && event_type != "unknown"@
                    &&& event.source == source
                    &&& event.event_type == event_type
                    &&& event.correlation_id == optional_field(fields, "correlationId"@)
                    &&& match payload {
                        Some(document) => event.payload == document,
                        None => event.payload == JsonView::Object(Map::empty()),
                    }
                },
                None => source == "unknown"@ || event_type == "unknown"@,
            }
        }),
        !fields.contains_key("source"@) || !fields.contains_key("eventType"@) ==> entry_event(fields)
            is None,
{
}

/// Whatever became of an entry, it is acknowledged, by its id and for the group. Only
/// without a connection the loop waits, for five seconds.
pub proof fn lemma_entries_are_acknowledged(
    id: String,
    handling: Handling,
    consumer_group: Seq<char>,
    action: LoopAction,
)
    ensures
        is_loop_action(LoopEvent::Handled { id, handling }, consumer_group, action) <==> (
        action matches LoopAction::Acknowledge(command) && command@.len() == 4 && command@[0]@
            == "XACK"@ && command@[1]@ == "synapse:events"@ && command@[2]@ == consumer_group
            && command@[3]@ == id@),
        is_loop_action(LoopEvent::NoConnection, consumer_group, action) <==> (
        action matches LoopAction::Wait(length) && duration_nanos(length) == 5_000_000_000),
{
    if let LoopAction::Acknowledge(command) = action {
        let given = words(command@);
        let wanted = ack_words(consumer_group, id@);
        if given == wanted {
            assert(given.len() == 4);
            assert(given[0] == command@[0]@ && given[1] == command@[1]@);
            assert(given[2] == command@[2]@ && given[3] == command@[3]@);
        }
        if command@.len() == 4 && command@[0]@ == "XACK"@ && command@[1]@ == "synapse:events"@
            && command@[2]@ == consumer_group && command@[3]@ == id@ {
            assert(given =~= wanted);
        }
    }
}

/// Whether a router logs an event type with a prefix, and does nothing else with it.
pub open spec fn logs_with(
    router: RouterView<LogEffect>,
    event_type: Seq<char>,
    prefix: Seq<char>,
) -> bool {
    router.triggered(event_type).len() == 1 && router.triggered(event_type)[0].prefix@ == prefix
}

/// The router that a worker starts with logs the events of users, games and players, and
/// the system under their prefixes, and any other event as unhandled.
pub proof fn lemma_routes_of_a_worker(router: RouterView<LogEffect>, event_type: Seq<char>)
    requires
        routes_to(router, 10),
        router.is_valid(),
    ensures
        ({
            let of_user = event_type == "user.created"@ || event_type == "user.updated"@
                || event_type == "user.deleted"@;
            let of_game = event_type == "game.started"@ || event_type == "game.ended"@ || event_type
                == "game.achievement"@ || event_type == "player.joined"@ || event_type
                == "player.left"@;
            let of_system = event_type == "system.health"@ || event_type == "system.alert"@;
            &&& of_user ==> logs_with(router, event_type, "user"@)
            &&& of_game ==> logs_with(router, event_type, "game"@)
            &&& of_system ==> logs_with(router, event_type, "system"@)
            &&& !of_user && !of_game && !of_system ==> logs_with(
                router,
                event_type,
                "unhandled"@,
            )
        }),
{
    lemma_default_routes();
    lemma_handlers_iff_handled(router, event_type);
    assert forall|i: int| 0 <= i < 10 && event_type == (#[trigger] default_routes()[i]).0 implies logs_with(
        router,
        event_type,
        default_routes()[i].1,
    ) by {
        assert(router.exact[i].0 == event_type);
        lemma_handlers_add_up(router, router.exact[0], event_type, i);
        assert(has_pattern(router.exact, event_type));
        assert(router.handles(event_type));
    }
    assert(default_routes()[0].0 == "user.created"@);
    assert(default_routes()[1].0 == "user.updated"@);
    assert(default_routes()[2].0 == "user.deleted"@);
    assert(default_routes()[3].0 == "game.started"@);
    assert(default_routes()[4].0 == "game.ended"@);
    assert(default_routes()[5].0 == "game.achievement"@);
    assert(default_routes()[6].0 == "player.joined"@);
    assert(default_routes()[7].0 == "player.left"@);
    assert(default_routes()[8].0 == "system.health"@);
    assert(default_routes()[9].0 == "system.alert"@);
    if router.handles(event_type) {
        let i = choose|i: int|
            0 <= i < router.exact.len() && (#[trigger] router.exact[i]).0 == event_type;
        assert(router.exact[i].0 == default_routes()[i].0);
    }
}

/// A dispatch that came to an end adds its failed effects to the count; one that failed
/// adds one.
pub proof fn lemma_failures_are_counted(
    result: DispatchResult,
    error: RouterError,
)
    ensures
        failures_of(Ok(result)) == result.errors@.len(),
        failures_of(Err(error)) == 1,
{
}

/// The lines of a log effect tell its prefix, and the source and the type of the event.
pub proof fn lemma_lines_of_a_log_effect(effect: LogEffect, event: Event)
    ensures
        effect.line(event) == "["@ + effect.prefix@ + "] Processed: "@ + event.source@ + "/"@
            + event.event_type@,
        effect.report(event) == "Logged event "@ + event.source@ + "/"@ + event.event_type@
            + " with prefix '"@ + effect.prefix@ + "'"@,
{
}

/// The words of a command, the texts of fields and the ids of entries are those of the
/// strings, one by one.
pub proof fn lemma_strings_one_by_one(
    command: Seq<String>,
    fields: Seq<(String, String)>,
    entries: Seq<(String, Table<FieldValue>)>,
    i: int,
)
    ensures
        words(command).len() == command.len(),
        0 <= i < command.len() ==> words(command)[i] == command[i]@,
        texts(command).len() == command.len(),
        0 <= i < command.len() ==> texts(command)[i] == command[i]@,
        field_texts(fields).len() == fields.len(),
        0 <= i < fields.len() ==> field_texts(fields)[i] == (fields[i].0@, fields[i].1@),
        entry_ids(entries).len() == entries.len(),
        0 <= i < entries.len() ==> entry_ids(entries)[i] == entries[i].0@,
{
}

/// An entry that holds an event is dispatched with that event, and one that holds none is
/// skipped.
pub proof fn lemma_step_of_an_entry(fields: Fields, step: EntryStep)
    requires
        is_entry_step(fields, step),
    ensures
        match entry_event(fields) {
            Some(held) => step matches EntryStep::Dispatch(event) && event@ == held,
            None => step is Skip,
        },
{
}

} // verus!
