//! The worker: reads events from the stream, has them dispatched and keeps count.

use crate::ambient::{is_random_uuid, random_uuid};
use crate::duration::duration_nanos;
use crate::effects::LogEffect;
use crate::event::{text_option, Event, EventView};
use crate::json::{compact_text, parsed_json, reads_back, Json, JsonView, MAX_DEPTH};
use crate::router::{
    has_pattern, is_wildcard, DispatchResult, Router, RouterError, RouterView,
};
use crate::server::emitted_fields;
use crate::stream::{command_of, words};
use crate::table::Table;
use crate::text::{contains, contains_text, same_text};
use crate::{DEFAULT_CONSUMER_GROUP, EVENT_STREAM_NAME};
use std::sync::Arc;
use std::time::Duration;
use vstd::prelude::*;
use vstd::utf8::{
    decode_utf8, encode_utf8, encode_utf8_decode_utf8, encode_utf8_valid_utf8, valid_utf8,
};

verus! {

/// The value of a field of a stream entry, as Redis sends it.
#[derive(Debug)]
pub enum FieldValue {
    /// Bytes.
    BulkString(Vec<u8>),
    /// Text.
    SimpleString(String),
    /// Anything else.
    Other,
}

/// What `String::from_utf8_lossy` makes of bytes that are no UTF-8.
pub uninterp spec fn repaired_utf8(bytes: Seq<u8>) -> Seq<char>;

/// The text that bytes encode, repaired where they are no UTF-8.
pub open spec fn text_of_bytes(bytes: Seq<u8>) -> Seq<char> {
    if valid_utf8(bytes) {
        decode_utf8(bytes)
    } else {
        repaired_utf8(bytes)
    }
}

/// `String::from_utf8_lossy`: the text that the bytes encode; where they are no
/// UTF-8, its own repair of it.
#[verifier::external_body]
fn bytes_to_text(bytes: &Vec<u8>) -> (r: String)
    ensures
        r@ == (if valid_utf8(bytes@) {
            decode_utf8(bytes@)
        } else {
            repaired_utf8(bytes@)
        }),
{
    String::from_utf8_lossy(bytes).to_string()
}

impl FieldValue {
    /// The text of a field, where it has one.
    pub open spec fn text(self) -> Option<Seq<char>> {
        match self {
            FieldValue::BulkString(bytes) => Some(text_of_bytes(bytes@)),
            FieldValue::SimpleString(s) => Some(s@),
            FieldValue::Other => None,
        }
    }

    /// The text of a field, where it has one.
    pub fn to_text(&self) -> (r: Option<String>)
        ensures
            text_option(r) == self.text(),
    {
        match self {
            FieldValue::BulkString(bytes) => Some(bytes_to_text(bytes)),
            FieldValue::SimpleString(s) => Some(s.clone()),
            FieldValue::Other => None,
        }
    }
}

/// The fields of a stream entry by name.
pub type Fields = Map<Seq<char>, FieldValue>;

/// The text of a field, where it is there and has one.
pub open spec fn optional_field(fields: Fields, key: Seq<char>) -> Option<Seq<char>> {
    if fields.contains_key(key) {
        fields[key].text()
    } else {
        None
    }
}

/// The text of a field: `unknown` where it is missing, and `unknown_format` where
/// it is no text.
pub open spec fn field_text(fields: Fields, key: Seq<char>) -> Seq<char> {
    if fields.contains_key(key) {
        match fields[key].text() {
            Some(text) => text,
            None => "unknown_format"@,
        }
    } else {
        "unknown"@
    }
}

/// The text of a field: `unknown` where it is missing, and `unknown_format` where
/// it is no text.
pub fn get_str_field(fields: &Table<FieldValue>, key: &str) -> (r: String)
    ensures
        r@ == field_text(fields@, key@),
{
    match fields.get(key) {
        Some(value) => match value.to_text() {
            Some(text) => text,
            None => "unknown_format".to_string(),
        },
        None => "unknown".to_string(),
    }
}

/// The event that texts and a payload make up, where source and type are known. A
/// payload that could not be read counts as an empty object.
pub open spec fn event_of(
    source: Seq<char>,
    event_type: Seq<char>,
    payload: Option<JsonView>,
    correlation_id: Option<Seq<char>>,
) -> Option<EventView> {
    if source == "unknown"@ || event_type == "unknown"@ {
        None
    } else {
        Some(
            EventView {
                source,
                event_type,
                payload: match payload {
                    Some(json) => json,
                    None => JsonView::object(),
                },
                correlation_id,
            },
        )
    }
}

/// The event that a stream entry holds, where it holds one.
pub open spec fn entry_event(fields: Fields) -> Option<EventView> {
    event_of(
        field_text(fields, "source"@),
        field_text(fields, "eventType"@),
        parsed_json(field_text(fields, "payload"@)),
        optional_field(fields, "correlationId"@),
    )
}

/// The value of an event that may be missing.
pub open spec fn event_option(event: Option<Event>) -> Option<EventView> {
    match event {
        Some(e) => Some(e@),
        None => None,
    }
}

/// The event that texts and a payload make up, where source and type are known. A
/// payload that could not be read counts as an empty object.
pub fn make_event(
    source: String,
    event_type: String,
    payload: Option<Json>,
    correlation_id: Option<String>,
) -> (r: Option<Event>)
    ensures
        event_option(r) == event_of(
            source@,
            event_type@,
            match payload {
                Some(json) => Some(json@),
                None => None,
            },
            text_option(correlation_id),
        ),
{
    if same_text(source.as_str(), "unknown") || same_text(event_type.as_str(), "unknown") {
        return None;
    }
    let payload = match payload {
        Some(json) => json,
        None => Json::object(),
    };
    Some(Event { source, event_type, payload, correlation_id })
}

/// The event that a stream entry holds, where it holds one.
pub fn parse_event(fields: &Table<FieldValue>) -> (r: Option<Event>)
    ensures
        event_option(r) == entry_event(fields@),
{
    let source = get_str_field(fields, "source");
    let event_type = get_str_field(fields, "eventType");
    let payload = Json::parse(get_str_field(fields, "payload").as_str());
    let correlation_id = match fields.get("correlationId") {
        Some(value) => value.to_text(),
        None => None,
    };
    make_event(source, event_type, payload, correlation_id)
}

/// Whether a stream entry has the given fields, with the given texts as bytes.
pub open spec fn delivers(fields: Fields, sent: Seq<(Seq<char>, Seq<char>)>) -> bool {
    forall|i: int|
        0 <= i < sent.len() ==> fields.contains_key((#[trigger] sent[i]).0) && (
        fields[sent[i].0] matches FieldValue::BulkString(bytes) && bytes@ == encode_utf8(sent[i].1))
}

/// Whether an event is read from the stream as it was sent: its source and its type
/// are other words than `unknown`, which stands for a missing field, and the text
/// of its payload is read back as the payload.
pub open spec fn is_readable(event: EventView) -> bool {
    &&& event.source != "unknown"@
    &&& event.event_type != "unknown"@
    &&& reads_back(event.payload, MAX_DEPTH as nat)
}

/// Whether an entry with the fields `sent` is read as the event, with a correlation
/// id.
pub open spec fn arrives(
    event: EventView,
    sent: Seq<(Seq<char>, Seq<char>)>,
    correlation_id: Seq<char>,
) -> bool {
    forall|fields: Fields| #[trigger]
        delivers(fields, sent) ==> entry_event(fields) == Some(
            EventView { correlation_id: Some(correlation_id), ..event },
        )
}

/// Text that is sent as bytes is read as the same text.
proof fn lemma_delivered_text(
    fields: Fields,
    sent: Seq<(Seq<char>, Seq<char>)>,
    i: int,
)
    requires
        delivers(fields, sent),
        0 <= i < sent.len(),
    ensures
        optional_field(fields, sent[i].0) == Some(sent[i].1),
        field_text(fields, sent[i].0) == sent[i].1,
{
    encode_utf8_valid_utf8(sent[i].1);
    encode_utf8_decode_utf8(sent[i].1);
    assert(fields.contains_key(sent[i].0));
}

/// What the server puts into the stream is what a worker reads: the same source,
/// the same type, the payload that the text of the payload holds, and the
/// correlation id. Left out are events whose source or type is the word `unknown`,
/// which stands for a missing field.
pub proof fn lemma_emitted_event_is_read(
    event: EventView,
    timestamp: Seq<char>,
    correlation_id: Seq<char>,
    fields: Fields,
)
    requires
        event.source != "unknown"@,
        event.event_type != "unknown"@,
        delivers(fields, emitted_fields(event, timestamp, correlation_id)),
    ensures
        entry_event(fields) == Some(
            EventView {
                source: event.source,
                event_type: event.event_type,
                payload: match parsed_json(compact_text(event.payload)) {
                    Some(json) => json,
                    None => JsonView::object(),
                },
                correlation_id: Some(correlation_id),
            },
        ),
{
    let sent = emitted_fields(event, timestamp, correlation_id);
    lemma_delivered_text(fields, sent, 0);
    lemma_delivered_text(fields, sent, 1);
    lemma_delivered_text(fields, sent, 2);
    lemma_delivered_text(fields, sent, 4);
}

/// The routes that a worker starts with: event types and the prefixes that they are
/// logged with.
pub open spec fn default_routes() -> Seq<(Seq<char>, Seq<char>)> {
    seq![
        ("user.created"@, "user"@),
        ("user.updated"@, "user"@),
        ("user.deleted"@, "user"@),
        ("game.started"@, "game"@),
        ("game.ended"@, "game"@),
        ("game.achievement"@, "game"@),
        ("player.joined"@, "game"@),
        ("player.left"@, "game"@),
        ("system.health"@, "system"@),
        ("system.alert"@, "system"@),
    ]
}

/// Whether a router holds the first `n` of the default routes, each with one log
/// effect, and logs any other event as unhandled.
pub open spec fn routes_to(router: RouterView<LogEffect>, n: int) -> bool {
    &&& router.exact.len() == n
    &&& forall|i: int|
        0 <= i < n ==> (#[trigger] router.exact[i]).0 == default_routes()[i].0
            && router.exact[i].1.len() == 1 && router.exact[i].1[0].prefix@
            == default_routes()[i].1
    &&& router.patterns.len() == 0
    &&& router.default_handler matches Some(effect) && effect.prefix@ == "unhandled"@
    &&& !router.fail_fast
}

/// No two default routes are for the same event type, and none has a star in it.
pub(crate) proof fn lemma_default_routes()
    ensures
        forall|i: int, j: int|
            0 <= i < j < 10 ==> (#[trigger] default_routes()[i]).0 != (
            #[trigger] default_routes()[j]).0,
        forall|i: int| 0 <= i < 10 ==> !is_wildcard((#[trigger] default_routes()[i]).0),
{
    reveal_strlit("user.created");
    reveal_strlit("user.updated");
    reveal_strlit("user.deleted");
    reveal_strlit("game.started");
    reveal_strlit("game.ended");
    reveal_strlit("game.achievement");
    reveal_strlit("player.joined");
    reveal_strlit("player.left");
    reveal_strlit("system.health");
    reveal_strlit("system.alert");
    assert("user.created"@[5] == 'c' && "user.updated"@[5] == 'u' && "user.deleted"@[5] == 'd');
    assert("game.started"@[0] == 'g' && "system.alert"@[0] == 's' && "user.created"@[0] == 'u');
    assert("user.updated"@[0] == 'u' && "user.deleted"@[0] == 'u');
    assert("player.joined"@[0] == 'p' && "system.health"@[0] == 's');
    assert("user.created"@.len() == 12 && "user.updated"@.len() == 12);
    assert("user.deleted"@.len() == 12 && "game.started"@.len() == 12);
    assert("game.ended"@.len() == 10 && "game.achievement"@.len() == 16);
    assert("player.joined"@.len() == 13 && "player.left"@.len() == 11);
    assert("system.health"@.len() == 13 && "system.alert"@.len() == 12);
}

/// Logs one more event type with a prefix.
fn add_route(router: &mut Router<LogEffect>, event_type: &str, prefix: &str, Ghost(n): Ghost<int>)
    requires
        0 <= n < 10,
        routes_to(old(router)@, n),
        default_routes()[n] == (event_type@, prefix@),
    ensures
        routes_to(final(router)@, n + 1),
{
    let ghost before = router@;
    router.on(event_type, Arc::new(LogEffect::with_prefix(prefix)));
    proof {
        lemma_default_routes();
        assert(default_routes()[n].0 == event_type@);
        assert forall|i: int| 0 <= i < before.exact.len() implies (#[trigger] before.exact[i]).0
            != event_type@ by {
            assert(before.exact[i].0 == default_routes()[i].0);
        }
        assert(!has_pattern(before.exact, event_type@));
    }
}

/// The router that a worker starts with.
pub fn build_router() -> (r: Router<LogEffect>)
    ensures
        routes_to(r@, 10),
{
    let mut router: Router<LogEffect> = Router::new();
    router.set_default(Arc::new(LogEffect::with_prefix("unhandled")));
    add_route(&mut router, "user.created", "user", Ghost(0));
    add_route(&mut router, "user.updated", "user", Ghost(1));
    add_route(&mut router, "user.deleted", "user", Ghost(2));
    add_route(&mut router, "game.started", "game", Ghost(3));
    add_route(&mut router, "game.ended", "game", Ghost(4));
    add_route(&mut router, "game.achievement", "game", Ghost(5));
    add_route(&mut router, "player.joined", "game", Ghost(6));
    add_route(&mut router, "player.left", "game", Ghost(7));
    add_route(&mut router, "system.health", "system", Ghost(8));
    add_route(&mut router, "system.alert", "system", Ghost(9));
    router
}

/// The name of a worker: the configured one, or one made of the name of the host,
/// or a random one.
pub fn get_worker_name(configured: Option<&str>, hostname: Option<&str>) -> (r: String)
    ensures
        match configured {
            Some(name) => r@ == name@,
            None => match hostname {
                Some(host) => r@ == "worker-"@ + host@,
                None => exists|id: Seq<char>| #[trigger]
                    is_random_uuid(id) && r@ == "worker-"@ + id,
            },
        },
{
    match configured {
        Some(name) => name.to_string(),
        None => match hostname {
            Some(host) => "worker-".to_string().concat(host),
            None => {
                let id = random_uuid();
                "worker-".to_string().concat(id.as_str())
            },
        },
    }
}

/// The name of the consumer group: the configured one, or the default.
pub fn get_consumer_group(configured: Option<&str>) -> (r: String)
    ensures
        match configured {
            Some(name) => r@ == name@,
            None => r@ == DEFAULT_CONSUMER_GROUP@,
        },
{
    match configured {
        Some(name) => name.to_string(),
        None => DEFAULT_CONSUMER_GROUP.to_string(),
    }
}

/// The command that makes the consumer group, and the stream where it is missing.
pub fn group_command(consumer_group: &str) -> (r: Vec<String>)
    ensures
        words(r@) == seq![
            "XGROUP"@,
            "CREATE"@,
            EVENT_STREAM_NAME@,
            consumer_group@,
            "$"@,
            "MKSTREAM"@,
        ],
{
    let mut parts: Vec<&str> = Vec::new();
    parts.push("XGROUP");
    parts.push("CREATE");
    parts.push(EVENT_STREAM_NAME);
    parts.push(consumer_group);
    parts.push("$");
    parts.push("MKSTREAM");
    assert(parts@.map_values(|s: &str| s@) =~= seq![
        "XGROUP"@,
        "CREATE"@,
        EVENT_STREAM_NAME@,
        consumer_group@,
        "$"@,
        "MKSTREAM"@,
    ]);
    command_of(parts)
}

/// Whether the consumer group is there although making it failed with an error: it
/// was made before.
pub fn group_exists(error: &str) -> (r: bool)
    ensures
        r == contains_text(error@, "BUSYGROUP"@),
{
    contains(error, "BUSYGROUP")
}

/// The command that asks for up to ten entries that the group has not seen, and
/// waits for up to two seconds for one.
pub fn read_command(consumer_group: &str, worker_name: &str) -> (r: Vec<String>)
    ensures
        words(r@) == seq![
            "XREADGROUP"@,
            "GROUP"@,
            consumer_group@,
            worker_name@,
            "BLOCK"@,
            "2000"@,
            "COUNT"@,
            "10"@,
            "STREAMS"@,
            EVENT_STREAM_NAME@,
            ">"@,
        ],
{
    let mut parts: Vec<&str> = Vec::new();
    parts.push("XREADGROUP");
    parts.push("GROUP");
    parts.push(consumer_group);
    parts.push(worker_name);
    parts.push("BLOCK");
    parts.push("2000");
    parts.push("COUNT");
    parts.push("10");
    parts.push("STREAMS");
    parts.push(EVENT_STREAM_NAME);
    parts.push(">");
    assert(parts@.map_values(|s: &str| s@) =~= seq![
        "XREADGROUP"@,
        "GROUP"@,
        consumer_group@,
        worker_name@,
        "BLOCK"@,
        "2000"@,
        "COUNT"@,
        "10"@,
        "STREAMS"@,
        EVENT_STREAM_NAME@,
        ">"@,
    ]);
    command_of(parts)
}

/// Whether a read that failed with an error only found nothing to read.
pub fn is_idle_read(error: &str) -> (r: bool)
    ensures
        r == (contains_text(error@, "timed out"@) || contains_text(error@, "response was nil"@)),
{
    contains(error, "timed out") || contains(error, "response was nil")
}

/// The words of the command that says that an entry was dealt with.
pub open spec fn ack_words(consumer_group: Seq<char>, id: Seq<char>) -> Seq<Seq<char>> {
    seq!["XACK"@, EVENT_STREAM_NAME@, consumer_group, id]
}

/// The command that says that an entry was dealt with.
pub fn ack_command(consumer_group: &str, id: &str) -> (r: Vec<String>)
    ensures
        words(r@) == ack_words(consumer_group@, id@),
{
    let mut parts: Vec<&str> = Vec::new();
    parts.push("XACK");
    parts.push(EVENT_STREAM_NAME);
    parts.push(consumer_group);
    parts.push(id);
    assert(parts@.map_values(|s: &str| s@) =~= seq![
        "XACK"@,
        EVENT_STREAM_NAME@,
        consumer_group@,
        id@,
    ]);
    command_of(parts)
}

/// What is to be done with an entry of the stream.
#[derive(Debug)]
pub enum EntryStep {
    /// Dispatch the event, then acknowledge the entry.
    Dispatch(Event),
    /// Acknowledge the entry right away: it holds no event, and reading it again
    /// would not help.
    Skip,
}

/// What is to be done with an entry of the stream.
pub fn entry_step(fields: &Table<FieldValue>) -> (r: EntryStep)
    ensures
        is_entry_step(fields@, r),
{
    match parse_event(fields) {
        Some(event) => EntryStep::Dispatch(event),
        None => EntryStep::Skip,
    }
}

/// Whether `step` is what is to be done with an entry that has the given fields.
pub open spec fn is_entry_step(fields: Fields, step: EntryStep) -> bool {
    match step {
        EntryStep::Dispatch(event) => entry_event(fields) == Some(event@),
        EntryStep::Skip => entry_event(fields) is None,
    }
}

/// What became of an entry.
#[derive(Debug, Clone, Copy)]
pub enum Handling {
    /// It held no event.
    Skipped,
    /// Its event was dispatched, with or without failures.
    Dispatched,
    /// The dispatch of its event failed.
    Failed,
}

/// What happened in the worker's loop.
#[derive(Debug)]
pub enum LoopEvent {
    /// An entry was dealt with.
    Handled { id: String, handling: Handling },
    /// There was no connection to be had.
    NoConnection,
}

/// What the worker's loop does next.
#[derive(Debug)]
pub enum LoopAction {
    /// Sends this command, which acknowledges an entry.
    Acknowledge(Vec<String>),
    /// Waits, and tries again.
    Wait(Duration),
}

/// Whether `action` is what follows an event: an entry is acknowledged whatever became
/// of it, so that it is not read again; without a connection the loop waits for five
/// seconds.
pub open spec fn is_loop_action(
    event: LoopEvent,
    consumer_group: Seq<char>,
    action: LoopAction,
) -> bool {
    match event {
        LoopEvent::Handled { id, .. } => action matches LoopAction::Acknowledge(command) && words(
            command@,
        ) == ack_words(consumer_group, id@),
        LoopEvent::NoConnection => action matches LoopAction::Wait(length) && duration_nanos(length)
            == 5_000_000_000,
    }
}

/// What the worker's loop does next.
pub fn next_action(event: &LoopEvent, consumer_group: &str) -> (r: LoopAction)
    ensures
        is_loop_action(*event, consumer_group@, r),
{
    match event {
        LoopEvent::Handled { id, .. } => LoopAction::Acknowledge(
            ack_command(consumer_group, id.as_str()),
        ),
        LoopEvent::NoConnection => LoopAction::Wait(Duration::from_secs(5)),
    }
}

/// The entries that one read brought, on their way to being acknowledged one by one.
pub struct Batch {
    entries: Vec<(String, Table<FieldValue>)>,
    settled: usize,
}

/// The ids of entries.
pub open spec fn entry_ids(entries: Seq<(String, Table<FieldValue>)>) -> Seq<Seq<char>> {
    entries.map_values(|entry: (String, Table<FieldValue>)| entry.0@)
}

impl Batch {
    #[verifier::type_invariant]
    spec fn is_within(&self) -> bool {
        self.settled <= self.entries@.len()
    }

    /// The entries that were read.
    pub closed spec fn read(&self) -> Seq<(String, Table<FieldValue>)> {
        self.entries@
    }

    /// For how many entries the acknowledgement has been handed out.
    pub closed spec fn done(&self) -> nat {
        self.settled as nat
    }

    /// The ids for which the acknowledgement has been handed out, in order.
    pub open spec fn acknowledged(&self) -> Seq<Seq<char>> {
        entry_ids(self.read()).take(self.done() as int)
    }

    /// The entries of a read, none of them acknowledged.
    pub fn new(entries: Vec<(String, Table<FieldValue>)>) -> (r: Self)
        ensures
            r.read() == entries@,
            r.done() == 0,
            r.acknowledged() == Seq::<Seq<char>>::empty(),
    {
        Batch { entries, settled: 0 }
    }

    /// The id of the next entry and what is to be done with it. Where there is none,
    /// the acknowledgement of every entry has been handed out, once and in order.
    pub fn next_entry(&self) -> (r: Option<(&str, EntryStep)>)
        ensures
            match r {
                Some(next) => {
                    &&& self.done() < self.read().len()
                    &&& next.0@ == self.read()[self.done() as int].0@
                    &&& is_entry_step(self.read()[self.done() as int].1@, next.1)
                },
                None => {
                    &&& self.done() == self.read().len()
                    &&& self.acknowledged() == entry_ids(self.read())
                },
            },
    {
        proof {
            use_type_invariant(self);
        }
        if self.settled < self.entries.len() {
            let entry = &self.entries[self.settled];
            Some((entry.0.as_str(), entry_step(&entry.1)))
        } else {
            assert(self.acknowledged() =~= entry_ids(self.read()));
            None
        }
    }

    /// Settles the next entry, whatever became of it: what follows is that it is
    /// acknowledged.
    pub fn settle(&mut self, handling: Handling, consumer_group: &str) -> (r: LoopAction)
        requires
            old(self).done() < old(self).read().len(),
        ensures
            is_loop_action(
                (LoopEvent::Handled {
                    id: old(self).read()[old(self).done() as int].0,
                    handling,
                }),
                consumer_group@,
                r,
            ),
            final(self).read() == old(self).read(),
            final(self).done() == old(self).done() + 1,
            final(self).acknowledged() == old(self).acknowledged().push(
                old(self).read()[old(self).done() as int].0@,
            ),
    {
        let event = LoopEvent::Handled { id: self.entries[self.settled].0.clone(), handling };
        let action = next_action(&event, consumer_group);
        let ghost ids = entry_ids(self.read());
        let ghost at = self.settled as int;
        let total: usize = self.entries.len();
        assert(self.settled < total);
        self.settled = self.settled + 1;
        assert(ids.take(at + 1) =~= ids.take(at).push(ids[at]));
        action
    }
}

/// What a worker counts.
#[derive(Debug)]
pub struct WorkerStats {
    /// Events whose dispatch came to an end.
    pub events_processed: u64,
    /// Effects that failed, and dispatches that did.
    pub events_failed: u64,
}

/// How many failures a dispatch adds to the count.
pub open spec fn failures_of(outcome: Result<DispatchResult, RouterError>) -> nat {
    match outcome {
        Ok(result) => result.errors@.len(),
        Err(_) => 1,
    }
}

impl WorkerStats {
    /// Nothing counted yet.
    pub fn new() -> (r: Self)
        ensures
            r.events_processed == 0,
            r.events_failed == 0,
    {
        WorkerStats { events_processed: 0, events_failed: 0 }
    }

    /// Counts a dispatch: as processed where it came to an end, and by the failures
    /// that it had.
    pub fn record(&mut self, outcome: &Result<DispatchResult, RouterError>)
        requires
            outcome is Ok ==> old(self).events_processed < u64::MAX,
            old(self).events_failed + failures_of(*outcome) <= u64::MAX,
        ensures
            final(self).events_processed == old(self).events_processed + (if outcome is Ok {
                1int
            } else {
                0int
            }),
            final(self).events_failed == old(self).events_failed + failures_of(*outcome),
    {
        match outcome {
            Ok(result) => {
                self.events_processed = self.events_processed + 1;
                if !result.is_success() {
                    self.events_failed = self.events_failed + result.failure_count() as u64;
                }
            },
            Err(_) => {
                self.events_failed = self.events_failed + 1;
            },
        }
    }

    /// Whether the counts are to be reported: with every hundredth event.
    pub fn is_due(&self) -> (r: bool)
        ensures
            r == (self.events_processed > 0 && self.events_processed % 100 == 0),
    {
        self.events_processed > 0 && self.events_processed % 100 == 0
    }
}

} // verus!
