//! Dead letter queue for failed events.
//!
//! Events that fail after all retries are put into a Redis stream of their own,
//! where they wait to be looked at. A [`DeadLetterQueue`] makes the commands for
//! that stream and reads the replies.

use crate::ambient::{current_timestamp, is_utc_timestamp};
use crate::event::{text_option, Event, EventView};
use crate::json::{
    compact_text, number_of, parsed_json, reads_back, Json, JsonView, MAX_DEPTH,
    RESERVED_NAME,
};
use crate::stream::{
    command_of, entries_with, entries_without, field_texts, flattened, has_id, ids_are_distinct,
    lemma_entries_with, lemma_entries_without, words, StreamEntry, StreamView,
};
use crate::text::{decimal, decimal_text, lemma_parse_decimal, parse_u32, parsed_u32, same_text};
use vstd::prelude::*;

verus! {

/// Name of the stream.
pub const DLQ_STREAM_NAME: &'static str = "synapse:events:dlq";

/// How many entries to keep; older ones are trimmed.
pub const DLQ_MAX_LEN: usize = 10000;

/// The value of an event that failed.
#[verifier::ext_equal]
pub struct FailedEventView {
    pub event: EventView,
    pub error: Seq<char>,
    pub retry_count: u32,
    pub failed_at: Seq<char>,
    pub original_id: Option<Seq<char>>,
}

/// An event that failed.
#[derive(Debug)]
pub struct FailedEvent {
    /// The event.
    pub event: Event,
    /// What went wrong at the last attempt.
    pub error: String,
    /// How many retries were made.
    pub retry_count: u32,
    /// When the event was given up, in ISO 8601.
    pub failed_at: String,
    /// Id of the stream entry that the event came from, where it is known.
    pub original_id: Option<String>,
}

impl View for FailedEvent {
    type V = FailedEventView;

    open spec fn view(&self) -> FailedEventView {
        FailedEventView {
            event: self.event@,
            error: self.error@,
            retry_count: self.retry_count,
            failed_at: self.failed_at@,
            original_id: text_option(self.original_id),
        }
    }
}

impl FailedEventView {
    /// The JSON document that describes the failure.
    pub open spec fn document(self) -> JsonView {
        JsonView::object().with("event"@, self.event.document()).with(
            "error"@,
            JsonView::Text(self.error),
        ).with("retry_count"@, JsonView::Number(number_of(self.retry_count as u64))).with(
            "failed_at"@,
            JsonView::Text(self.failed_at),
        ).with("original_id"@, JsonView::optional_text(self.original_id))
    }

    /// Id of the stream entry that the event came from; empty where it is unknown.
    pub open spec fn id_text(self) -> Seq<char> {
        match self.original_id {
            Some(id) => id,
            None => Seq::empty(),
        }
    }

    /// The fields of the queue's entry, where `event_json` is the event as JSON.
    pub open spec fn fields(self, event_json: Seq<char>) -> Seq<(Seq<char>, Seq<char>)> {
        seq![
            ("event"@, event_json),
            ("error"@, self.error),
            ("retryCount"@, decimal(self.retry_count as nat)),
            ("failedAt"@, self.failed_at),
            ("originalId"@, self.id_text()),
            ("source"@, self.event.source),
            ("eventType"@, self.event.event_type),
        ]
    }

    /// Whether the object read from an entry of the queue tells of this failure,
    /// with `event` in the place of the event.
    pub open spec fn is_told_by(self, entry: JsonView, event: JsonView) -> bool {
        &&& entry.get("event"@) == Some(event)
        &&& entry.text_at("error"@) == Some(self.error)
        &&& entry.get("retryCount"@) == Some(
            JsonView::Number(number_of(self.retry_count as u64)),
        )
        &&& entry.text_at("failedAt"@) == Some(self.failed_at)
        &&& entry.text_at("originalId"@) == Some(self.id_text())
        &&& entry.text_at("source"@) == Some(self.event.source)
        &&& entry.text_at("eventType"@) == Some(self.event.event_type)
    }
}

impl FailedEvent {
    /// The JSON document that describes the failure.
    pub fn to_json(&self) -> (r: Json)
        ensures
            r@ == self@.document(),
    {
        Json::object().with("event", self.event.to_json()).with(
            "error",
            Json::text(self.error.as_str()),
        ).with("retry_count", Json::integer(self.retry_count as u64)).with(
            "failed_at",
            Json::text(self.failed_at.as_str()),
        ).with("original_id", Json::optional_text(&self.original_id))
    }
}

impl Clone for FailedEvent {
    /// The clone of a failure is the same failure.
    fn clone(&self) -> (r: Self)
        ensures
            r@ == self@,
    {
        FailedEvent {
            event: self.event.clone(),
            error: self.error.clone(),
            retry_count: self.retry_count,
            failed_at: self.failed_at.clone(),
            original_id: self.original_id.clone(),
        }
    }
}

/// What can go wrong with the queue.
#[derive(Debug)]
pub enum DlqError {
    ConnectionError(String),
    RedisError(String),
    SerializationError(String),
}

impl DlqError {
    /// The text that tells a reader what went wrong.
    pub open spec fn text(self) -> Seq<char> {
        match self {
            DlqError::ConnectionError(detail) => "Redis connection error: "@ + detail@,
            DlqError::RedisError(detail) => "Redis command error: "@ + detail@,
            DlqError::SerializationError(detail) => "Serialization error: "@ + detail@,
        }
    }

    /// Tells a reader what went wrong.
    pub fn message(&self) -> (r: String)
        ensures
            r@ == self.text(),
    {
        match self {
            DlqError::ConnectionError(detail) => "Redis connection error: ".to_string().concat(
                detail.as_str(),
            ),
            DlqError::RedisError(detail) => "Redis command error: ".to_string().concat(
                detail.as_str(),
            ),
            DlqError::SerializationError(detail) => "Serialization error: ".to_string().concat(
                detail.as_str(),
            ),
        }
    }
}

/// What the value of a field means: the event is JSON, the retry count a number,
/// anything else text. What cannot be read so is text too. `parsed` is the value
/// read as JSON.
pub open spec fn field_meaning(
    name: Seq<char>,
    value: Seq<char>,
    parsed: Option<JsonView>,
) -> JsonView {
    if name == "event"@ {
        match parsed {
            Some(json) => json,
            None => JsonView::Text(value),
        }
    } else if name == "retryCount"@ {
        match parsed_u32(value) {
            Some(n) => JsonView::Number(number_of(n as u64)),
            None => JsonView::Text(value),
        }
    } else {
        JsonView::Text(value)
    }
}

/// What the value of a field means. `parsed` is the value read as JSON.
pub fn decode_field(name: &str, value: &str, parsed: Option<Json>) -> (r: Json)
    ensures
        r@ == field_meaning(
            name@,
            value@,
            match parsed {
                Some(json) => Some(json@),
                None => None,
            },
        ),
{
    if same_text(name, "event") {
        match parsed {
            Some(json) => json,
            None => Json::text(value),
        }
    } else if same_text(name, "retryCount") {
        match parse_u32(value) {
            Some(n) => Json::integer(n as u64),
            None => Json::text(value),
        }
    } else {
        Json::text(value)
    }
}

/// The object that the fields of an entry make up.
pub open spec fn entry_meaning(fields: Seq<(Seq<char>, Seq<char>)>) -> JsonView
    decreases fields.len(),
{
    if fields.len() == 0 {
        JsonView::object()
    } else {
        let (name, value) = fields.last();
        entry_meaning(fields.drop_last()).with(
            name,
            field_meaning(name, value, parsed_json(value)),
        )
    }
}

/// The object that the fields of an entry make up.
pub fn decode_entry(fields: &Vec<(String, String)>) -> (r: Json)
    ensures
        r@ == entry_meaning(field_texts(fields@)),
{
    let mut out = Json::object();
    let ghost all = field_texts(fields@);
    assert(all.take(0).len() == 0);
    let mut i: usize = 0;
    while i < fields.len()
        invariant
            all == field_texts(fields@),
            i <= fields@.len(),
            out@ == entry_meaning(all.take(i as int)),
        decreases fields@.len() - i,
    {
        let name = fields[i].0.as_str();
        let value = fields[i].1.as_str();
        let parsed = if same_text(name, "event") {
            Json::parse(value)
        } else {
            None
        };
        let meaning = decode_field(name, value, parsed);
        assert(meaning@ == field_meaning(name@, value@, parsed_json(value@)));
        out = out.with(name, meaning);
        proof {
            assert(all.take(i + 1).drop_last() =~= all.take(i as int));
            assert(all.take(i + 1).last() == (name@, value@));
        }
        i = i + 1;
    }
    assert(all.take(all.len() as int) =~= all);
    out
}

/// The queue for failed events.
#[derive(Debug, Clone, Copy)]
pub struct DeadLetterQueue;

impl DeadLetterQueue {
    /// The queue.
    pub fn new() -> (r: Self)
        ensures
            r == DeadLetterQueue,
    {
        DeadLetterQueue
    }

    /// The words of the command that adds fields to the queue and trims it.
    pub open spec fn add_words(fields: Seq<(Seq<char>, Seq<char>)>) -> Seq<Seq<char>> {
        seq![
            "XADD"@,
            DLQ_STREAM_NAME@,
            "MAXLEN"@,
            "~"@,
            decimal(DLQ_MAX_LEN as nat),
            "*"@,
        ] + flattened(fields)
    }

    /// The command that adds a failed event. `event_json` is the event as JSON.
    pub fn add_command(&self, failed: &FailedEvent, event_json: &str) -> (r: Vec<String>)
        ensures
            words(r@) == Self::add_words(failed@.fields(event_json@)),
    {
        let limit = decimal_text(DLQ_MAX_LEN as u64);
        let retries = decimal_text(failed.retry_count as u64);
        let id = match &failed.original_id {
            Some(id) => id.as_str(),
            None => "",
        };
        let mut parts: Vec<&str> = Vec::new();
        parts.push("XADD");
        parts.push(DLQ_STREAM_NAME);
        parts.push("MAXLEN");
        parts.push("~");
        parts.push(limit.as_str());
        parts.push("*");
        parts.push("event");
        parts.push(event_json);
        parts.push("error");
        parts.push(failed.error.as_str());
        parts.push("retryCount");
        parts.push(retries.as_str());
        parts.push("failedAt");
        parts.push(failed.failed_at.as_str());
        parts.push("originalId");
        parts.push(id);
        parts.push("source");
        parts.push(failed.event.source.as_str());
        parts.push("eventType");
        parts.push(failed.event.event_type.as_str());
        proof {
            reveal_strlit("");
            assert(""@ =~= Seq::<char>::empty());
            reveal_with_fuel(flattened, 8);
            assert(parts@.map_values(|s: &str| s@) =~= Self::add_words(
                failed@.fields(event_json@),
            ));
        }
        command_of(parts)
    }

    /// The command that adds an event that failed just now.
    ///
    /// What it adds is read back as the same failure, for a payload that reads back;
    /// see [`reads_back`] for what is left out.
    pub fn add_failed_event(
        &self,
        event: &Event,
        error: &str,
        retry_count: u32,
        original_id: Option<&str>,
    ) -> (r: Vec<String>)
        ensures
            exists|failed_at: Seq<char>|
                {
                    let failed = FailedEventView {
                        event: event@,
                        error: error@,
                        retry_count,
                        failed_at,
                        original_id: match original_id {
                            Some(id) => Some(id@),
                            None => None,
                        },
                    };
                    let fields = failed.fields(compact_text(event@.document()));
                    &&& #[trigger] is_utc_timestamp(failed_at)
                    &&& words(r@) == Self::add_words(fields)
                    &&& reads_back(event@.payload, (MAX_DEPTH - 1) as nat) ==> failed.is_told_by(
                        entry_meaning(fields),
                        event@.document(),
                    )
                },
    {
        let failed = FailedEvent {
            event: event.clone(),
            error: error.to_string(),
            retry_count,
            failed_at: current_timestamp(),
            original_id: match original_id {
                Some(id) => Some(id.to_string()),
                None => None,
            },
        };
        let event_json = event.to_json().to_compact();
        proof {
            if reads_back(event@.payload, (MAX_DEPTH - 1) as nat) {
                lemma_document_reads_back(event@);
            }
            lemma_failed_event_comes_back(failed@, event_json@);
        }
        self.add_command(&failed, event_json.as_str())
    }

    /// The command that asks how many events the queue holds.
    pub fn count_command(&self) -> (r: Vec<String>)
        ensures
            words(r@) == seq!["XLEN"@, DLQ_STREAM_NAME@],
    {
        let mut parts: Vec<&str> = Vec::new();
        parts.push("XLEN");
        parts.push(DLQ_STREAM_NAME);
        assert(parts@.map_values(|s: &str| s@) =~= seq!["XLEN"@, DLQ_STREAM_NAME@]);
        command_of(parts)
    }

    /// The command that asks for the entries up to the end of a page.
    pub fn list_command(&self, count: usize, offset: usize) -> (r: Vec<String>)
        requires
            count + offset <= usize::MAX,
        ensures
            words(r@) == seq![
                "XRANGE"@,
                DLQ_STREAM_NAME@,
                "-"@,
                "+"@,
                "COUNT"@,
                decimal((count + offset) as nat),
            ],
    {
        let limit = decimal_text((count + offset) as u64);
        let mut parts: Vec<&str> = Vec::new();
        parts.push("XRANGE");
        parts.push(DLQ_STREAM_NAME);
        parts.push("-");
        parts.push("+");
        parts.push("COUNT");
        parts.push(limit.as_str());
        assert(parts@.map_values(|s: &str| s@) =~= seq![
            "XRANGE"@,
            DLQ_STREAM_NAME@,
            "-"@,
            "+"@,
            "COUNT"@,
            decimal((count + offset) as nat),
        ]);
        command_of(parts)
    }

    /// The page of `count` entries that starts behind the first `offset`, each
    /// with its id and the object that its fields make up.
    pub fn list(&self, entries: &Vec<StreamEntry>, count: usize, offset: usize) -> (r: Vec<
        (String, Json),
    >)
        ensures
            r@.len() == (if entries@.len() <= offset {
                0
            } else if entries@.len() - offset <= count {
                entries@.len() - offset
            } else {
                count as int
            }),
            forall|i: int|
                0 <= i < r@.len() ==> (#[trigger] r@[i]).0@ == entries@[offset + i].0@ && r@[i].1@
                    == entry_meaning(field_texts(entries@[offset + i].1@)),
    {
        let mut out: Vec<(String, Json)> = Vec::new();
        let total: usize = entries.len();
        if offset >= total {
            return out;
        }
        let room: usize = total - offset;
        let size: usize = if room <= count {
            room
        } else {
            count
        };
        let mut i: usize = 0;
        while i < size
            invariant
                total == entries@.len(),
                offset + size <= total,
                i <= size,
                out@.len() == i,
                forall|k: int|
                    0 <= k < i ==> (#[trigger] out@[k]).0@ == entries@[offset + k].0@ && out@[k].1@
                        == entry_meaning(field_texts(entries@[offset + k].1@)),
            decreases size - i,
        {
            let entry = &entries[offset + i];
            out.push((entry.0.clone(), decode_entry(&entry.1)));
            i = i + 1;
        }
        out
    }

    /// The command that removes an entry.
    pub fn remove_command(&self, id: &str) -> (r: Vec<String>)
        ensures
            words(r@) == seq!["XDEL"@, DLQ_STREAM_NAME@, id@],
    {
        let mut parts: Vec<&str> = Vec::new();
        parts.push("XDEL");
        parts.push(DLQ_STREAM_NAME);
        parts.push(id);
        assert(parts@.map_values(|s: &str| s@) =~= seq!["XDEL"@, DLQ_STREAM_NAME@, id@]);
        command_of(parts)
    }

    /// Whether an entry was there to be removed, by how many were.
    pub fn remove(&self, removed: u64) -> (r: bool)
        ensures
            r == (removed > 0),
    {
        removed > 0
    }

    /// The command that asks for one entry.
    pub fn get_command(&self, id: &str) -> (r: Vec<String>)
        ensures
            words(r@) == seq!["XRANGE"@, DLQ_STREAM_NAME@, id@, id@],
    {
        let mut parts: Vec<&str> = Vec::new();
        parts.push("XRANGE");
        parts.push(DLQ_STREAM_NAME);
        parts.push(id);
        parts.push(id);
        assert(parts@.map_values(|s: &str| s@) =~= seq!["XRANGE"@, DLQ_STREAM_NAME@, id@, id@]);
        command_of(parts)
    }

    /// The object that the fields of the entry asked for make up; `None` where
    /// there is no such entry.
    pub fn get(&self, entries: &Vec<StreamEntry>) -> (r: Option<Json>)
        ensures
            match r {
                Some(json) => entries@.len() > 0 && json@ == entry_meaning(
                    field_texts(entries@[0].1@),
                ),
                None => entries@.len() == 0,
            },
    {
        if entries.is_empty() {
            None
        } else {
            Some(decode_entry(&entries[0].1))
        }
    }
}

/// The document of an event reads back where its payload does.
proof fn lemma_document_reads_back(event: EventView)
    requires
        reads_back(event.payload, (MAX_DEPTH - 1) as nat),
    ensures
        reads_back(event.document(), MAX_DEPTH as nat),
{
    reveal_with_fuel(reads_back, 2);
    reveal_strlit("$serde_json::private::RawValue");
    reveal_strlit("source");
    reveal_strlit("eventType");
    reveal_strlit("payload");
    reveal_strlit("correlationId");
    assert(RESERVED_NAME@[0] == '$');
    assert("source"@[0] == 's' && "eventType"@[0] == 'e');
    assert("payload"@[0] == 'p' && "correlationId"@[0] == 'c');
}

/// What was put into the queue is what comes out: every field as it was written,
/// the retry count as the number it was, and the event as the document that its
/// JSON text holds.
pub proof fn lemma_failed_event_comes_back(failed: FailedEventView, event_json: Seq<char>)
    ensures
        failed.is_told_by(
            entry_meaning(failed.fields(event_json)),
            match parsed_json(event_json) {
                Some(json) => json,
                None => JsonView::Text(event_json),
            },
        ),
{
    let fields = failed.fields(event_json);
    lemma_parse_decimal(failed.retry_count);
    reveal_strlit("event");
    reveal_strlit("error");
    reveal_strlit("retryCount");
    reveal_strlit("failedAt");
    reveal_strlit("originalId");
    reveal_strlit("source");
    reveal_strlit("eventType");
    assert("event"@.len() == 5 && "event"@[1] == 'v');
    assert("error"@.len() == 5 && "error"@[1] == 'r');
    assert("retryCount"@.len() == 10 && "retryCount"@[0] == 'r');
    assert("failedAt"@.len() == 8);
    assert("originalId"@.len() == 10 && "originalId"@[0] == 'o');
    assert("source"@.len() == 6);
    assert("eventType"@.len() == 9);
    reveal_with_fuel(entry_meaning, 8);
    let f6 = fields.drop_last();
    let f5 = f6.drop_last();
    let f4 = f5.drop_last();
    let f3 = f4.drop_last();
    let f2 = f3.drop_last();
    let f1 = f2.drop_last();
    assert(fields.last() == ("eventType"@, failed.event.event_type));
    assert(f6.last() == ("source"@, failed.event.source));
    assert(f5.last() == ("originalId"@, failed.id_text()));
    assert(f4.last() == ("failedAt"@, failed.failed_at));
    assert(f3.last() == ("retryCount"@, decimal(failed.retry_count as nat)));
    assert(f2.last() == ("error"@, failed.error));
    assert(f1.last() == ("event"@, event_json));
    assert(f1.drop_last().len() == 0);
}

/// A removed entry is gone, and nothing else is. The reply to the command, from which
/// [`DeadLetterQueue::remove`] tells whether the entry was there, is how many entries
/// have the id. Afterwards none has it, so that there is none to get and a second
/// removal finds nothing; every other entry is as it was; and the queue is shorter by
/// one exactly where the entry was there. The id is one that Redis gave, and Redis
/// does what its commands say.
pub proof fn lemma_removed_entry_is_gone(queue: StreamView, id: Seq<char>, other: Seq<char>)
    requires
        ids_are_distinct(queue),
    ensures
        ({
            let after = entries_without(queue, id);
            let removed = entries_with(queue, id).len();
            &&& removed > 0 <==> has_id(queue, id)
            &&& entries_with(after, id).len() == 0
            &&& other != id ==> entries_with(after, other) == entries_with(queue, other)
            &&& after.len() == queue.len() - (if removed > 0 {
                1int
            } else {
                0int
            })
        }),
{
    lemma_entries_with(queue, id);
    lemma_entries_without(queue, id, other);
}

} // verus!
