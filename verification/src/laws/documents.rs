//! JSON documents and the events that they describe.

use crate::dlq::{FailedEvent, FailedEventView};
use crate::event::{text_option, Event, EventView};
use crate::json::{
    array_view, number_is_float, number_of, object_view, reads_back, Json, JsonView,
};
use crate::text::precedes;
use vstd::prelude::*;

verus! {

/// What is put under a name is found there, and what stands under other names is as it
/// was. A new object has no members.
pub proof fn lemma_members_are_found(
    members: Map<Seq<char>, JsonView>,
    name: Seq<char>,
    value: JsonView,
    other: Seq<char>,
)
    ensures
        JsonView::Object(members).with(name, value).get(name) == Some(value),
        other != name ==> JsonView::Object(members).with(name, value).get(other)
            == JsonView::Object(members).get(other),
        JsonView::object().get(name) is None,
        JsonView::Object(members).get(name) == (if members.contains_key(name) {
            Some(members[name])
        } else {
            None
        }),
{
}

/// Only objects have members, and only texts are texts.
pub proof fn lemma_texts_of_members(document: JsonView, name: Seq<char>, text: Seq<char>)
    ensures
        document.get(name) is Some ==> document is Object,
        document.text_at(name) == Some(text) <==> document.get(name) == Some(
            JsonView::Text(text),
        ),
        document.as_text() == Some(text) <==> document == JsonView::Text(text),
{
}

/// Which documents read back: null, truth values and texts always, numbers that are no
/// floats, and arrays and objects whose parts do, nested no deeper than allowed, but for
/// objects in which no name comes before the reserved one.
pub proof fn lemma_what_reads_back(
    items: Seq<JsonView>,
    members: Map<Seq<char>, JsonView>,
    number: serde_json::Number,
    text: Seq<char>,
    depth: nat,
)
    ensures
        reads_back(JsonView::Null, depth),
        reads_back(JsonView::Bool(true), depth) && reads_back(JsonView::Bool(false), depth),
        reads_back(JsonView::Text(text), depth),
        reads_back(JsonView::Number(number), depth) <==> !number_is_float(number),
        !reads_back(JsonView::Array(items), 0) && !reads_back(JsonView::Object(members), 0),
        reads_back(JsonView::Array(items), depth + 1) <==> forall|i: int|
            0 <= i < items.len() ==> reads_back(#[trigger] items[i], depth),
        reads_back(JsonView::Object(members), depth + 1) <==> {
            &&& forall|name: Seq<char>| #[trigger]
                members.contains_key(name) ==> reads_back(members[name], depth)
            &&& members.contains_key("$serde_json::private::RawValue"@) ==> exists|name: Seq<char>|
                #[trigger]
                members.contains_key(name) && precedes(name, "$serde_json::private::RawValue"@)
        },
{
    let array = JsonView::Array(items);
    let deeper = (depth + 1) as nat;
    assert((deeper - 1) as nat == depth);
    if reads_back(array, deeper) {
        assert forall|i: int| 0 <= i < items.len() implies reads_back(
            #[trigger] items[i],
            depth,
        ) by {
            assert(reads_back(array->Array_0[i], (deeper - 1) as nat));
        }
    }
    if forall|i: int| 0 <= i < items.len() ==> reads_back(#[trigger] items[i], depth) {
        assert forall|i: int| 0 <= i < items.len() implies reads_back(
            #[trigger] items[i],
            (deeper - 1) as nat,
        ) by {
            assert(reads_back(items[i], depth));
        }
        assert(reads_back(array, deeper));
    }
}

/// The document of an event holds its source, its type, its payload and, where it has
/// one, its correlation id, and nothing else.
pub proof fn lemma_document_of_an_event(event: EventView, other: Seq<char>)
    ensures
        event.document().get("source"@) == Some(JsonView::Text(event.source)),
        event.document().get("eventType"@) == Some(JsonView::Text(event.event_type)),
        event.document().get("payload"@) == Some(event.payload),
        event.document().get("correlationId"@) == (match event.correlation_id {
            Some(id) => Some(JsonView::Text(id)),
            None => None,
        }),
        other != "source"@ && other != "eventType"@ && other != "payload"@ && other
            != "correlationId"@ ==> event.document().get(other) is None,
{
    reveal_strlit("source");
    reveal_strlit("eventType");
    reveal_strlit("payload");
    reveal_strlit("correlationId");
    assert("source"@.len() == 6 && "eventType"@.len() == 9);
    assert("payload"@.len() == 7 && "correlationId"@.len() == 13);
}

/// The value of a document: each variant is what it holds. The members of an object are
/// those of its entries, of which a later one replaces an earlier one of its name.
pub proof fn lemma_values_of_documents(
    flag: bool,
    number: serde_json::Number,
    text: String,
    items: Vec<Json>,
    i: int,
    entries: Vec<(String, Json)>,
)
    ensures
        Json::Null@ == JsonView::Null,
        Json::Bool(flag)@ == JsonView::Bool(flag),
        Json::Number(number)@ == JsonView::Number(number),
        Json::Text(text)@ == JsonView::Text(text@),
        Json::Array(items)@ matches JsonView::Array(values) && values.len() == items@.len() && (0
            <= i < items@.len() ==> values[i] == items@[i]@),
        Json::Object(entries)@ == JsonView::Object(object_view(entries@)),
{
    let array = Json::Array(items);
    assert(array@ == JsonView::Array(array_view(items@)));
    if 0 <= i < items@.len() {
        assert(array_view(items@)[i] == items@[i]@);
    }
}

/// One more entry is one more member, in place of the one that had its name.
pub proof fn lemma_one_more_entry(entries: Seq<(String, Json)>, name: String, value: Json)
    ensures
        object_view(Seq::<(String, Json)>::empty()) == Map::<Seq<char>, JsonView>::empty(),
        object_view(entries.push((name, value))) == object_view(entries).insert(name@, value@),
{
    reveal_with_fuel(object_view, 2);
    assert(entries.push((name, value)).drop_last() =~= entries);
}

/// A text that may be missing stands in a document as itself or as null.
pub proof fn lemma_missing_texts(text: String, missing: Option<String>)
    requires
        missing is None,
    ensures
        text_option(Some(text)) == Some(text@),
        text_option(missing) is None,
        JsonView::optional_text(Some(text@)) == JsonView::Text(text@),
        JsonView::optional_text(None) == JsonView::Null,
{
}

/// The document of a failure holds the event, the error, the number of retries, the time
/// and the id that the event had, or null without one.
pub proof fn lemma_document_of_a_failure(failed: FailedEventView)
    ensures
        failed.document() == JsonView::Object(
            Map::empty().insert("event"@, failed.event.document()).insert(
                "error"@,
                JsonView::Text(failed.error),
            ).insert(
                "retry_count"@,
                JsonView::Number(number_of(failed.retry_count as u64)),
            ).insert("failed_at"@, JsonView::Text(failed.failed_at)).insert(
                "original_id"@,
                match failed.original_id {
                    Some(id) => JsonView::Text(id),
                    None => JsonView::Null,
                },
            ),
        ),
{
}

/// The value of an event, and that of a failure, is what its fields hold.
pub proof fn lemma_values_of_events(event: Event, failed: FailedEvent)
    ensures
        event@.source == event.source@,
        event@.event_type == event.event_type@,
        event@.payload == event.payload@,
        event@.correlation_id == (match event.correlation_id {
            Some(id) => Some(id@),
            None => None,
        }),
        failed@.event == failed.event@,
        failed@.error == failed.error@,
        failed@.retry_count == failed.retry_count,
        failed@.failed_at == failed.failed_at@,
        failed@.original_id == (match failed.original_id {
            Some(id) => Some(id@),
            None => None,
        }),
{
}

} // verus!
