//! JSON documents.
//!
//! [`Json`] is the document type that events carry. Its mathematical value is
//! a [`JsonView`]: objects are maps, so neither the order of the members nor a
//! member that a later one of the same name replaced is part of the value.
//! Reading and writing JSON text is the work of `serde_json`.

use crate::text::{comes_before, precedes, same_text};
use vstd::prelude::*;

verus! {

/// The value of a JSON document.
#[verifier::ext_equal]
pub enum JsonView {
    Null,
    Bool(bool),
    Number(serde_json::Number),
    Text(Seq<char>),
    Array(Seq<JsonView>),
    Object(Map<Seq<char>, JsonView>),
}

impl JsonView {
    /// The member `key` of an object.
    pub open spec fn get(self, key: Seq<char>) -> Option<JsonView> {
        match self {
            JsonView::Object(members) => if members.contains_key(key) {
                Some(members[key])
            } else {
                None
            },
            _ => None,
        }
    }

    /// An object without members.
    pub open spec fn object() -> JsonView {
        JsonView::Object(Map::empty())
    }

    /// An object with one more member, in place of the one that had its name.
    pub open spec fn with(self, key: Seq<char>, value: JsonView) -> JsonView {
        match self {
            JsonView::Object(members) => JsonView::Object(members.insert(key, value)),
            _ => self,
        }
    }

    /// The text, or null where there is none.
    pub open spec fn optional_text(s: Option<Seq<char>>) -> JsonView {
        match s {
            Some(t) => JsonView::Text(t),
            None => JsonView::Null,
        }
    }

    /// The characters of a text.
    pub open spec fn as_text(self) -> Option<Seq<char>> {
        match self {
            JsonView::Text(s) => Some(s),
            _ => None,
        }
    }

    /// The characters of the member `key`, where it is there and is a text.
    pub open spec fn text_at(self, key: Seq<char>) -> Option<Seq<char>> {
        match self.get(key) {
            Some(v) => v.as_text(),
            None => None,
        }
    }
}

/// A JSON document.
///
/// A number is kept as `serde_json` read it.
#[derive(Debug)]
pub enum Json {
    Null,
    Bool(bool),
    Number(serde_json::Number),
    Text(String),
    Array(Vec<Json>),
    /// The members of an object. Where a name occurs twice, the later one counts.
    Object(Vec<(String, Json)>),
}

impl View for Json {
    type V = JsonView;

    open spec fn view(&self) -> JsonView
        decreases self,
    {
        match self {
            Json::Null => JsonView::Null,
            Json::Bool(b) => JsonView::Bool(*b),
            Json::Number(n) => JsonView::Number(*n),
            Json::Text(s) => JsonView::Text(s@),
            Json::Array(items) => JsonView::Array(array_view(items@)),
            Json::Object(entries) => JsonView::Object(object_view(entries@)),
        }
    }
}

/// The values of the items of an array.
pub open spec fn array_view(items: Seq<Json>) -> Seq<JsonView>
    decreases items,
{
    Seq::new(
        items.len(),
        |i: int|
            if 0 <= i < items.len() {
                items[i].view()
            } else {
                JsonView::Null
            },
    )
}

/// The members of an object: each entry inserted after those before it.
pub open spec fn object_view(entries: Seq<(String, Json)>) -> Map<Seq<char>, JsonView>
    decreases entries,
{
    if entries.len() == 0 {
        Map::empty()
    } else {
        object_view(entries.drop_last()).insert(entries.last().0@, entries.last().1.view())
    }
}

/// A number of `serde_json`: an integer or a float.
#[verifier::external_type_specification]
#[verifier::external_body]
pub struct ExNumber(serde_json::Number);

/// A document of `serde_json`.
#[verifier::external_type_specification]
#[verifier::external_body]
pub struct ExValue(serde_json::Value);

/// The value of a `serde_json` document.
pub uninterp spec fn value_view(value: serde_json::Value) -> JsonView;

/// What `serde_json::from_str` reads in a text; `None` where it reports an error.
pub uninterp spec fn parsed_json(text: Seq<char>) -> Option<JsonView>;

/// What `serde_json::to_string` writes for a document.
pub uninterp spec fn compact_text(value: JsonView) -> Seq<char>;

/// What `serde_json::to_string_pretty` writes for a document.
pub uninterp spec fn pretty_text(value: JsonView) -> Seq<char>;

/// The number that `Number::from` makes of an unsigned integer.
pub uninterp spec fn number_of(n: u64) -> serde_json::Number;

/// What `Number::is_f64` says of a number.
pub uninterp spec fn number_is_float(number: serde_json::Number) -> bool;

/// The clone of a `serde_json` number is that number.
pub assume_specification[ <serde_json::Number as Clone>::clone ](number: &serde_json::Number) -> (r:
    serde_json::Number)
    ensures
        r == *number,
;

/// One layer of a `serde_json` document: what its outermost variant holds.
pub enum Layer {
    Null,
    Bool(bool),
    Number(serde_json::Number),
    Text(String),
    Array(Vec<serde_json::Value>),
    Object(Vec<(String, serde_json::Value)>),
}

/// The members that entries of `serde_json` documents make up.
pub open spec fn value_entries_view(entries: Seq<(String, serde_json::Value)>) -> Map<
    Seq<char>,
    JsonView,
>
    decreases entries.len(),
{
    if entries.len() == 0 {
        Map::empty()
    } else {
        value_entries_view(entries.drop_last()).insert(
            entries.last().0@,
            value_view(entries.last().1),
        )
    }
}

/// No name occurs twice.
pub open spec fn distinct_names(entries: Seq<(String, serde_json::Value)>) -> bool {
    forall|i: int, j: int| 0 <= i < j < entries.len() ==> entries[i].0@ != entries[j].0@
}

impl Layer {
    /// The value of the document that this is the outermost layer of.
    pub open spec fn document(self) -> JsonView {
        match self {
            Layer::Null => JsonView::Null,
            Layer::Bool(b) => JsonView::Bool(b),
            Layer::Number(n) => JsonView::Number(n),
            Layer::Text(s) => JsonView::Text(s@),
            Layer::Array(items) => JsonView::Array(
                items@.map_values(|v: serde_json::Value| value_view(v)),
            ),
            Layer::Object(entries) => JsonView::Object(value_entries_view(entries@)),
        }
    }
}

/// Takes one layer off a `serde_json::Value`: each variant hands over what it
/// holds. The names of an object's entries are distinct, since
/// `serde_json::Map` is keyed by them.
#[verifier::external_body]
fn open_value(value: serde_json::Value) -> (r: Layer)
    ensures
        r.document() == value_view(value),
        r matches Layer::Object(entries) ==> distinct_names(entries@),
{
    match value {
        serde_json::Value::Null => Layer::Null,
        serde_json::Value::Bool(b) => Layer::Bool(b),
        serde_json::Value::Number(n) => Layer::Number(n),
        serde_json::Value::String(s) => Layer::Text(s),
        serde_json::Value::Array(items) => Layer::Array(items),
        serde_json::Value::Object(map) => Layer::Object(map.into_iter().collect()),
    }
}

/// Makes a `serde_json::Value` of one layer: each variant takes what it is to hold.
/// A `serde_json::Map` that is collected from entries with distinct names holds
/// these entries.
#[verifier::external_body]
fn close_value(layer: Layer) -> (r: serde_json::Value)
    requires
        layer matches Layer::Object(entries) ==> distinct_names(entries@),
    ensures
        value_view(r) == layer.document(),
{
    match layer {
        Layer::Null => serde_json::Value::Null,
        Layer::Bool(b) => serde_json::Value::Bool(b),
        Layer::Number(n) => serde_json::Value::Number(n),
        Layer::Text(s) => serde_json::Value::String(s),
        Layer::Array(items) => serde_json::Value::Array(items),
        Layer::Object(entries) => serde_json::Value::Object(entries.into_iter().collect()),
    }
}

/// The member name that `serde_json` keeps for itself: an object whose first member
/// has it is read as what the member's text holds.
pub const RESERVED_NAME: &'static str = "$serde_json::private::RawValue";

/// Whether the reserved name is the first one that is written for an object: the
/// members are written in the order of their names.
pub open spec fn reserved_name_leads(members: Map<Seq<char>, JsonView>) -> bool {
    &&& members.contains_key(RESERVED_NAME@)
    &&& forall|key: Seq<char>| #[trigger]
        members.contains_key(key) ==> !precedes(key, RESERVED_NAME@)
}

/// A document that comes back unchanged when what `serde_json` writes for it is
/// read again: its numbers are integers, arrays and objects are nested at most
/// `depth` deep, and no object is written with the reserved name first.
pub open spec fn reads_back(value: JsonView, depth: nat) -> bool
    decreases depth,
{
    match value {
        JsonView::Null => true,
        JsonView::Bool(_) => true,
        JsonView::Number(n) => !number_is_float(n),
        JsonView::Text(_) => true,
        JsonView::Array(items) => depth > 0 && (forall|i: int|
            0 <= i < items.len() ==> reads_back(#[trigger] items[i], (depth - 1) as nat)),
        JsonView::Object(members) => depth > 0 && !reserved_name_leads(members) && (
        forall|key: Seq<char>| #[trigger]
            members.contains_key(key) ==> reads_back(members[key], (depth - 1) as nat)),
    }
}

/// How deep arrays and objects may be nested in a text that `serde_json` reads.
pub const MAX_DEPTH: u8 = 127;

/// `serde_json::from_str` into a `serde_json::Value`.
#[verifier::external_body]
fn value_from_str(text: &str) -> (r: Option<serde_json::Value>)
    ensures
        match r {
            Some(value) => parsed_json(text@) == Some(value_view(value)),
            None => parsed_json(text@) is None,
        },
{
    serde_json::from_str::<serde_json::Value>(text).ok()
}

/// `serde_json::to_string` of a `serde_json::Value`.
///
/// Text that was written for a document of integers, texts, arrays and objects
/// is read as that document, as long as it is nested no deeper than
/// `serde_json` reads. Floats are left out: reading one may give a neighbour
/// of the float that was written. Objects that are written with the reserved name
/// first are left out too; `serde_json::Map` is a map ordered by its names.
#[verifier::external_body]
fn value_to_string(value: &serde_json::Value) -> (r: String)
    ensures
        r@ == compact_text(value_view(*value)),
        reads_back(value_view(*value), MAX_DEPTH as nat) ==> parsed_json(r@) == Some(
            value_view(*value),
        ),
{
    serde_json::to_string(value).unwrap_or_default()
}

/// `serde_json::to_string_pretty` of a `serde_json::Value`.
#[verifier::external_body]
fn value_to_string_pretty(value: &serde_json::Value) -> (r: String)
    ensures
        r@ == pretty_text(value_view(*value)),
{
    serde_json::to_string_pretty(value).unwrap_or_default()
}

/// `Number::from` of an unsigned integer. What it makes is no float.
#[verifier::external_body]
fn number_from_u64(n: u64) -> (r: serde_json::Number)
    ensures
        r == number_of(n),
        !number_is_float(r),
{
    serde_json::Number::from(n)
}

/// `Number::is_f64`.
#[verifier::external_body]
fn is_float(number: &serde_json::Number) -> (r: bool)
    ensures
        r == number_is_float(*number),
{
    number.is_f64()
}

/// An object has finitely many members.
proof fn lemma_value_entries_finite(entries: Seq<(String, serde_json::Value)>)
    ensures
        value_entries_view(entries).dom().finite(),
    decreases entries.len(),
{
    if entries.len() > 0 {
        lemma_value_entries_finite(entries.drop_last());
    }
}

/// With distinct names every entry is a member.
proof fn lemma_value_entries(entries: Seq<(String, serde_json::Value)>, i: int)
    requires
        distinct_names(entries),
        0 <= i < entries.len(),
    ensures
        value_entries_view(entries).contains_key(entries[i].0@),
        value_entries_view(entries)[entries[i].0@] == value_view(entries[i].1),
    decreases entries.len(),
{
    if i < entries.len() - 1 {
        lemma_value_entries(entries.drop_last(), i);
        assert(entries.drop_last()[i] == entries[i]);
    }
}

/// The document that a `serde_json::Value` holds.
pub fn from_value(value: serde_json::Value) -> (r: Json)
    ensures
        r@ == value_view(value),
    decreases value_view(value),
{
    let ghost content = value_view(value);
    match open_value(value) {
        Layer::Null => Json::Null,
        Layer::Bool(b) => Json::Bool(b),
        Layer::Number(n) => Json::Number(n),
        Layer::Text(s) => Json::Text(s),
        Layer::Array(items) => {
            let ghost all = items@;
            let mut out: Vec<Json> = Vec::new();
            for item in it: items
                invariant
                    it.seq() == all,
                    content == JsonView::Array(
                        all.map_values(|v: serde_json::Value| value_view(v)),
                    ),
                    content == value_view(value),
                    out@.len() == it.index(),
                    forall|k: int| 0 <= k < out@.len() ==> (#[trigger] out@[k])@ == value_view(all[k]),
            {
                assert(content->Array_0[it.index() as int] == value_view(item));
                out.push(from_value(item));
            }
            assert(array_view(out@) =~= content->Array_0);
            Json::Array(out)
        },
        Layer::Object(entries) => {
            let ghost all = entries@;
            let mut out: Vec<(String, Json)> = Vec::new();
            for entry in it: entries
                invariant
                    it.seq() == all,
                    distinct_names(all),
                    content == JsonView::Object(value_entries_view(all)),
                    content == value_view(value),
                    out@.len() == it.index(),
                    object_view(out@) == value_entries_view(all.take(it.index() as int)),
            {
                let ghost at = it.index() as int;
                proof {
                    lemma_value_entries(all, at);
                    lemma_value_entries_finite(all);
                    assert(all.take(at + 1).drop_last() =~= all.take(at));
                }
                let (name, inner) = entry;
                let ghost before = out@;
                assert(decreases_to!(content => content->Object_0));
                assert(decreases_to!(content->Object_0 => content->Object_0[name@]));
                out.push((name, from_value(inner)));
                assert(out@.drop_last() =~= before);
            }
            assert(all.take(all.len() as int) =~= all);
            Json::Object(out)
        },
    }
}

/// An item of an array is smaller than the array.
proof fn lemma_item_is_smaller(json: Json, i: int)
    requires
        json matches Json::Array(items) && 0 <= i < items@.len(),
    ensures
        decreases_to!(json => json->Array_0@[i]),
{
    assert(decreases_to!(json => json->Array_0));
    assert(decreases_to!(json->Array_0 => json->Array_0@));
    assert(decreases_to!(json->Array_0@ => json->Array_0@[i]));
}

/// A member of an object is smaller than the object.
proof fn lemma_entry_is_smaller(json: Json, i: int)
    requires
        json matches Json::Object(entries) && 0 <= i < entries@.len(),
    ensures
        decreases_to!(json => json->Object_0@[i].1),
{
    assert(decreases_to!(json => json->Object_0));
    assert(decreases_to!(json->Object_0 => json->Object_0@));
    assert(decreases_to!(json->Object_0@ => json->Object_0@[i]));
    assert(decreases_to!(json->Object_0@[i] => json->Object_0@[i].1));
}

/// To replace the entry of a name is to insert under that name.
proof fn lemma_replaced_entry(
    entries: Seq<(String, serde_json::Value)>,
    i: int,
    entry: (String, serde_json::Value),
)
    requires
        distinct_names(entries),
        0 <= i < entries.len(),
        entry.0@ == entries[i].0@,
    ensures
        distinct_names(entries.update(i, entry)),
        value_entries_view(entries.update(i, entry)) == value_entries_view(entries).insert(
            entry.0@,
            value_view(entry.1),
        ),
    decreases entries.len(),
{
    let last = entries.len() - 1;
    let after = entries.update(i, entry);
    let earlier = entries.drop_last();
    if i == last {
        assert(after.drop_last() =~= earlier);
    } else {
        assert(after.drop_last() =~= earlier.update(i, entry));
        lemma_replaced_entry(earlier, i, entry);
        assert(entries[i].0@ != entries[last].0@);
    }
    assert(value_entries_view(after) =~= value_entries_view(entries).insert(
        entry.0@,
        value_view(entry.1),
    ));
}

/// Puts a document under a name, in place of the one that stood there.
fn put_entry(
    entries: &mut Vec<(String, serde_json::Value)>,
    name: String,
    value: serde_json::Value,
)
    requires
        distinct_names(old(entries)@),
    ensures
        distinct_names(final(entries)@),
        value_entries_view(final(entries)@) == value_entries_view(old(entries)@).insert(
            name@,
            value_view(value),
        ),
{
    let ghost before = entries@;
    let mut i: usize = 0;
    while i < entries.len()
        invariant
            before == old(entries)@,
            entries@ == before,
            distinct_names(before),
            i <= entries@.len(),
            forall|k: int| 0 <= k < i ==> before[k].0@ != name@,
        decreases entries@.len() - i,
    {
        if same_text(entries[i].0.as_str(), name.as_str()) {
            proof {
                lemma_replaced_entry(before, i as int, (name, value));
            }
            entries.set(i, (name, value));
            return;
        }
        i = i + 1;
    }
    entries.push((name, value));
    proof {
        assert(entries@.drop_last() =~= before);
    }
}

/// The `serde_json::Value` that holds a document.
pub fn to_value(json: &Json) -> (r: serde_json::Value)
    ensures
        value_view(r) == json@,
    decreases json,
{
    match json {
        Json::Null => close_value(Layer::Null),
        Json::Bool(b) => close_value(Layer::Bool(*b)),
        Json::Number(n) => close_value(Layer::Number(n.clone())),
        Json::Text(s) => close_value(Layer::Text(s.clone())),
        Json::Array(items) => {
            let mut out: Vec<serde_json::Value> = Vec::new();
            let mut i: usize = 0;
            while i < items.len()
                invariant
                    *json == Json::Array(*items),
                    i <= items@.len(),
                    out@.len() == i,
                    forall|k: int|
                        0 <= k < i ==> value_view(#[trigger] out@[k]) == items@[k].view(),
                decreases items@.len() - i,
            {
                proof {
                    lemma_item_is_smaller(*json, i as int);
                }
                out.push(to_value(&items[i]));
                i = i + 1;
            }
            assert(out@.map_values(|v: serde_json::Value| value_view(v)) =~= array_view(items@));
            close_value(Layer::Array(out))
        },
        Json::Object(entries) => {
            let mut out: Vec<(String, serde_json::Value)> = Vec::new();
            let mut i: usize = 0;
            while i < entries.len()
                invariant
                    *json == Json::Object(*entries),
                    i <= entries@.len(),
                    distinct_names(out@),
                    value_entries_view(out@) == object_view(entries@.take(i as int)),
                decreases entries@.len() - i,
            {
                proof {
                    assert(entries@.take(i + 1).drop_last() =~= entries@.take(i as int));
                    lemma_entry_is_smaller(*json, i as int);
                }
                let value = to_value(&entries[i].1);
                put_entry(&mut out, entries[i].0.clone(), value);
                i = i + 1;
            }
            assert(entries@.take(entries@.len() as int) =~= entries@);
            close_value(Layer::Object(out))
        },
    }
}

impl Clone for Json {
    /// The clone of a document is the same document.
    fn clone(&self) -> (r: Self)
        ensures
            r@ == self@,
        decreases self,
    {
        match self {
            Json::Null => Json::Null,
            Json::Bool(b) => Json::Bool(*b),
            Json::Number(n) => Json::Number(n.clone()),
            Json::Text(s) => Json::Text(s.clone()),
            Json::Array(items) => {
                let mut out: Vec<Json> = Vec::new();
                let mut i: usize = 0;
                while i < items.len()
                    invariant
                        *self == Json::Array(*items),
                        i <= items@.len(),
                        out@.len() == i,
                        forall|k: int| 0 <= k < i ==> (#[trigger] out@[k])@ == items@[k]@,
                    decreases items@.len() - i,
                {
                    proof {
                        lemma_item_is_smaller(*self, i as int);
                    }
                    out.push(items[i].clone());
                    i = i + 1;
                }
                assert(array_view(out@) =~= array_view(items@));
                Json::Array(out)
            },
            Json::Object(entries) => {
                let mut out: Vec<(String, Json)> = Vec::new();
                let mut i: usize = 0;
                while i < entries.len()
                    invariant
                        *self == Json::Object(*entries),
                        i <= entries@.len(),
                        out@.len() == i,
                        object_view(out@) == object_view(entries@.take(i as int)),
                    decreases entries@.len() - i,
                {
                    let ghost before = out@;
                    proof {
                        assert(entries@.take(i + 1).drop_last() =~= entries@.take(i as int));
                        lemma_entry_is_smaller(*self, i as int);
                    }
                    out.push((entries[i].0.clone(), entries[i].1.clone()));
                    assert(out@.drop_last() =~= before);
                    i = i + 1;
                }
                assert(entries@.take(entries@.len() as int) =~= entries@);
                Json::Object(out)
            },
        }
    }
}

/// A member is the last entry of its name.
proof fn lemma_object_member(entries: Seq<(String, Json)>, i: int)
    requires
        0 <= i < entries.len(),
        forall|k: int| i < k < entries.len() ==> entries[k].0@ != entries[i].0@,
    ensures
        object_view(entries).contains_key(entries[i].0@),
        object_view(entries)[entries[i].0@] == entries[i].1@,
    decreases entries.len(),
{
    reveal_with_fuel(object_view, 2);
    if i < entries.len() - 1 {
        lemma_object_member(entries.drop_last(), i);
        assert(entries.drop_last()[i] == entries[i]);
        assert(entries[entries.len() - 1].0@ != entries[i].0@);
    }
}

/// A name that no entry has is no member.
proof fn lemma_object_absent(entries: Seq<(String, Json)>, key: Seq<char>)
    requires
        forall|k: int| 0 <= k < entries.len() ==> entries[k].0@ != key,
    ensures
        !object_view(entries).contains_key(key),
    decreases entries.len(),
{
    reveal_with_fuel(object_view, 2);
    if entries.len() > 0 {
        assert forall|k: int| 0 <= k < entries.drop_last().len() implies entries.drop_last()[k].0@
            != key by {
            assert(entries.drop_last()[k] == entries[k]);
        }
        lemma_object_absent(entries.drop_last(), key);
        assert(entries[entries.len() - 1].0@ != key);
    }
}

/// A member is the last entry of its name.
proof fn lemma_member_has_entry(entries: Seq<(String, Json)>, key: Seq<char>) -> (i: int)
    requires
        object_view(entries).contains_key(key),
    ensures
        is_last_of_name(entries, i),
        entries[i].0@ == key,
        object_view(entries)[key] == entries[i].1@,
    decreases entries.len(),
{
    reveal_with_fuel(object_view, 2);
    let last = entries.len() - 1;
    if entries[last].0@ == key {
        last
    } else {
        let earlier = entries.drop_last();
        let i = lemma_member_has_entry(earlier, key);
        assert forall|k: int| i < k < entries.len() implies entries[k].0@ != entries[i].0@ by {
            if k < last {
                assert(earlier[k].0@ != earlier[i].0@);
            }
        }
        i
    }
}

/// The name of an entry is the name of a member.
proof fn lemma_entry_is_member(entries: Seq<(String, Json)>, i: int)
    requires
        0 <= i < entries.len(),
    ensures
        object_view(entries).contains_key(entries[i].0@),
    decreases entries.len(),
{
    reveal_with_fuel(object_view, 2);
    if i < entries.len() - 1 {
        lemma_entry_is_member(entries.drop_last(), i);
        assert(entries.drop_last()[i] == entries[i]);
    }
}

/// Whether the reserved name is the first one that is written for an object.
fn is_led_by_reserved_name(entries: &Vec<(String, Json)>) -> (r: bool)
    ensures
        r == reserved_name_leads(object_view(entries@)),
{
    let ghost members = object_view(entries@);
    let mut found = false;
    let mut i: usize = 0;
    while i < entries.len()
        invariant
            members == object_view(entries@),
            i <= entries@.len(),
            found ==> members.contains_key(RESERVED_NAME@),
            !found ==> forall|k: int| 0 <= k < i ==> entries@[k].0@ != RESERVED_NAME@,
            forall|k: int| 0 <= k < i ==> !precedes((#[trigger] entries@[k]).0@, RESERVED_NAME@),
        decreases entries@.len() - i,
    {
        proof {
            lemma_entry_is_member(entries@, i as int);
        }
        let name = entries[i].0.as_str();
        if comes_before(name, RESERVED_NAME) {
            return false;
        }
        if same_text(name, RESERVED_NAME) {
            found = true;
        }
        i = i + 1;
    }
    proof {
        if !found {
            lemma_object_absent(entries@, RESERVED_NAME@);
        }
        assert forall|key: Seq<char>| #[trigger] members.contains_key(key) implies !precedes(
            key,
            RESERVED_NAME@,
        ) by {
            let k = lemma_member_has_entry(entries@, key);
            assert(!precedes(entries@[k].0@, RESERVED_NAME@));
        }
    }
    found
}

/// Whether no later entry has the name of the one at a position.
spec fn is_last_of_name(entries: Seq<(String, Json)>, i: int) -> bool {
    &&& 0 <= i < entries.len()
    &&& forall|k: int| i < k < entries.len() ==> entries[k].0@ != entries[i].0@
}

/// Whether no later entry has the name of the one at a position.
fn last_of_name(entries: &Vec<(String, Json)>, i: usize) -> (r: bool)
    requires
        i < entries@.len(),
    ensures
        r == is_last_of_name(entries@, i as int),
{
    let total: usize = entries.len();
    let mut k: usize = i + 1;
    while k < total
        invariant
            total == entries@.len(),
            i < k <= entries@.len(),
            forall|j: int| i < j < k ==> entries@[j].0@ != entries@[i as int].0@,
        decreases total - k,
    {
        if same_text(entries[k].0.as_str(), entries[i].0.as_str()) {
            return false;
        }
        k = k + 1;
    }
    true
}

impl Json {
    /// Whether the document comes back unchanged when it is written and read again;
    /// `depth` is how deep arrays and objects may be nested, [`MAX_DEPTH`] for a
    /// document that is written on its own.
    pub fn can_read_back(&self, depth: u8) -> (r: bool)
        ensures
            r == reads_back(self@, depth as nat),
        decreases self,
    {
        match self {
            Json::Null => true,
            Json::Bool(_) => true,
            Json::Number(n) => !is_float(n),
            Json::Text(_) => true,
            Json::Array(items) => {
                if depth == 0 {
                    return false;
                }
                assert(self@ == JsonView::Array(array_view(items@)));
                let mut i: usize = 0;
                while i < items.len()
                    invariant
                        *self == Json::Array(*items),
                        self@ == JsonView::Array(array_view(items@)),
                        depth > 0,
                        i <= items@.len(),
                        forall|k: int|
                            0 <= k < i ==> reads_back(
                                #[trigger] array_view(items@)[k],
                                (depth - 1) as nat,
                            ),
                    decreases items@.len() - i,
                {
                    proof {
                        lemma_item_is_smaller(*self, i as int);
                        assert(array_view(items@)[i as int] == items@[i as int]@);
                    }
                    if !items[i].can_read_back(depth - 1) {
                        assert(!reads_back(self@->Array_0[i as int], (depth - 1) as nat));
                        return false;
                    }
                    i = i + 1;
                }
                true
            },
            Json::Object(entries) => {
                if depth == 0 || is_led_by_reserved_name(entries) {
                    return false;
                }
                let mut i: usize = 0;
                while i < entries.len()
                    invariant
                        *self == Json::Object(*entries),
                        depth > 0,
                        !reserved_name_leads(object_view(entries@)),
                        i <= entries@.len(),
                        forall|k: int|
                            0 <= k < i && #[trigger] is_last_of_name(entries@, k) ==> reads_back(
                                entries@[k].1@,
                                (depth - 1) as nat,
                            ),
                    decreases entries@.len() - i,
                {
                    if last_of_name(entries, i) {
                        proof {
                            lemma_object_member(entries@, i as int);
                            lemma_entry_is_smaller(*self, i as int);
                        }
                        if !entries[i].1.can_read_back(depth - 1) {
                            return false;
                        }
                    }
                    i = i + 1;
                }
                proof {
                    let members = object_view(entries@);
                    assert forall|key: Seq<char>| #[trigger]
                        members.contains_key(key) implies reads_back(
                        members[key],
                        (depth - 1) as nat,
                    ) by {
                        let k = lemma_member_has_entry(entries@, key);
                        assert(is_last_of_name(entries@, k));
                    }
                }
                true
            },
        }
    }

    /// The member `key`, where this is an object that has it.
    pub fn get(&self, key: &str) -> (r: Option<&Json>)
        ensures
            match r {
                Some(member) => self@.get(key@) == Some(member@),
                None => self@.get(key@) is None,
            },
    {
        match self {
            Json::Object(entries) => {
                let mut i: usize = entries.len();
                while i > 0
                    invariant
                        *self == Json::Object(*entries),
                        i <= entries@.len(),
                        forall|k: int| i <= k < entries@.len() ==> entries@[k].0@ != key@,
                    decreases i,
                {
                    i = i - 1;
                    if same_text(entries[i].0.as_str(), key) {
                        proof {
                            lemma_object_member(entries@, i as int);
                        }
                        return Some(&entries[i].1);
                    }
                }
                proof {
                    lemma_object_absent(entries@, key@);
                }
                None
            },
            _ => None,
        }
    }

    /// The text, where this is one.
    pub fn as_str(&self) -> (r: Option<&str>)
        ensures
            match r {
                Some(s) => self@.as_text() == Some(s@),
                None => self@.as_text() is None,
            },
    {
        match self {
            Json::Text(s) => Some(s.as_str()),
            _ => None,
        }
    }

    /// The text that the member `key` is, where this is an object that has it.
    pub fn text_at(&self, key: &str) -> (r: Option<&str>)
        ensures
            match r {
                Some(s) => self@.text_at(key@) == Some(s@),
                None => self@.text_at(key@) is None,
            },
    {
        match self.get(key) {
            Some(member) => member.as_str(),
            None => None,
        }
    }

    /// A text.
    pub fn text(s: &str) -> (r: Json)
        ensures
            r@ == JsonView::Text(s@),
    {
        Json::Text(s.to_string())
    }

    /// The text, or null where there is none.
    pub fn optional_text(s: &Option<String>) -> (r: Json)
        ensures
            r@ == JsonView::optional_text(
                match *s {
                    Some(t) => Some(t@),
                    None => None,
                },
            ),
    {
        match s {
            Some(t) => Json::Text(t.clone()),
            None => Json::Null,
        }
    }

    /// An object without members.
    pub fn object() -> (r: Json)
        ensures
            r@ == JsonView::object(),
            r is Object,
    {
        let r = Json::Object(Vec::new());
        assert(object_view(Seq::<(String, Json)>::empty()) =~= Map::empty());
        r
    }

    /// The object with one more member, in place of the one that had its name.
    /// What is no object stays as it is.
    pub fn with(self, key: &str, value: Json) -> (r: Json)
        ensures
            r@ == self@.with(key@, value@),
    {
        match self {
            Json::Object(entries) => {
                let mut entries = entries;
                let ghost before = entries@;
                entries.push((key.to_string(), value));
                proof {
                    reveal_with_fuel(object_view, 2);
                    assert(entries@.drop_last() =~= before);
                }
                Json::Object(entries)
            },
            other => other,
        }
    }

    /// An unsigned integer.
    pub fn integer(n: u64) -> (r: Json)
        ensures
            r@ == JsonView::Number(number_of(n)),
    {
        Json::Number(number_from_u64(n))
    }

    /// Reads JSON text; `None` where it is malformed.
    pub fn parse(text: &str) -> (r: Option<Json>)
        ensures
            match r {
                Some(json) => parsed_json(text@) == Some(json@),
                None => parsed_json(text@) is None,
            },
    {
        match value_from_str(text) {
            Some(value) => Some(from_value(value)),
            None => None,
        }
    }

    /// Writes the document without any white space between its parts.
    pub fn to_compact(&self) -> (r: String)
        ensures
            r@ == compact_text(self@),
            reads_back(self@, MAX_DEPTH as nat) ==> parsed_json(r@) == Some(self@),
    {
        value_to_string(&to_value(self))
    }

    /// Writes the document over several lines, indented.
    pub fn to_pretty(&self) -> (r: String)
        ensures
            r@ == pretty_text(self@),
    {
        value_to_string_pretty(&to_value(self))
    }
}

} // verus!
