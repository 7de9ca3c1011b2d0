//! Commands for Redis streams, and the entries that they hold.

use vstd::prelude::*;

verus! {

/// The characters of the words of a command.
pub open spec fn words(command: Seq<String>) -> Seq<Seq<char>> {
    command.map_values(|s: String| s@)
}

/// The fields of a stream entry, by name and value.
pub open spec fn field_texts(fields: Seq<(String, String)>) -> Seq<(Seq<char>, Seq<char>)> {
    fields.map_values(|f: (String, String)| (f.0@, f.1@))
}

/// Names and values one behind the other.
pub open spec fn flattened(fields: Seq<(Seq<char>, Seq<char>)>) -> Seq<Seq<char>>
    decreases fields.len(),
{
    if fields.len() == 0 {
        Seq::empty()
    } else {
        flattened(fields.drop_last()).push(fields.last().0).push(fields.last().1)
    }
}

/// The words of a command.
pub fn command_of(parts: Vec<&str>) -> (r: Vec<String>)
    ensures
        words(r@) == parts@.map_values(|s: &str| s@),
{
    let mut out: Vec<String> = Vec::new();
    let mut i: usize = 0;
    while i < parts.len()
        invariant
            i <= parts@.len(),
            out@.len() == i,
            forall|k: int| 0 <= k < i ==> (#[trigger] out@[k])@ == parts@[k]@,
        decreases parts@.len() - i,
    {
        out.push(parts[i].to_string());
        i = i + 1;
    }
    assert(words(out@) =~= parts@.map_values(|s: &str| s@));
    out
}

/// An entry as Redis returns it: its id and its fields.
pub type StreamEntry = (String, Vec<(String, String)>);

/// What a stream holds: its entries in order, each with its id and its fields.
pub type StreamView = Seq<(Seq<char>, Seq<(Seq<char>, Seq<char>)>)>;

/// Whether no two entries have the same id.
pub open spec fn ids_are_distinct(stream: StreamView) -> bool {
    forall|i: int, j: int|
        0 <= i < j < stream.len() ==> (#[trigger] stream[i]).0 != (#[trigger] stream[j]).0
}

/// Whether an entry has the id.
pub open spec fn has_id(stream: StreamView, id: Seq<char>) -> bool {
    exists|i: int| 0 <= i < stream.len() && (#[trigger] stream[i]).0 == id
}

/// The entries with an id: what `XRANGE` from an id to itself answers, where the id
/// is one that Redis gave.
pub open spec fn entries_with(stream: StreamView, id: Seq<char>) -> StreamView
    decreases stream.len(),
{
    if stream.len() == 0 {
        stream
    } else {
        let earlier = entries_with(stream.drop_last(), id);
        if stream.last().0 == id {
            earlier.push(stream.last())
        } else {
            earlier
        }
    }
}

/// The entries without those of an id: what a stream holds after `XDEL`, which
/// answers how many entries it dropped.
pub open spec fn entries_without(stream: StreamView, id: Seq<char>) -> StreamView
    decreases stream.len(),
{
    if stream.len() == 0 {
        stream
    } else {
        let earlier = entries_without(stream.drop_last(), id);
        if stream.last().0 == id {
            earlier
        } else {
            earlier.push(stream.last())
        }
    }
}

/// With distinct ids at most one entry has an id, and one does where the id is there.
pub proof fn lemma_entries_with(stream: StreamView, id: Seq<char>)
    requires
        ids_are_distinct(stream),
    ensures
        entries_with(stream, id).len() == (if has_id(stream, id) {
            1int
        } else {
            0int
        }),
    decreases stream.len(),
{
    if stream.len() > 0 {
        let earlier = stream.drop_last();
        let last = stream.len() - 1;
        assert forall|i: int, j: int| 0 <= i < j < earlier.len() implies (#[trigger] earlier[i]).0
            != (#[trigger] earlier[j]).0 by {
            assert(stream[i].0 != stream[j].0);
        }
        lemma_entries_with(earlier, id);
        if has_id(earlier, id) {
            let i = choose|i: int| 0 <= i < earlier.len() && (#[trigger] earlier[i]).0 == id;
            assert(stream[i].0 == id);
            assert(stream[i].0 != stream[last].0);
        }
        if has_id(stream, id) {
            let i = choose|i: int| 0 <= i < stream.len() && (#[trigger] stream[i]).0 == id;
            if i < last {
                assert(earlier[i].0 == id);
            }
        }
        if stream.last().0 == id {
            assert(stream[last].0 == id);
        }
    }
}

/// Every entry either has an id or is kept without it; what is kept has it no more,
/// and the entries of any other id stay.
pub proof fn lemma_entries_without(stream: StreamView, id: Seq<char>, other: Seq<char>)
    ensures
        entries_without(stream, id).len() + entries_with(stream, id).len() == stream.len(),
        entries_with(entries_without(stream, id), id).len() == 0,
        other != id ==> entries_with(entries_without(stream, id), other) == entries_with(
            stream,
            other,
        ),
    decreases stream.len(),
{
    if stream.len() > 0 {
        let earlier = entries_without(stream.drop_last(), id);
        lemma_entries_without(stream.drop_last(), id, other);
        if stream.last().0 != id {
            assert(earlier.push(stream.last()).drop_last() =~= earlier);
        }
    }
}

} // verus!
