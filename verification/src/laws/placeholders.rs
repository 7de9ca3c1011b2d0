//! Placeholders in configuration text.

use crate::placeholders::{
    continues_name, is_variable_name, lemma_placeholder_is_replaced,
    opens_with, placeholder, starts_name, starts_placeholder, substituted,
};
use vstd::prelude::*;

verus! {

/// A variable's name is made of letters, digits and underscores, and does not start with
/// a digit. Its placeholder is the name in braces behind a dollar sign.
pub proof fn lemma_names_of_variables(name: Seq<char>)
    ensures
        is_variable_name(name) <==> {
            &&& name.len() > 0
            &&& !('0' <= name[0] <= '9')
            &&& forall|i: int|
                0 <= i < name.len() ==> {
                    let c = #[trigger] name[i];
                    'a' <= c <= 'z' || 'A' <= c <= 'Z' || '0' <= c <= '9' || c == '_'
                }
        },
        placeholder(name) == seq!['$', '{'] + name + seq!['}'],
{
    if is_variable_name(name) {
        assert(starts_name(name[0]));
        assert forall|i: int| 0 <= i < name.len() implies {
            let c = #[trigger] name[i];
            'a' <= c <= 'z' || 'A' <= c <= 'Z' || '0' <= c <= '9' || c == '_'
        } by {
            assert(continues_name(name[i]));
        }
    }
}

/// A text that starts with a placeholder starts with the value of its variable or, where
/// it is not set, with the placeholder itself; the rest is treated as if it stood alone,
/// and what was put in is not looked at again.
pub proof fn lemma_placeholder_in_front(
    name: Seq<char>,
    rest: Seq<char>,
    vars: Map<Seq<char>, String>,
)
    requires
        is_variable_name(name),
    ensures
        substituted(seq!['$', '{'] + name + seq!['}'] + rest, vars) == (if vars.contains_key(name) {
            vars[name]@
        } else {
            seq!['$', '{'] + name + seq!['}']
        }) + substituted(rest, vars),
{
    lemma_placeholder_is_replaced(placeholder(name) + rest, name, rest, vars);
}

/// A text that does not start with a placeholder keeps its first character, and the rest
/// is treated as if it stood alone. Nothing stays nothing.
pub proof fn lemma_character_in_front(c: char, rest: Seq<char>, vars: Map<Seq<char>, String>)
    requires
        forall|name: Seq<char>, behind: Seq<char>|
            is_variable_name(name) ==> seq![c] + rest != #[trigger] (placeholder(name) + behind),
    ensures
        substituted(seq![c] + rest, vars) == seq![c] + substituted(rest, vars),
        substituted(Seq::<char>::empty(), vars) == Seq::<char>::empty(),
{
    let s = seq![c] + rest;
    if starts_placeholder(s) {
        let name = choose|name: Seq<char>| opens_with(s, name);
        let n = placeholder(name).len() as int;
        assert(s.subrange(0, n) == placeholder(name));
        assert(s =~= placeholder(name) + s.skip(n));
    }
    assert(s.drop_first() =~= rest);
}

} // verus!
