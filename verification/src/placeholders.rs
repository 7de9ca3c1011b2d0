//! Environment variables in configuration text.
//!
//! `${NAME}` stands for the value of the variable `NAME`. A placeholder of a
//! variable that is not set stays as it is.

use crate::table::Table;
use crate::text::has_prefix;
use vstd::prelude::*;

verus! {

/// The regular expression of a placeholder; its group is the name.
pub const PLACEHOLDER: &'static str = "\\$\\{([A-Za-z_][A-Za-z0-9_]*)\\}";

/// A letter or an underscore.
pub open spec fn starts_name(c: char) -> bool {
    'A' <= c <= 'Z' || 'a' <= c <= 'z' || c == '_'
}

/// A letter, an underscore or a digit.
pub open spec fn continues_name(c: char) -> bool {
    starts_name(c) || '0' <= c <= '9'
}

/// Whether `s` can name a variable.
pub open spec fn is_variable_name(s: Seq<char>) -> bool {
    s.len() > 0 && starts_name(s[0]) && forall|i: int| 0 <= i < s.len() ==> continues_name(#[trigger] s[i])
}

/// The placeholder of a variable.
pub open spec fn placeholder(name: Seq<char>) -> Seq<char> {
    seq!['$', '{'] + name + seq!['}']
}

/// Whether the placeholder of `name` stands at the start of `s`.
pub open spec fn opens_with(s: Seq<char>, name: Seq<char>) -> bool {
    is_variable_name(name) && has_prefix(s, placeholder(name))
}

/// Whether a placeholder stands at the start of `s`.
pub open spec fn starts_placeholder(s: Seq<char>) -> bool {
    exists|name: Seq<char>| opens_with(s, name)
}

/// What stands for a variable: its value, or the placeholder itself where it is
/// not set.
pub open spec fn replacement(name: Seq<char>, vars: Map<Seq<char>, String>) -> Seq<char> {
    if vars.contains_key(name) {
        vars[name]@
    } else {
        placeholder(name)
    }
}

/// `s` with every placeholder replaced, from left to right. What was put in is
/// not looked at again.
pub open spec fn substituted(s: Seq<char>, vars: Map<Seq<char>, String>) -> Seq<char>
    decreases s.len(),
{
    if s.len() == 0 {
        s
    } else if starts_placeholder(s) {
        let name = choose|name: Seq<char>| opens_with(s, name);
        replacement(name, vars) + substituted(s.skip(placeholder(name).len() as int), vars)
    } else {
        seq![s[0]] + substituted(s.drop_first(), vars)
    }
}

/// `Regex::new` and `Regex::captures` for the placeholder expression, which is a
/// valid one: the leftmost match, given as what stands before it, the name in its
/// group and what stands behind it.
#[verifier::external_body]
fn first_capture(pattern: &str, content: &str) -> (r: Option<(String, String, String)>)
    requires
        pattern@ == PLACEHOLDER@,
    ensures
        match r {
            Some(parts) => {
                &&& is_variable_name(parts.1@)
                &&& content@ == parts.0@ + placeholder(parts.1@) + parts.2@
                &&& forall|i: int|
                    0 <= i < parts.0@.len() ==> !starts_placeholder(#[trigger] content@.skip(i))
            },
            None => forall|i: int|
                0 <= i < content@.len() ==> !starts_placeholder(#[trigger] content@.skip(i)),
        },
{
    let captures = regex::Regex::new(pattern).ok()?.captures(content)?;
    let whole = captures.get(0)?;
    let name = captures.get(1)?.as_str();
    let before = content[..whole.start()].to_string();
    Some((before, name.to_string(), content[whole.end()..].to_string()))
}

/// At most one placeholder stands at the start of a text.
proof fn lemma_name_is_unique(s: Seq<char>, a: Seq<char>, b: Seq<char>)
    requires
        opens_with(s, a),
        opens_with(s, b),
    ensures
        a == b,
{
    let p = placeholder(a);
    let q = placeholder(b);
    assert(p =~= s.take(p.len() as int));
    assert(q =~= s.take(q.len() as int));
    assert(s[a.len() as int + 2] == p[a.len() as int + 2]);
    assert(s[b.len() as int + 2] == q[b.len() as int + 2]);
    if a.len() < b.len() {
        assert(q[a.len() as int + 2] == b[a.len() as int]);
        assert(continues_name(b[a.len() as int]));
        assert(false);
    }
    if b.len() < a.len() {
        assert(p[b.len() as int + 2] == a[b.len() as int]);
        assert(continues_name(a[b.len() as int]));
        assert(false);
    }
    assert forall|i: int| 0 <= i < a.len() implies a[i] == b[i] by {
        assert(p[i + 2] == a[i]);
        assert(q[i + 2] == b[i]);
    }
    assert(a =~= b);
}

/// Text in front of the first placeholder stays as it is.
proof fn lemma_plain_text_stays(s: Seq<char>, n: int, vars: Map<Seq<char>, String>)
    requires
        0 <= n <= s.len(),
        forall|i: int| 0 <= i < n ==> !starts_placeholder(#[trigger] s.skip(i)),
    ensures
        substituted(s, vars) == s.take(n) + substituted(s.skip(n), vars),
    decreases n,
{
    if n == 0 {
        assert(s.skip(0) =~= s);
        assert(s.take(0) + substituted(s, vars) =~= substituted(s, vars));
    } else {
        assert(s.skip(0) =~= s);
        assert(!starts_placeholder(s.skip(0)));
        let rest = s.drop_first();
        assert forall|i: int| 0 <= i < n - 1 implies !starts_placeholder(#[trigger] rest.skip(i)) by {
            assert(rest.skip(i) =~= s.skip(i + 1));
        }
        lemma_plain_text_stays(rest, n - 1, vars);
        assert(rest.skip(n - 1) =~= s.skip(n));
        assert(seq![s[0]] + rest.take(n - 1) =~= s.take(n));
        assert(substituted(s, vars) =~= s.take(n) + substituted(s.skip(n), vars));
    }
}

/// A placeholder at the start is replaced.
pub(crate) proof fn lemma_placeholder_is_replaced(
    s: Seq<char>,
    name: Seq<char>,
    rest: Seq<char>,
    vars: Map<Seq<char>, String>,
)
    requires
        is_variable_name(name),
        s == placeholder(name) + rest,
    ensures
        substituted(s, vars) == replacement(name, vars) + substituted(rest, vars),
{
    assert(s.subrange(0, placeholder(name).len() as int) =~= placeholder(name));
    assert(opens_with(s, name));
    let chosen = choose|n: Seq<char>| opens_with(s, n);
    lemma_name_is_unique(s, name, chosen);
    assert(s.skip(placeholder(name).len() as int) =~= rest);
}

/// Replaces the placeholders of a text by the values of the variables.
pub fn substitute_env_vars(content: &str, vars: &Table<String>) -> (r: String)
    ensures
        r@ == substituted(content@, vars@),
{
    let mut out = String::new();
    let mut rest = content.to_string();
    loop
        invariant_except_break
            substituted(content@, vars@) == out@ + substituted(rest@, vars@),
        ensures
            out@ == substituted(content@, vars@),
        decreases rest@.len(),
    {
        match first_capture(PLACEHOLDER, rest.as_str()) {
            Some((before, name, after)) => {
                let ghost tail = placeholder(name@) + after@;
                proof {
                    assert(rest@.take(before@.len() as int) =~= before@);
                    assert(rest@.skip(before@.len() as int) =~= tail);
                    lemma_plain_text_stays(rest@, before@.len() as int, vars@);
                    lemma_placeholder_is_replaced(tail, name@, after@, vars@);
                }
                let ghost start = out@;
                out.append(before.as_str());
                match vars.get(name.as_str()) {
                    Some(value) => out.append(value.as_str()),
                    None => {
                        out.append("${");
                        out.append(name.as_str());
                        out.append("}");
                        proof {
                            reveal_strlit("${");
                            reveal_strlit("}");
                            assert("${"@ =~= seq!['$', '{']);
                            assert("}"@ =~= seq!['}']);
                        }
                    },
                }
                assert(out@ =~= start + before@ + replacement(name@, vars@));
                assert(out@ + substituted(after@, vars@) =~= start + (before@ + (replacement(
                    name@,
                    vars@,
                ) + substituted(after@, vars@))));
                rest = after;
            },
            None => {
                proof {
                    lemma_plain_text_stays(rest@, rest@.len() as int, vars@);
                    assert(rest@.take(rest@.len() as int) =~= rest@);
                    assert(rest@.skip(rest@.len() as int).len() == 0);
                    assert(substituted(rest@, vars@) =~= rest@);
                }
                out.append(rest.as_str());
                break;
            },
        }
    }
    out
}

/// Text without a placeholder stays as it is, whatever the variables are.
pub proof fn lemma_text_without_placeholders_stays(s: Seq<char>, vars: Map<Seq<char>, String>)
    requires
        forall|i: int| 0 <= i < s.len() ==> !starts_placeholder(#[trigger] s.skip(i)),
    ensures
        substituted(s, vars) == s,
{
    lemma_plain_text_stays(s, s.len() as int, vars);
    assert(s.take(s.len() as int) =~= s);
    assert(s.skip(s.len() as int).len() == 0);
    assert(substituted(s, vars) =~= s);
}

/// Where no variable is set, every text stays as it is: placeholders are kept.
pub proof fn lemma_unset_variables_are_kept(s: Seq<char>, vars: Map<Seq<char>, String>)
    requires
        forall|name: Seq<char>| is_variable_name(name) ==> !#[trigger] vars.contains_key(name),
    ensures
        substituted(s, vars) == s,
    decreases s.len(),
{
    if s.len() > 0 {
        if starts_placeholder(s) {
            let name = choose|name: Seq<char>| opens_with(s, name);
            let n = placeholder(name).len() as int;
            lemma_unset_variables_are_kept(s.skip(n), vars);
            assert(s.take(n) =~= placeholder(name));
            assert(placeholder(name) + s.skip(n) =~= s);
        } else {
            lemma_unset_variables_are_kept(s.drop_first(), vars);
            assert(seq![s[0]] + s.drop_first() =~= s);
        }
    }
}

/// A placeholder of a variable that is set is replaced by its value, and the text
/// around it is treated as if it stood alone.
pub proof fn lemma_set_variable_is_put_in(
    before: Seq<char>,
    name: Seq<char>,
    after: Seq<char>,
    vars: Map<Seq<char>, String>,
)
    requires
        is_variable_name(name),
        vars.contains_key(name),
        forall|i: int|
            0 <= i < before.len() ==> !starts_placeholder(
                #[trigger] (before + placeholder(name) + after).skip(i),
            ),
    ensures
        substituted(before + placeholder(name) + after, vars) == before + vars[name]@
            + substituted(after, vars),
{
    let s = before + placeholder(name) + after;
    lemma_plain_text_stays(s, before.len() as int, vars);
    assert(s.take(before.len() as int) =~= before);
    let tail = placeholder(name) + after;
    assert(s.skip(before.len() as int) =~= tail);
    lemma_placeholder_is_replaced(tail, name, after, vars);
    assert(substituted(s, vars) =~= before + vars[name]@ + substituted(after, vars));
}

} // verus!
