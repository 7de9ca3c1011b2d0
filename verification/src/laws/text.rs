//! Texts and numbers.

use crate::text::{
    all_digits, contains_text, decimal, digits_value, first_position, has_prefix, is_digit,
    lemma_decimal_value, lemma_first_position, occurs_at, parsed_u32, precedes, split_at_first,
};
use vstd::prelude::*;

verus! {

/// A text starts with what it is made of a prefix and a rest of.
pub proof fn lemma_prefix_and_rest(text: Seq<char>, prefix: Seq<char>)
    ensures
        has_prefix(text, prefix) <==> exists|rest: Seq<char>| text == #[trigger] (prefix + rest),
{
    if has_prefix(text, prefix) {
        let rest = text.skip(prefix.len() as int);
        assert(text.subrange(0, prefix.len() as int) == prefix);
        assert(text =~= prefix + rest);
    }
    if exists|rest: Seq<char>| text == #[trigger] (prefix + rest) {
        let rest = choose|rest: Seq<char>| text == #[trigger] (prefix + rest);
        assert(text.subrange(0, prefix.len() as int) =~= prefix);
    }
}

/// A text contains what stands in it between something and something else.
pub proof fn lemma_contained_in_the_middle(hay: Seq<char>, needle: Seq<char>)
    ensures
        contains_text(hay, needle) <==> exists|a: Seq<char>, b: Seq<char>|
            hay == #[trigger] (a + needle + b),
{
    if contains_text(hay, needle) {
        let at = choose|at: int| occurs_at(hay, needle, at);
        let a = hay.take(at);
        let b = hay.skip(at + needle.len());
        assert(hay.subrange(at, at + needle.len() as int) == needle);
        assert(hay =~= a + needle + b);
    }
    if exists|a: Seq<char>, b: Seq<char>| hay == #[trigger] (a + needle + b) {
        let (a, b) = choose|a: Seq<char>, b: Seq<char>| hay == #[trigger] (a + needle + b);
        assert(hay.subrange(a.len() as int, a.len() + needle.len() as int) =~= needle);
        assert(occurs_at(hay, needle, a.len() as int));
    }
}

/// A text is split at the first character of a kind: what stands before it has none,
/// and the parts with the character between them are the text. A text without such a
/// character is not split.
pub proof fn lemma_split_at_the_first(s: Seq<char>, c: char)
    ensures
        match split_at_first(s, c) {
            Some((before, behind)) => s == before + seq![c] + behind && !before.contains(c),
            None => !s.contains(c),
        },
    decreases s.len(),
{
    let at = first_position(s, c);
    lemma_position_bounds(s, c);
    if at < s.len() {
        assert(s =~= s.take(at) + seq![c] + s.skip(at + 1));
        assert forall|i: int| 0 <= i < s.take(at).len() implies s.take(at)[i] != c by {
            assert(s[i] != c);
        }
    }
}

/// The first position is within the text, and none before it has the character.
proof fn lemma_position_bounds(s: Seq<char>, c: char)
    ensures
        0 <= first_position(s, c) <= s.len(),
        first_position(s, c) < s.len() ==> s[first_position(s, c)] == c,
        forall|i: int| 0 <= i < first_position(s, c) ==> s[i] != c,
    decreases s.len(),
{
    if s.len() > 0 && s[0] != c {
        lemma_position_bounds(s.drop_first(), c);
        assert forall|i: int| 0 <= i < first_position(s, c) implies s[i] != c by {
            if i > 0 {
                assert(s.drop_first()[i - 1] == s[i]);
            }
        }
    }
}

/// What stands before a character that it does not have is split off there.
pub proof fn lemma_split_of_parts(before: Seq<char>, c: char, behind: Seq<char>)
    requires
        !before.contains(c),
    ensures
        split_at_first(before + seq![c] + behind, c) == Some((before, behind)),
{
    let s = before + seq![c] + behind;
    let at = before.len() as int;
    assert forall|i: int| 0 <= i < at implies s[i] != c by {
        assert(before.contains(before[i]));
    }
    lemma_first_position(s, c, at);
    assert(s.take(at) =~= before);
    assert(s.skip(at + 1) =~= behind);
}

/// One more digit behind a number is ten times the number and the digit.
pub proof fn lemma_one_more_digit(s: Seq<char>, c: char)
    requires
        '0' <= c <= '9',
    ensures
        digits_value(s.push(c)) == 10 * digits_value(s) + (c as int - '0' as int),
        digits_value(Seq::<char>::empty()) == 0,
{
    assert(s.push(c).drop_last() =~= s);
}

/// The decimal digits of a number are digits, come to the number, and do not start
/// with a zero unless they are that zero.
pub proof fn lemma_decimal_digits(n: nat)
    ensures
        decimal(n).len() > 0,
        forall|i: int| 0 <= i < decimal(n).len() ==> '0' <= #[trigger] decimal(n)[i] <= '9',
        decimal(n)[0] == '0' ==> decimal(n) == seq!['0'],
        digits_value(decimal(n)) == n,
    decreases n,
{
    lemma_decimal_value(n);
    assert forall|i: int| 0 <= i < decimal(n).len() implies '0' <= #[trigger] decimal(n)[i]
        <= '9' by {
        assert(is_digit(decimal(n)[i]));
    }
    if n >= 10 {
        lemma_decimal_digits(n / 10);
        if decimal(n / 10)[0] == '0' {
            reveal_with_fuel(digits_value, 2);
            assert(digits_value(seq!['0']) == 0) by {
                assert(seq!['0'].drop_last().len() == 0);
                assert(seq!['0'].last() == '0');
            }
        }
        assert(decimal(n)[0] == decimal(n / 10)[0]);
    } else {
        assert(decimal(n) =~= seq![decimal(n)[0]]);
    }
}

/// Numbers that fit are read from their digits, with a plus in front or without;
/// numbers that do not fit are not, nor is a text with a character that is no digit.
pub proof fn lemma_numbers_are_read(n: nat, s: Seq<char>, i: int)
    ensures
        parsed_u32(decimal(n)) == (if n <= 0xffff_ffff {
            Some(n as u32)
        } else {
            None
        }),
        parsed_u32(seq!['+'] + decimal(n)) == parsed_u32(decimal(n)),
        parsed_u32(Seq::<char>::empty()) is None,
        parsed_u32(seq!['+']) is None,
        0 <= i < s.len() && !('0' <= s[i] <= '9') && !(i == 0 && s[i] == '+') ==> parsed_u32(s)
            is None,
{
    lemma_decimal_digits(n);
    lemma_decimal_value(n);
    assert(is_digit(decimal(n)[0]));
    assert((seq!['+'] + decimal(n)).drop_first() =~= decimal(n));
    assert(seq!['+'].drop_first().len() == 0);
    if 0 <= i < s.len() && !('0' <= s[i] <= '9') && !(i == 0 && s[i] == '+') {
        assert(!is_digit(s[i]));
        if s[0] == '+' {
            assert(s.drop_first()[i - 1] == s[i]);
            assert(!all_digits(s.drop_first()));
        }
    }
}

/// The order of texts is that of dictionaries: of two texts one comes first, the
/// shorter of a text and its prefix does, and otherwise the first characters that
/// differ decide.
pub proof fn lemma_order_of_texts(
    common: Seq<char>,
    x: char,
    y: char,
    a: Seq<char>,
    b: Seq<char>,
)
    ensures
        !precedes(common, common),
        precedes(common, common + seq![x] + a),
        !precedes(common + seq![x] + a, common),
        x != y ==> precedes(common + seq![x] + a, common + seq![y] + b) == (x < y),
    decreases common.len(),
{
    let s = common + seq![x] + a;
    let t = common + seq![y] + b;
    if common.len() > 0 {
        let rest = common.drop_first();
        lemma_order_of_texts(rest, x, y, a, b);
        assert(s.drop_first() =~= rest + seq![x] + a);
        assert(t.drop_first() =~= rest + seq![y] + b);
    }
}

} // verus!
