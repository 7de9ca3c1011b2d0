//! Routing: which effects an event triggers, and in what order.

use crate::effects::{Effect, EffectError, EffectResult};
use crate::laws::text::lemma_prefix_and_rest;
use crate::router::{
    errors_tell, failures, has_pattern, is_registration, is_wildcard, lemma_exact_pattern_matches_itself,
    lemma_handlers_iff_handled, lemma_none_selected, lemma_selected_around, pattern_matches,
    selected_effects, selected_patterns, selector, successes, EntryView, Outcome, RouterError,
    RouterView,
};
use std::sync::Arc;
use vstd::prelude::*;

verus! {

/// Which event types a pattern matches: the one that it names; every one, where it is a
/// star; and those that continue what stands before its star, where it ends in a dot
/// and a star. It matches no other.
pub proof fn lemma_what_a_pattern_matches(event_type: Seq<char>, pattern: Seq<char>)
    ensures
        pattern_matches(event_type, pattern) <==> {
            ||| event_type == pattern
            ||| pattern == seq!['*']
            ||| exists|stem: Seq<char>, rest: Seq<char>|
                pattern == #[trigger] (stem + ".*"@) && event_type == #[trigger] (stem
                    + "."@ + rest)
        },
        is_wildcard(pattern) <==> exists|i: int| 0 <= i < pattern.len() && pattern[i] == '*',
{
    reveal_strlit("*");
    reveal_strlit(".*");
    reveal_strlit(".");
    assert("*"@ =~= seq!['*']);
    if pattern_matches(event_type, pattern) && event_type != pattern && pattern != "*"@ {
        let stem = pattern.take(pattern.len() - 2);
        assert(pattern =~= stem + ".*"@);
        assert(pattern.drop_last() =~= stem + "."@);
        lemma_prefix_and_rest(event_type, pattern.drop_last());
        let rest = choose|rest: Seq<char>| event_type == #[trigger] (pattern.drop_last() + rest);
        assert(event_type =~= stem + "."@ + rest);
    }
    if exists|stem: Seq<char>, rest: Seq<char>|
        pattern == #[trigger] (stem + ".*"@) && event_type == #[trigger] (stem + "."@
            + rest) {
        let (stem, rest) = choose|stem: Seq<char>, rest: Seq<char>|
            pattern == #[trigger] (stem + ".*"@) && event_type == #[trigger] (stem
                + "."@ + rest);
        assert(pattern.drop_last() =~= stem + "."@);
        lemma_prefix_and_rest(event_type, pattern.drop_last());
        assert(event_type == pattern.drop_last() + rest);
        assert(pattern[pattern.len() - 2] == '.' && pattern[pattern.len() - 1] == '*');
    }
}

/// An event type is handled exactly where an entry has it as its name, or a wildcard
/// entry has a pattern that matches it.
pub proof fn lemma_what_is_handled<E: ?Sized>(router: RouterView<E>, event_type: Seq<char>)
    ensures
        router.handles(event_type) <==> {
            ||| exists|i: int|
                0 <= i < router.exact.len() && (#[trigger] router.exact[i]).0 == event_type
            ||| exists|i: int|
                0 <= i < router.patterns.len() && pattern_matches(
                    event_type,
                    (#[trigger] router.patterns[i]).0,
                )
        },
{
}

/// An event triggers its handlers where it has any. Where it has none, it triggers the
/// default alone, or nothing without one.
pub proof fn lemma_handlers_before_default<E: ?Sized>(router: RouterView<E>, event_type: Seq<char>)
    requires
        router.is_valid(),
    ensures
        router.handlers(event_type).len() > 0 <==> router.handles(event_type),
        router.handlers(event_type).len() > 0 ==> router.triggered(event_type) == router.handlers(
            event_type,
        ) && router.reported(event_type) == router.matched(event_type),
        router.handlers(event_type).len() == 0 ==> (match router.default_handler {
            Some(effect) => router.triggered(event_type) == seq![effect] && router.reported(
                event_type,
            ) == seq!["default"@],
            None => router.triggered(event_type).len() == 0 && router.reported(event_type).len()
                == 0,
        }),
{
    lemma_handlers_iff_handled(router, event_type);
}

/// Where a part of a sequence stands.
pub open spec fn stands_at<A>(whole: Seq<A>, part: Seq<A>, at: int) -> bool {
    0 <= at && at + part.len() <= whole.len() && whole.subrange(at, at + part.len()) == part
}

/// Of two wildcard patterns that match an event type, all effects of the one that was
/// registered first come before all effects of the other, and so do the patterns that
/// are reported. This holds with and without effects for the exact type.
pub proof fn lemma_wildcards_run_in_order<E: ?Sized>(
    router: RouterView<E>,
    event_type: Seq<char>,
    i: int,
    j: int,
)
    requires
        router.is_valid(),
        0 <= i < j < router.patterns.len(),
        pattern_matches(event_type, router.patterns[i].0),
        pattern_matches(event_type, router.patterns[j].0),
    ensures
        exists|a: int, b: int|
            a + router.patterns[i].1.len() <= b && #[trigger] stands_at(
                router.triggered(event_type),
                router.patterns[i].1,
                a,
            ) && #[trigger] stands_at(router.triggered(event_type), router.patterns[j].1, b),
        exists|a: int, b: int|
            0 <= a < b < router.reported(event_type).len() && #[trigger] router.reported(
                event_type,
            )[a] == router.patterns[i].0 && #[trigger] router.reported(event_type)[b]
                == router.patterns[j].0,
{
    let same = selector(event_type, true);
    let matching = selector(event_type, false);
    let rest = router.patterns.skip(i + 1);
    lemma_handlers_iff_handled(router, event_type);
    assert(router.handles(event_type));
    lemma_selected_around(router.patterns, i, matching);
    lemma_selected_around(rest, j - i - 1, matching);
    assert(rest[j - i - 1] == router.patterns[j]);
    let exact = selected_effects(router.exact, same);
    let head = selected_effects(router.patterns.take(i), matching);
    let middle = selected_effects(rest.take(j - i - 1), matching);
    let a = (exact.len() + head.len()) as int;
    let b = a + router.patterns[i].1.len() + middle.len();
    let all = router.triggered(event_type);
    assert(all.subrange(a, a + router.patterns[i].1.len()) =~= router.patterns[i].1);
    assert(all.subrange(b, b + router.patterns[j].1.len()) =~= router.patterns[j].1);
    assert(stands_at(all, router.patterns[i].1, a));
    assert(stands_at(all, router.patterns[j].1, b));
    let exact_names = selected_patterns(router.exact, same);
    let head_names = selected_patterns(router.patterns.take(i), matching);
    let middle_names = selected_patterns(rest.take(j - i - 1), matching);
    let c = (exact_names.len() + head_names.len()) as int;
    let d = c + 1 + middle_names.len();
    let names = router.reported(event_type);
    assert(names[c] == router.patterns[i].0);
    assert(names[d] == router.patterns[j].0);
}

/// The effects of an exact event type, all of them in the order of its entry, come
/// before those of any wildcard pattern that matches it.
pub proof fn lemma_exact_runs_before_wildcards<E: ?Sized>(
    router: RouterView<E>,
    i: int,
    j: int,
)
    requires
        router.is_valid(),
        0 <= i < router.exact.len(),
        0 <= j < router.patterns.len(),
        pattern_matches(router.exact[i].0, router.patterns[j].0),
    ensures
        stands_at(router.triggered(router.exact[i].0), router.exact[i].1, 0),
        exists|b: int|
            router.exact[i].1.len() <= b && #[trigger] stands_at(
                router.triggered(router.exact[i].0),
                router.patterns[j].1,
                b,
            ),
        router.reported(router.exact[i].0)[0] == router.exact[i].0,
{
    let event_type = router.exact[i].0;
    let matching = selector(event_type, false);
    crate::router::lemma_exact_handlers_come_first(router, i);
    lemma_selected_around(router.patterns, j, matching);
    let all = router.triggered(event_type);
    assert(all.subrange(0, router.exact[i].1.len() as int) =~= router.exact[i].1);
    let b = (router.exact[i].1.len() + selected_effects(
        router.patterns.take(j),
        matching,
    ).len()) as int;
    assert(all.subrange(b, b + router.patterns[j].1.len()) =~= router.patterns[j].1);
    assert(stands_at(all, router.patterns[j].1, b));
}

/// A router whose wildcard patterns are those of another and one more.
pub open spec fn with_last_pattern<E: ?Sized>(
    router: RouterView<E>,
    entry: EntryView<E>,
) -> RouterView<E> {
    RouterView {
        exact: router.exact,
        patterns: router.patterns.push(entry),
        default_handler: router.default_handler,
        fail_fast: router.fail_fast,
    }
}

/// One more wildcard pattern adds its effects, where it matches, behind all others, and
/// nothing where it does not. Without wildcard patterns the handlers are those of the
/// exact type.
pub proof fn lemma_handlers_add_up<E: ?Sized>(
    router: RouterView<E>,
    entry: EntryView<E>,
    event_type: Seq<char>,
    i: int,
)
    requires
        router.is_valid(),
    ensures
        with_last_pattern(router, entry).handlers(event_type) == router.handlers(event_type) + (
        if pattern_matches(event_type, entry.0) {
            entry.1
        } else {
            Seq::empty()
        }),
        with_last_pattern(router, entry).matched(event_type) == router.matched(event_type) + (
        if pattern_matches(event_type, entry.0) {
            seq![entry.0]
        } else {
            Seq::empty()
        }),
        router.patterns.len() == 0 && 0 <= i < router.exact.len() && router.exact[i].0
            == event_type ==> router.handlers(event_type) == router.exact[i].1 && router.matched(
            event_type,
        ) == seq![event_type],
        router.patterns.len() == 0 && !has_pattern(router.exact, event_type) ==> router.handlers(
            event_type,
        ).len() == 0 && router.matched(event_type).len() == 0,
{
    let same = selector(event_type, true);
    let matching = selector(event_type, false);
    let after = with_last_pattern(router, entry);
    assert(after.patterns.drop_last() =~= router.patterns);
    assert(after.handlers(event_type) =~= router.handlers(event_type) + (if pattern_matches(
        event_type,
        entry.0,
    ) {
        entry.1
    } else {
        Seq::empty()
    }));
    assert(after.matched(event_type) =~= router.matched(event_type) + (if pattern_matches(
        event_type,
        entry.0,
    ) {
        seq![entry.0]
    } else {
        Seq::empty()
    }));
    if router.patterns.len() == 0 {
        lemma_none_selected(router.patterns, matching);
        if 0 <= i < router.exact.len() && router.exact[i].0 == event_type {
            crate::router::lemma_exact_handlers_come_first(router, i);
            lemma_handlers_iff_handled(router, event_type);
            assert(has_pattern(router.exact, event_type));
            assert(router.handlers(event_type) =~= router.exact[i].1);
            assert(router.matched(event_type) =~= seq![event_type]);
        }
        if !has_pattern(router.exact, event_type) {
            assert forall|k: int| 0 <= k < router.exact.len() implies !same(
                (#[trigger] router.exact[k]).0,
            ) by {}
            lemma_none_selected(router.exact, same);
        }
    }
}

/// An effect that is registered for a wildcard pattern of its own runs behind all others
/// that an event triggers by its patterns.
pub proof fn lemma_new_wildcard_runs_last<E: ?Sized>(
    before: RouterView<E>,
    after: RouterView<E>,
    pattern: Seq<char>,
    effect: Arc<E>,
    event_type: Seq<char>,
)
    requires
        before.is_valid(),
        is_registration(before, after, pattern, effect),
        pattern.contains('*'),
        forall|i: int|
            0 <= i < before.patterns.len() ==> (#[trigger] before.patterns[i]).0 != pattern,
        pattern_matches(event_type, pattern),
    ensures
        after.handlers(event_type) == before.handlers(event_type) + seq![effect],
        after.matched(event_type) == before.matched(event_type) + seq![pattern],
{
    lemma_handlers_add_up(before, (pattern, seq![effect]), event_type, 0);
    assert(!has_pattern(before.patterns, pattern));
    let expected = with_last_pattern(before, (pattern, seq![effect]));
    assert(after.patterns =~= expected.patterns);
    assert(after.handlers(event_type) == expected.handlers(event_type));
    assert(after.matched(event_type) == expected.matched(event_type));
}

/// Whether one sequence is another with an item put in behind a part of it.
pub open spec fn is_put_behind<A>(before: Seq<A>, after: Seq<A>, part: Seq<A>, item: A) -> bool {
    exists|head: Seq<A>, tail: Seq<A>|
        before == #[trigger] (head + part + tail) && after == #[trigger] (head + part.push(item)
            + tail)
}

/// An effect that is registered for a pattern that has effects already runs right behind
/// those, with all other effects around it as they were.
pub proof fn lemma_effects_of_a_pattern_run_in_order<E: ?Sized>(
    before: RouterView<E>,
    after: RouterView<E>,
    pattern: Seq<char>,
    effect: Arc<E>,
    event_type: Seq<char>,
    i: int,
)
    requires
        before.is_valid(),
        is_registration(before, after, pattern, effect),
        pattern_matches(event_type, pattern),
        0 <= i < (if pattern.contains('*') {
            before.patterns
        } else {
            before.exact
        }).len(),
        (if pattern.contains('*') {
            before.patterns
        } else {
            before.exact
        })[i].0 == pattern,
    ensures
        is_put_behind(
            before.handlers(event_type),
            after.handlers(event_type),
            (if pattern.contains('*') {
                before.patterns
            } else {
                before.exact
            })[i].1,
            effect,
        ),
        after.matched(event_type) == before.matched(event_type),
{
    let wild = pattern.contains('*');
    let old_entries = if wild {
        before.patterns
    } else {
        before.exact
    };
    let new_entries = if wild {
        after.patterns
    } else {
        after.exact
    };
    if !wild {
        lemma_exact_pattern_matches_itself(event_type, pattern);
    }
    let select = selector(event_type, !wild);
    assert(has_pattern(old_entries, pattern));
    let k = choose|k: int|
        0 <= k < old_entries.len() && (#[trigger] old_entries[k]).0 == pattern && new_entries
            == old_entries.update(k, (pattern, old_entries[k].1.push(effect)));
    assert(k == i) by {
        if k < i {
            assert(old_entries[k].0 != old_entries[i].0);
        }
        if i < k {
            assert(old_entries[i].0 != old_entries[k].0);
        }
    }
    lemma_selected_around(old_entries, i, select);
    lemma_selected_around(new_entries, i, select);
    assert(new_entries.take(i) =~= old_entries.take(i));
    assert(new_entries.skip(i + 1) =~= old_entries.skip(i + 1));
    let part = old_entries[i].1;
    let first = selected_effects(old_entries.take(i), select);
    let last = selected_effects(old_entries.skip(i + 1), select);
    let exact = selected_effects(before.exact, selector(event_type, true));
    let others = selected_effects(before.patterns, selector(event_type, false));
    let (head, tail) = if wild {
        (exact + first, last)
    } else {
        (first, last + others)
    };
    assert(before.handlers(event_type) =~= head + part + tail);
    assert(after.handlers(event_type) =~= head + part.push(effect) + tail);
    assert(after.matched(event_type) =~= before.matched(event_type));
}

/// The first effect that is registered for an exact event type runs before those of the
/// wildcard patterns, which are as they were.
pub proof fn lemma_new_exact_type_runs_first<E: ?Sized>(
    before: RouterView<E>,
    after: RouterView<E>,
    event_type: Seq<char>,
    effect: Arc<E>,
)
    requires
        before.is_valid(),
        is_registration(before, after, event_type, effect),
        !event_type.contains('*'),
        forall|i: int|
            0 <= i < before.exact.len() ==> (#[trigger] before.exact[i]).0 != event_type,
    ensures
        after.handlers(event_type) == seq![effect] + before.handlers(event_type),
        after.matched(event_type) == seq![event_type] + before.matched(event_type),
{
    let same = selector(event_type, true);
    assert(!has_pattern(before.exact, event_type));
    assert forall|k: int| 0 <= k < before.exact.len() implies !same(
        (#[trigger] before.exact[k]).0,
    ) by {}
    lemma_none_selected(before.exact, same);
    assert(after.exact.drop_last() =~= before.exact);
    assert(selected_effects(after.exact, same) =~= seq![effect]);
    assert(selected_patterns(after.exact, same) =~= seq![event_type]);
    assert(after.handlers(event_type) =~= seq![effect] + before.handlers(event_type));
    assert(after.matched(event_type) =~= seq![event_type] + before.matched(event_type));
}

/// Registering an effect keeps the default and the mode of the router.
pub proof fn lemma_registration_keeps_the_rest<E: ?Sized>(
    before: RouterView<E>,
    after: RouterView<E>,
    pattern: Seq<char>,
    effect: Arc<E>,
)
    requires
        is_registration(before, after, pattern, effect),
    ensures
        after.default_handler == before.default_handler,
        after.fail_fast == before.fail_fast,
        pattern.contains('*') ==> after.exact == before.exact,
        !pattern.contains('*') ==> after.patterns == before.patterns,
{
}

/// What is recorded is kept in order: a report goes behind the reports, a failure behind
/// the failures, with the name of the effect that failed.
pub proof fn lemma_outcomes_are_kept_in_order<E: ?Sized + Effect>(
    effects: Seq<Arc<E>>,
    outcomes: Seq<Outcome>,
    report: EffectResult,
    reason: EffectError,
)
    ensures
        successes(Seq::<Outcome>::empty()).len() == 0,
        failures(effects, Seq::<Outcome>::empty()).len() == 0,
        successes(outcomes.push(Ok(report))) == successes(outcomes) + seq![report],
        failures(effects, outcomes.push(Ok(report))) == failures(effects, outcomes),
        successes(outcomes.push(Err(reason))) == successes(outcomes),
        failures(effects, outcomes.push(Err(reason))) == failures(effects, outcomes) + seq![
            (effects[outcomes.len() as int].effect_name(), reason),
        ],
{
    assert(outcomes.push(Ok(report)).drop_last() =~= outcomes);
    assert(outcomes.push(Err(reason)).drop_last() =~= outcomes);
    assert(successes(outcomes.push(Ok(report))) =~= successes(outcomes) + seq![report]);
    assert(failures(effects, outcomes.push(Err(reason))) =~= failures(effects, outcomes) + seq![
        (effects[outcomes.len() as int].effect_name(), reason),
    ]);
}

/// The errors of a dispatch tell its failures one by one: the name of the effect and the
/// reason, as they were.
pub proof fn lemma_errors_tell_failures(
    errors: Seq<RouterError>,
    told: Seq<(Seq<char>, EffectError)>,
    i: int,
)
    requires
        errors_tell(errors, told),
    ensures
        errors.len() == told.len(),
        0 <= i < errors.len() ==> (errors[i] matches RouterError::EffectFailed {
            effect_name,
            source,
        } && effect_name@ == told[i].0 && source == told[i].1),
{
    if 0 <= i < errors.len() {
        assert(errors[i].tells(told[i].0, told[i].1));
    }
}

} // verus!
