//! Event routing.
//!
//! A [`Router`] finds the effects that an event triggers by the event's type.
//!
//! ```text
//! Pattern         | Matches
//! ----------------|---------------------------
//! user.created    | user.created (exact only)
//! game.*          | game.started, game.ended, game.achievement
//! system.*        | system.health, system.alert
//! *               | everything (catch-all)
//! ```
//!
//! Effects registered for the exact type come first, then those of the wildcard
//! patterns that match, in the order of registration. The default handler is
//! used where nothing matches.

use crate::effects::{Effect, EffectError, EffectResult};
use crate::event::Event;
use crate::text::{chars_of, contains_char, decimal, decimal_text, same_text, slice_text, starts_with, has_prefix};
use std::sync::Arc;
use vstd::prelude::*;

verus! {

/// A wildcard pattern is one with a star in it.
pub open spec fn is_wildcard(pattern: Seq<char>) -> bool {
    pattern.contains('*')
}

/// A pattern that ends in `.*`.
pub open spec fn is_prefix_pattern(pattern: Seq<char>) -> bool {
    pattern.len() >= 2 && pattern[pattern.len() - 2] == '.' && pattern[pattern.len() - 1] == '*'
}

/// Whether an event type matches a pattern: the two are the same, the pattern
/// is `*`, or the pattern ends in `.*` and the event type starts with what
/// stands before the star.
pub open spec fn pattern_matches(event_type: Seq<char>, pattern: Seq<char>) -> bool {
    ||| pattern == event_type
    ||| pattern == "*"@
    ||| is_prefix_pattern(pattern) && has_prefix(event_type, pattern.drop_last())
}

/// Whether a pattern is a wildcard pattern (contains `*`).
pub fn is_wildcard_pattern(pattern: &str) -> (r: bool)
    ensures
        r == is_wildcard(pattern@),
{
    contains_char(pattern, '*')
}

/// Whether an event type matches a pattern.
///
/// - `user.created` matches that event type only
/// - `game.*` matches any event type starting with `game.`
/// - `*` matches everything
pub fn matches_pattern(event_type: &str, pattern: &str) -> (r: bool)
    ensures
        r == pattern_matches(event_type@, pattern@),
{
    if same_text(pattern, event_type) || same_text(pattern, "*") {
        return true;
    }
    let chars = chars_of(pattern);
    let n: usize = chars.len();
    if n >= 2 && chars[n - 2] == '.' && chars[n - 1] == '*' {
        let prefix = slice_text(&chars, 0, n - 1);
        assert(prefix@ == pattern@.drop_last());
        return starts_with(event_type, prefix.as_str());
    }
    false
}

/// A pattern and the effects registered for it.
pub struct PatternEntry<E: ?Sized> {
    pattern: String,
    effects: Vec<Arc<E>>,
}

/// The value of an entry: a pattern and its effects in order.
pub type EntryView<E> = (Seq<char>, Seq<Arc<E>>);

/// The values of entries.
spec fn entries_view<E: ?Sized>(entries: Seq<PatternEntry<E>>) -> Seq<EntryView<E>> {
    Seq::new(entries.len(), |i: int| (entries[i].pattern@, entries[i].effects@))
}

/// Whether `entries` has an entry for `pattern`.
pub open spec fn has_pattern<E: ?Sized>(entries: Seq<EntryView<E>>, pattern: Seq<char>) -> bool {
    exists|i: int| 0 <= i < entries.len() && (#[trigger] entries[i]).0 == pattern
}

/// No pattern has two entries, and every entry has an effect.
pub open spec fn entries_are_valid<E: ?Sized>(entries: Seq<EntryView<E>>) -> bool {
    &&& forall|i: int, j: int|
        0 <= i < j < entries.len() ==> (#[trigger] entries[i]).0 != (#[trigger] entries[j]).0
    &&& forall|i: int| 0 <= i < entries.len() ==> (#[trigger] entries[i]).1.len() > 0
}

/// `after` is `before` with one more effect for `pattern`: behind the effects
/// that the pattern already has, or in a new last entry.
pub open spec fn is_registered<E: ?Sized>(
    before: Seq<EntryView<E>>,
    after: Seq<EntryView<E>>,
    pattern: Seq<char>,
    effect: Arc<E>,
) -> bool {
    if has_pattern(before, pattern) {
        exists|i: int|
            0 <= i < before.len() && (#[trigger] before[i]).0 == pattern && after == before.update(
                i,
                (pattern, before[i].1.push(effect)),
            )
    } else {
        after == before.push((pattern, seq![effect]))
    }
}

/// The effects of the entries whose pattern is selected, in order.
pub open spec fn selected_effects<E: ?Sized>(
    entries: Seq<EntryView<E>>,
    select: spec_fn(Seq<char>) -> bool,
) -> Seq<Arc<E>>
    decreases entries.len(),
{
    if entries.len() == 0 {
        Seq::empty()
    } else {
        let earlier = selected_effects(entries.drop_last(), select);
        if select(entries.last().0) {
            earlier + entries.last().1
        } else {
            earlier
        }
    }
}

/// The selected patterns of entries, in order.
pub open spec fn selected_patterns<E: ?Sized>(
    entries: Seq<EntryView<E>>,
    select: spec_fn(Seq<char>) -> bool,
) -> Seq<Seq<char>>
    decreases entries.len(),
{
    if entries.len() == 0 {
        Seq::empty()
    } else {
        let earlier = selected_patterns(entries.drop_last(), select);
        if select(entries.last().0) {
            earlier.push(entries.last().0)
        } else {
            earlier
        }
    }
}

/// The value of a router.
pub struct RouterView<E: ?Sized> {
    /// Effects by exact event type.
    pub exact: Seq<EntryView<E>>,
    /// Effects by wildcard pattern, in the order of registration.
    pub patterns: Seq<EntryView<E>>,
    /// Used for events that nothing else matches.
    pub default_handler: Option<Arc<E>>,
    /// Whether the first failure ends a dispatch.
    pub fail_fast: bool,
}

impl<E: ?Sized> RouterView<E> {
    /// The effects registered for an event type: those of the exact type, then
    /// those of the wildcard patterns that match.
    pub open spec fn handlers(self, event_type: Seq<char>) -> Seq<Arc<E>> {
        selected_effects(self.exact, selector(event_type, true)) + selected_effects(
            self.patterns,
            selector(event_type, false),
        )
    }

    /// The patterns that an event type matches, in the order of the handlers.
    pub open spec fn matched(self, event_type: Seq<char>) -> Seq<Seq<char>> {
        selected_patterns(self.exact, selector(event_type, true)) + selected_patterns(
            self.patterns,
            selector(event_type, false),
        )
    }

    /// Whether any pattern matches an event type.
    pub open spec fn handles(self, event_type: Seq<char>) -> bool {
        ||| has_pattern(self.exact, event_type)
        ||| exists|i: int|
            0 <= i < self.patterns.len() && pattern_matches(
                event_type,
                (#[trigger] self.patterns[i]).0,
            )
    }

    /// The effects that an event of a type triggers.
    pub open spec fn triggered(self, event_type: Seq<char>) -> Seq<Arc<E>> {
        if self.handles(event_type) {
            self.handlers(event_type)
        } else {
            match self.default_handler {
                Some(effect) => seq![effect],
                None => Seq::empty(),
            }
        }
    }

    /// The patterns that are reported for an event of a type.
    pub open spec fn reported(self, event_type: Seq<char>) -> Seq<Seq<char>> {
        if self.handles(event_type) {
            self.matched(event_type)
        } else {
            match self.default_handler {
                Some(_) => seq!["default"@],
                None => Seq::empty(),
            }
        }
    }

    /// What holds of every router: see [`entries_are_valid`]; no exact type has
    /// a star in it, and every other pattern has one.
    pub open spec fn is_valid(self) -> bool {
        &&& entries_are_valid(self.exact)
        &&& entries_are_valid(self.patterns)
        &&& forall|i: int| 0 <= i < self.exact.len() ==> !is_wildcard((#[trigger] self.exact[i]).0)
        &&& forall|i: int|
            0 <= i < self.patterns.len() ==> is_wildcard((#[trigger] self.patterns[i]).0)
    }
}

/// `after` is `before` with one more effect for `pattern`, among the exact types
/// or the wildcard patterns as the pattern is one.
pub open spec fn is_registration<E: ?Sized>(
    before: RouterView<E>,
    after: RouterView<E>,
    pattern: Seq<char>,
    effect: Arc<E>,
) -> bool {
    &&& after.default_handler == before.default_handler
    &&& after.fail_fast == before.fail_fast
    &&& if is_wildcard(pattern) {
        after.exact == before.exact && is_registered(
            before.patterns,
            after.patterns,
            pattern,
            effect,
        )
    } else {
        after.patterns == before.patterns && is_registered(
            before.exact,
            after.exact,
            pattern,
            effect,
        )
    }
}

/// Finds the effects that events trigger.
pub struct Router<E: ?Sized> {
    exact_handlers: Vec<PatternEntry<E>>,
    pattern_handlers: Vec<PatternEntry<E>>,
    default_handler: Option<Arc<E>>,
    fail_fast: bool,
}

impl<E: ?Sized> View for Router<E> {
    type V = RouterView<E>;

    closed spec fn view(&self) -> RouterView<E> {
        RouterView {
            exact: entries_view(self.exact_handlers@),
            patterns: entries_view(self.pattern_handlers@),
            default_handler: self.default_handler,
            fail_fast: self.fail_fast,
        }
    }
}

/// Adds an effect to the entry of a pattern, or a new entry where there is none.
fn register<E: ?Sized>(entries: &mut Vec<PatternEntry<E>>, pattern: &str, effect: Arc<E>)
    requires
        entries_are_valid(entries_view(old(entries)@)),
    ensures
        is_registered(
            entries_view(old(entries)@),
            entries_view(final(entries)@),
            pattern@,
            effect,
        ),
{
    let ghost before = entries_view(entries@);
    let mut i: usize = 0;
    while i < entries.len()
        invariant
            entries@ == old(entries)@,
            before == entries_view(entries@),
            i <= entries@.len(),
            forall|k: int| 0 <= k < i ==> (#[trigger] before[k]).0 != pattern@,
        decreases entries@.len() - i,
    {
        if same_text(entries[i].pattern.as_str(), pattern) {
            assert(before[i as int].0 == pattern@);
            entries[i].effects.push(effect);
            assert(entries_view(entries@) =~= before.update(
                i as int,
                (pattern@, before[i as int].1.push(effect)),
            ));
            return;
        }
        i = i + 1;
    }
    let mut effects: Vec<Arc<E>> = Vec::new();
    effects.push(effect);
    assert(effects@ =~= seq![effect]);
    entries.push(PatternEntry { pattern: pattern.to_string(), effects });
    assert(entries_view(entries@) =~= before.push((pattern@, seq![effect])));
}

/// Registering keeps entries valid, and brings in no pattern but the given one.
proof fn lemma_registered<E: ?Sized>(
    before: Seq<EntryView<E>>,
    after: Seq<EntryView<E>>,
    pattern: Seq<char>,
    effect: Arc<E>,
)
    requires
        entries_are_valid(before),
        is_registered(before, after, pattern, effect),
    ensures
        entries_are_valid(after),
        has_pattern(after, pattern),
        forall|i: int|
            0 <= i < after.len() ==> (#[trigger] after[i]).0 == pattern || has_pattern(
                before,
                after[i].0,
            ),
{
    if has_pattern(before, pattern) {
        let i = choose|i: int|
            0 <= i < before.len() && (#[trigger] before[i]).0 == pattern && after == before.update(
                i,
                (pattern, before[i].1.push(effect)),
            );
        assert(after[i].0 == pattern);
        assert forall|k: int| 0 <= k < after.len() implies (#[trigger] after[k]).0 == pattern
            || has_pattern(before, after[k].0) by {
            assert(before[k].0 == after[k].0);
        }
        assert forall|j: int, k: int| 0 <= j < k < after.len() implies (#[trigger] after[j]).0
            != (#[trigger] after[k]).0 by {
            assert(before[j].0 != before[k].0);
        }
        assert forall|k: int| 0 <= k < after.len() implies (#[trigger] after[k]).1.len() > 0 by {
            assert(before[k].1.len() > 0);
        }
    } else {
        let last = before.len() as int;
        assert(after[last].0 == pattern);
        assert forall|k: int| 0 <= k < after.len() implies (#[trigger] after[k]).0 == pattern
            || has_pattern(before, after[k].0) by {
            if k < last {
                assert(before[k].0 == after[k].0);
            }
        }
        assert forall|j: int, k: int| 0 <= j < k < after.len() implies (#[trigger] after[j]).0
            != (#[trigger] after[k]).0 by {
            assert(before[j].0 == after[j].0);
            if k < last {
                assert(before[k].0 == after[k].0);
            }
        }
        assert forall|k: int| 0 <= k < after.len() implies (#[trigger] after[k]).1.len() > 0 by {
            if k < last {
                assert(before[k] == after[k]);
            }
        }
    }
}

/// Effects are selected exactly where a pattern is.
proof fn lemma_selected<E: ?Sized>(
    entries: Seq<EntryView<E>>,
    select: spec_fn(Seq<char>) -> bool,
)
    requires
        forall|i: int| 0 <= i < entries.len() ==> (#[trigger] entries[i]).1.len() > 0,
    ensures
        (selected_effects(entries, select).len() > 0) <==> (exists|i: int|
            0 <= i < entries.len() && select((#[trigger] entries[i]).0)),
    decreases entries.len(),
{
    if entries.len() > 0 {
        let earlier = entries.drop_last();
        assert forall|i: int| 0 <= i < earlier.len() implies (#[trigger] earlier[i]).1.len() > 0 by {
            assert(earlier[i] == entries[i]);
        }
        lemma_selected(earlier, select);
        let last = entries.len() - 1;
        assert(entries[last].1.len() > 0);
        if selected_effects(entries, select).len() > 0 {
            if !select(entries[last].0) {
                let i = choose|i: int| 0 <= i < earlier.len() && select((#[trigger] earlier[i]).0);
                assert(entries[i] == earlier[i]);
            }
        }
        if exists|i: int| 0 <= i < entries.len() && select((#[trigger] entries[i]).0) {
            let i = choose|i: int| 0 <= i < entries.len() && select((#[trigger] entries[i]).0);
            if i < last {
                assert(earlier[i] == entries[i]);
            }
        }
    }
}

/// A router has handlers for an event type exactly where a pattern matches it.
pub proof fn lemma_handlers_iff_handled<E: ?Sized>(router: RouterView<E>, event_type: Seq<char>)
    requires
        router.is_valid(),
    ensures
        router.handlers(event_type).len() > 0 <==> router.handles(event_type),
{
    let same = selector(event_type, true);
    let matching = selector(event_type, false);
    lemma_selected(router.exact, same);
    lemma_selected(router.patterns, matching);
    if has_pattern(router.exact, event_type) {
        let i = choose|i: int|
            0 <= i < router.exact.len() && (#[trigger] router.exact[i]).0 == event_type;
        assert(same(router.exact[i].0));
    }
    if exists|i: int| 0 <= i < router.exact.len() && same((#[trigger] router.exact[i]).0) {
        let i = choose|i: int| 0 <= i < router.exact.len() && same((#[trigger] router.exact[i]).0);
        assert(router.exact[i].0 == event_type);
    }
    if exists|i: int|
        0 <= i < router.patterns.len() && pattern_matches(
            event_type,
            (#[trigger] router.patterns[i]).0,
        ) {
        let i = choose|i: int|
            0 <= i < router.patterns.len() && pattern_matches(
                event_type,
                (#[trigger] router.patterns[i]).0,
            );
        assert(matching(router.patterns[i].0));
    }
    if exists|i: int| 0 <= i < router.patterns.len() && matching((#[trigger] router.patterns[i]).0) {
        let i = choose|i: int|
            0 <= i < router.patterns.len() && matching((#[trigger] router.patterns[i]).0);
        assert(pattern_matches(event_type, router.patterns[i].0));
    }
}

/// Appends the effects and the pattern of every entry whose pattern is the
/// event type itself (`exactly`) or matches it.
fn collect<E: ?Sized>(
    entries: &Vec<PatternEntry<E>>,
    event_type: &str,
    exactly: bool,
    effects: &mut Vec<Arc<E>>,
    patterns: &mut Vec<String>,
)
    ensures
        final(effects)@ == old(effects)@ + selected_effects(
            entries_view(entries@),
            selector(event_type@, exactly),
        ),
        texts(final(patterns)@) == texts(old(patterns)@) + selected_patterns(
            entries_view(entries@),
            selector(event_type@, exactly),
        ),
{
    let ghost all = entries_view(entries@);
    let ghost select = selector(event_type@, exactly);
    let ghost effects0 = effects@;
    let ghost patterns0 = texts(patterns@);
    let mut i: usize = 0;
    assert(all.take(0) =~= Seq::<EntryView<E>>::empty());
    assert(effects@ =~= effects0 + selected_effects(all.take(0), select));
    assert(texts(patterns@) =~= patterns0 + selected_patterns(all.take(0), select));
    while i < entries.len()
        invariant
            all == entries_view(entries@),
            select == selector(event_type@, exactly),
            i <= entries@.len(),
            effects@ == effects0 + selected_effects(all.take(i as int), select),
            texts(patterns@) == patterns0 + selected_patterns(all.take(i as int), select),
        decreases entries@.len() - i,
    {
        let entry = &entries[i];
        let chosen = if exactly {
            same_text(entry.pattern.as_str(), event_type)
        } else {
            matches_pattern(event_type, entry.pattern.as_str())
        };
        proof {
            assert(all.take(i + 1).drop_last() =~= all.take(i as int));
            assert(all.take(i + 1).last() == all[i as int]);
            assert(chosen == select(all[i as int].0));
        }
        if chosen {
            let ghost effects1 = effects@;
            let ghost patterns1 = patterns@;
            let mut k: usize = 0;
            while k < entry.effects.len()
                invariant
                    k <= entry.effects@.len(),
                    effects@ == effects1 + entry.effects@.take(k as int),
                decreases entry.effects@.len() - k,
            {
                effects.push(entry.effects[k].clone());
                assert(entry.effects@.take(k + 1) =~= entry.effects@.take(k as int).push(
                    entry.effects@[k as int],
                ));
                k = k + 1;
            }
            assert(entry.effects@.take(entry.effects@.len() as int) =~= entry.effects@);
            patterns.push(entry.pattern.clone());
            assert(texts(patterns@) =~= texts(patterns1).push(entry.pattern@));
            assert(effects@ =~= effects0 + selected_effects(all.take(i + 1), select));
            assert(texts(patterns@) =~= patterns0 + selected_patterns(all.take(i + 1), select));
        }
        i = i + 1;
    }
    assert(all.take(all.len() as int) =~= all);
}

/// Which patterns an event type selects: itself, or those that it matches.
pub open spec fn selector(event_type: Seq<char>, exactly: bool) -> spec_fn(Seq<char>) -> bool {
    if exactly {
        |p: Seq<char>| p == event_type
    } else {
        |p: Seq<char>| pattern_matches(event_type, p)
    }
}

/// The characters of each string.
pub open spec fn texts(strings: Seq<String>) -> Seq<Seq<char>> {
    strings.map_values(|s: String| s@)
}

impl<E: ?Sized> Router<E> {
    #[verifier::type_invariant]
    spec fn invariant_holds(&self) -> bool {
        self@.is_valid()
    }

    /// A router without any handler, which goes on after failures.
    pub fn new() -> (r: Self)
        ensures
            r@.exact == Seq::<EntryView<E>>::empty(),
            r@.patterns == Seq::<EntryView<E>>::empty(),
            r@.default_handler is None,
            !r@.fail_fast,
            r@.is_valid(),
    {
        Router {
            exact_handlers: Vec::new(),
            pattern_handlers: Vec::new(),
            default_handler: None,
            fail_fast: false,
        }
    }

    /// Makes the first failure end a dispatch.
    pub fn with_fail_fast(self) -> (r: Self)
        ensures
            r@ == (RouterView { fail_fast: true, ..self@ }),
            r@.is_valid(),
    {
        proof {
            use_type_invariant(&self);
        }
        Router {
            exact_handlers: self.exact_handlers,
            pattern_handlers: self.pattern_handlers,
            default_handler: self.default_handler,
            fail_fast: true,
        }
    }

    /// Registers an effect for an event type or a pattern.
    ///
    /// Effects of the same pattern are executed in the order of registration.
    pub fn on(&mut self, pattern: &str, effect: Arc<E>)
        ensures
            is_registration(old(self)@, final(self)@, pattern@, effect),
            final(self)@.is_valid(),
    {
        proof {
            use_type_invariant(&*self);
        }
        let ghost before = self@;
        let mut entries: Vec<PatternEntry<E>> = Vec::new();
        if is_wildcard_pattern(pattern) {
            std::mem::swap(&mut entries, &mut self.pattern_handlers);
            register(&mut entries, pattern, effect);
            proof {
                lemma_registered(before.patterns, entries_view(entries@), pattern@, effect);
            }
            self.pattern_handlers = entries;
        } else {
            std::mem::swap(&mut entries, &mut self.exact_handlers);
            register(&mut entries, pattern, effect);
            proof {
                lemma_registered(before.exact, entries_view(entries@), pattern@, effect);
            }
            self.exact_handlers = entries;
        }
    }

    /// Sets the handler for events that nothing else matches.
    pub fn set_default(&mut self, effect: Arc<E>)
        ensures
            final(self)@ == (RouterView { default_handler: Some(effect), ..old(self)@ }),
            final(self)@.is_valid(),
    {
        proof {
            use_type_invariant(&*self);
        }
        self.default_handler = Some(effect);
    }

    /// Whether any pattern matches an event type.
    pub fn has_handlers(&self, event_type: &str) -> (r: bool)
        ensures
            r == self@.handles(event_type@),
    {
        let mut i: usize = 0;
        while i < self.exact_handlers.len()
            invariant
                i <= self.exact_handlers@.len(),
                forall|k: int| 0 <= k < i ==> (#[trigger] self@.exact[k]).0 != event_type@,
            decreases self.exact_handlers@.len() - i,
        {
            if same_text(self.exact_handlers[i].pattern.as_str(), event_type) {
                assert(self@.exact[i as int].0 == event_type@);
                return true;
            }
            i = i + 1;
        }
        let mut j: usize = 0;
        while j < self.pattern_handlers.len()
            invariant
                j <= self.pattern_handlers@.len(),
                !has_pattern(self@.exact, event_type@),
                forall|k: int|
                    0 <= k < j ==> !pattern_matches(event_type@, (#[trigger] self@.patterns[k]).0),
            decreases self.pattern_handlers@.len() - j,
        {
            if matches_pattern(event_type, self.pattern_handlers[j].pattern.as_str()) {
                assert(pattern_matches(event_type@, self@.patterns[j as int].0));
                return true;
            }
            j = j + 1;
        }
        false
    }

    /// How many patterns are registered, exact event types among them.
    pub fn handler_count(&self) -> (r: usize)
        requires
            self@.exact.len() + self@.patterns.len() <= usize::MAX,
        ensures
            r == self@.exact.len() + self@.patterns.len(),
    {
        self.exact_handlers.len() + self.pattern_handlers.len()
    }

    /// All registered patterns: the exact event types, then the wildcards.
    pub fn event_types(&self) -> (r: Vec<&str>)
        ensures
            r@.len() == self@.exact.len() + self@.patterns.len(),
            forall|i: int|
                0 <= i < self@.exact.len() ==> (#[trigger] r@[i])@ == self@.exact[i].0,
            forall|i: int|
                self@.exact.len() <= i < r@.len() ==> (#[trigger] r@[i])@ == self@.patterns[i
                    - self@.exact.len()].0,
    {
        let mut out: Vec<&str> = Vec::new();
        let mut i: usize = 0;
        while i < self.exact_handlers.len()
            invariant
                i <= self.exact_handlers@.len(),
                out@.len() == i,
                forall|k: int| 0 <= k < i ==> (#[trigger] out@[k])@ == self@.exact[k].0,
            decreases self.exact_handlers@.len() - i,
        {
            out.push(self.exact_handlers[i].pattern.as_str());
            i = i + 1;
        }
        let mut j: usize = 0;
        while j < self.pattern_handlers.len()
            invariant
                j <= self.pattern_handlers@.len(),
                out@.len() == self@.exact.len() + j,
                forall|k: int|
                    0 <= k < self@.exact.len() ==> (#[trigger] out@[k])@ == self@.exact[k].0,
                forall|k: int|
                    self@.exact.len() <= k < out@.len() ==> (#[trigger] out@[k])@
                        == self@.patterns[k - self@.exact.len()].0,
            decreases self.pattern_handlers@.len() - j,
        {
            out.push(self.pattern_handlers[j].pattern.as_str());
            j = j + 1;
        }
        out
    }

    /// The effects registered for an event type, and the patterns that it
    /// matches.
    pub fn get_handlers(&self, event_type: &str) -> (r: (Vec<Arc<E>>, Vec<String>))
        ensures
            r.0@ == self@.handlers(event_type@),
            texts(r.1@) == self@.matched(event_type@),
    {
        let mut effects: Vec<Arc<E>> = Vec::new();
        let mut patterns: Vec<String> = Vec::new();
        assert(texts(patterns@) =~= Seq::<Seq<char>>::empty());
        collect(&self.exact_handlers, event_type, true, &mut effects, &mut patterns);
        collect(&self.pattern_handlers, event_type, false, &mut effects, &mut patterns);
        assert(effects@ =~= self@.handlers(event_type@));
        assert(texts(patterns@) =~= self@.matched(event_type@));
        (effects, patterns)
    }
}

impl<E: ?Sized> Default for Router<E> {
    /// A router without any handler.
    fn default() -> (r: Self)
        ensures
            r@.exact == Seq::<EntryView<E>>::empty(),
            r@.patterns == Seq::<EntryView<E>>::empty(),
            r@.default_handler is None,
            !r@.fail_fast,
            r@.is_valid(),
    {
        Self::new()
    }
}

/// Why a dispatch, or one effect in it, failed.
#[derive(Debug)]
pub enum RouterError {
    /// An effect failed.
    EffectFailed {
        effect_name: String,
        source: EffectError,
    },
    /// Several effects failed.
    MultipleFailures(Vec<RouterError>),
}

impl RouterError {
    /// The text that tells a reader what went wrong.
    pub open spec fn text(self) -> Seq<char> {
        match self {
            RouterError::EffectFailed { effect_name, source } => "effect '"@ + effect_name@
                + "' failed: "@ + source.text(),
            RouterError::MultipleFailures(failures) => decimal(failures@.len())
                + " effects failed during dispatch"@,
        }
    }

    /// Tells a reader what went wrong.
    pub fn message(&self) -> (r: String)
        ensures
            r@ == self.text(),
    {
        match self {
            RouterError::EffectFailed { effect_name, source } => "effect '".to_string().concat(
                effect_name.as_str(),
            ).concat("' failed: ").concat(source.message().as_str()),
            RouterError::MultipleFailures(failures) => decimal_text(failures.len() as u64).concat(
                " effects failed during dispatch",
            ),
        }
    }

    /// Whether this says that the effect `name` failed for `reason`.
    pub open spec fn tells(self, name: Seq<char>, reason: EffectError) -> bool {
        self matches RouterError::EffectFailed { effect_name, source } && effect_name@ == name
            && source == reason
    }
}

/// What came of dispatching an event.
#[derive(Debug)]
pub struct DispatchResult {
    /// Type of the event.
    pub event_type: String,
    /// Patterns that matched the event.
    pub matched_patterns: Vec<String>,
    /// How many effects were executed.
    pub effects_executed: usize,
    /// What the effects that succeeded report.
    pub results: Vec<EffectResult>,
    /// The failures, where the dispatch went on after them.
    pub errors: Vec<RouterError>,
}

impl DispatchResult {
    /// Whether every effect that was executed succeeded.
    pub fn is_success(&self) -> (r: bool)
        ensures
            r == (self.errors@.len() == 0),
    {
        self.errors.is_empty()
    }

    /// How many effects failed.
    pub fn failure_count(&self) -> (r: usize)
        ensures
            r == self.errors@.len(),
    {
        self.errors.len()
    }
}

/// What an effect returned.
pub type Outcome = Result<EffectResult, EffectError>;

/// The reports among outcomes, in order.
pub open spec fn successes(outcomes: Seq<Outcome>) -> Seq<EffectResult>
    decreases outcomes.len(),
{
    if outcomes.len() == 0 {
        Seq::empty()
    } else {
        match outcomes.last() {
            Ok(result) => successes(outcomes.drop_last()).push(result),
            Err(_) => successes(outcomes.drop_last()),
        }
    }
}

/// The failures among outcomes, in order, each with the name of its effect.
pub open spec fn failures<E: ?Sized + Effect>(
    effects: Seq<Arc<E>>,
    outcomes: Seq<Outcome>,
) -> Seq<(Seq<char>, EffectError)>
    decreases outcomes.len(),
{
    if outcomes.len() == 0 {
        Seq::empty()
    } else {
        match outcomes.last() {
            Ok(_) => failures(effects, outcomes.drop_last()),
            Err(reason) => failures(effects, outcomes.drop_last()).push(
                (effects[outcomes.len() - 1].effect_name(), reason),
            ),
        }
    }
}

/// Whether `errors` tells the failures, one each, in order.
pub open spec fn errors_tell(
    errors: Seq<RouterError>,
    failures: Seq<(Seq<char>, EffectError)>,
) -> bool {
    &&& errors.len() == failures.len()
    &&& forall|i: int|
        0 <= i < errors.len() ==> (#[trigger] errors[i]).tells(failures[i].0, failures[i].1)
}

/// Every outcome is a success or a failure.
pub proof fn lemma_outcomes_are_counted<E: ?Sized + Effect>(
    effects: Seq<Arc<E>>,
    outcomes: Seq<Outcome>,
)
    ensures
        successes(outcomes).len() + failures(effects, outcomes).len() == outcomes.len(),
    decreases outcomes.len(),
{
    if outcomes.len() > 0 {
        lemma_outcomes_are_counted(effects, outcomes.drop_last());
    }
}

/// A dispatch under way: the effects of an event are executed one after the
/// other, and what each of them returns is recorded.
pub struct Dispatch<E: ?Sized + Effect> {
    handlers: Vec<Arc<E>>,
    fail_fast: bool,
    result: DispatchResult,
    recorded: Ghost<Seq<Outcome>>,
}

impl<E: ?Sized + Effect> Dispatch<E> {
    /// The effects of the event, in the order of execution.
    pub closed spec fn effects(&self) -> Seq<Arc<E>> {
        self.handlers@
    }

    /// What the effects returned that were executed so far.
    pub closed spec fn outcomes(&self) -> Seq<Outcome> {
        self.recorded@
    }

    /// Whether the first failure ends the dispatch.
    pub closed spec fn stops_on_failure(&self) -> bool {
        self.fail_fast
    }

    /// Type of the event.
    pub closed spec fn event_type(&self) -> Seq<char> {
        self.result.event_type@
    }

    /// Patterns that matched the event.
    pub closed spec fn matched(&self) -> Seq<Seq<char>> {
        texts(self.result.matched_patterns@)
    }

    #[verifier::type_invariant]
    spec fn is_consistent(&self) -> bool {
        &&& self.recorded@.len() <= self.handlers@.len()
        &&& self.result.effects_executed == self.recorded@.len()
        &&& self.result.results@ == successes(self.recorded@)
        &&& errors_tell(self.result.errors@, failures(self.handlers@, self.recorded@))
        &&& self.fail_fast ==> self.result.errors@.len() == 0
    }

    /// The effect to be executed next; `None` where all have been.
    pub fn next_effect(&self) -> (r: Option<Arc<E>>)
        ensures
            self.outcomes().len() <= self.effects().len(),
            match r {
                Some(effect) => self.outcomes().len() < self.effects().len() && effect
                    == self.effects()[self.outcomes().len() as int],
                None => self.outcomes().len() == self.effects().len(),
            },
    {
        proof {
            use_type_invariant(self);
        }
        let at: usize = self.result.effects_executed;
        if at < self.handlers.len() {
            Some(self.handlers[at].clone())
        } else {
            None
        }
    }

    /// Records what the next effect returned. Where failures end the dispatch, a
    /// failure is what the dispatch comes to; otherwise the dispatch goes on.
    pub fn record(self, outcome: Outcome) -> (r: Result<Self, RouterError>)
        requires
            self.outcomes().len() < self.effects().len(),
        ensures
            match r {
                Ok(next) => {
                    &&& outcome is Ok || !self.stops_on_failure()
                    &&& next.outcomes() == self.outcomes().push(outcome)
                    &&& next.effects() == self.effects()
                    &&& next.stops_on_failure() == self.stops_on_failure()
                    &&& next.event_type() == self.event_type()
                    &&& next.matched() == self.matched()
                },
                Err(error) => {
                    &&& self.stops_on_failure()
                    &&& outcome matches Err(reason) && error.tells(
                        self.effects()[self.outcomes().len() as int].effect_name(),
                        reason,
                    )
                },
            },
    {
        proof {
            use_type_invariant(&self);
        }
        let at: usize = self.result.effects_executed;
        let ghost before = self.recorded@;
        let ghost after = before.push(outcome);
        proof {
            assert(after.drop_last() =~= before);
        }
        let total: usize = self.handlers.len();
        assert(at < total);
        let Dispatch { handlers, fail_fast, result, recorded } = self;
        let DispatchResult { event_type, matched_patterns, effects_executed, results, errors } =
            result;
        let mut results = results;
        let mut errors = errors;
        match outcome {
            Ok(report) => {
                results.push(report);
            },
            Err(reason) => {
                let error = RouterError::EffectFailed {
                    effect_name: handlers[at].name().to_string(),
                    source: reason,
                };
                if fail_fast {
                    return Err(error);
                }
                errors.push(error);
            },
        }
        let result = DispatchResult {
            event_type,
            matched_patterns,
            effects_executed: effects_executed + 1,
            results,
            errors,
        };
        Ok(Dispatch { handlers, fail_fast, result, recorded: Ghost(after) })
    }

    /// What the dispatch came to, once every effect has been executed.
    pub fn finish(self) -> (r: DispatchResult)
        requires
            self.outcomes().len() == self.effects().len(),
        ensures
            r.event_type@ == self.event_type(),
            texts(r.matched_patterns@) == self.matched(),
            r.effects_executed == self.effects().len(),
            r.results@ == successes(self.outcomes()),
            errors_tell(r.errors@, failures(self.effects(), self.outcomes())),
            r.effects_executed == r.results@.len() + r.errors@.len(),
            self.stops_on_failure() ==> r.errors@.len() == 0,
    {
        proof {
            use_type_invariant(&self);
            lemma_outcomes_are_counted(self.handlers@, self.recorded@);
        }
        self.result
    }
}

impl<E: ?Sized + Effect> Router<E> {
    /// Starts the dispatch of an event.
    ///
    /// The effects of the exact event type are executed first, then those of the
    /// wildcard patterns that match. Where nothing matches, the default handler
    /// is executed, if there is one.
    pub fn dispatch(&self, event: &Event) -> (r: Dispatch<E>)
        ensures
            r.effects() == self@.triggered(event.event_type@),
            r.matched() == self@.reported(event.event_type@),
            r.event_type() == event.event_type@,
            r.stops_on_failure() == self@.fail_fast,
            r.outcomes() == Seq::<Outcome>::empty(),
    {
        proof {
            use_type_invariant(self);
            lemma_handlers_iff_handled(self@, event.event_type@);
        }
        let (mut handlers, mut matched_patterns) = self.get_handlers(event.event_type.as_str());
        if handlers.len() == 0 {
            matched_patterns = Vec::new();
            if let Some(effect) = &self.default_handler {
                handlers.push(effect.clone());
                matched_patterns.push("default".to_string());
            }
            assert(handlers@ =~= self@.triggered(event.event_type@));
            assert(texts(matched_patterns@) =~= self@.reported(event.event_type@));
        }
        let result = DispatchResult {
            event_type: event.event_type.clone(),
            matched_patterns,
            effects_executed: 0,
            results: Vec::new(),
            errors: Vec::new(),
        };
        Dispatch {
            handlers,
            fail_fast: self.fail_fast,
            result,
            recorded: Ghost(Seq::<Outcome>::empty()),
        }
    }
}

/// The catch-all matches every event type.
pub proof fn lemma_star_matches_everything(event_type: Seq<char>)
    ensures
        pattern_matches(event_type, "*"@),
{
}

/// A pattern without a star matches the event type of that name and no other.
pub proof fn lemma_exact_pattern_matches_itself(event_type: Seq<char>, pattern: Seq<char>)
    requires
        !is_wildcard(pattern),
    ensures
        pattern_matches(event_type, pattern) <==> event_type == pattern,
{
    reveal_strlit("*");
    if pattern == "*"@ {
        assert(pattern[0] == '*');
    }
    if is_prefix_pattern(pattern) {
        assert(pattern[pattern.len() - 1] == '*');
    }
}

/// A pattern `prefix.*` matches the event types that start with `prefix.`.
pub proof fn lemma_prefix_pattern_matches_by_prefix(event_type: Seq<char>, prefix: Seq<char>)
    ensures
        pattern_matches(event_type, prefix + ".*"@) <==> has_prefix(event_type, prefix + "."@),
{
    reveal_strlit(".*");
    reveal_strlit(".");
    reveal_strlit("*");
    let pattern = prefix + ".*"@;
    assert(pattern.drop_last() =~= prefix + "."@);
    if pattern == event_type {
        assert(event_type.subrange(0, (prefix + "."@).len() as int) =~= prefix + "."@);
    }
    assert(pattern.len() >= 2);
}

/// Entries one behind the other select one behind the other.
pub proof fn lemma_selected_in_order<E: ?Sized>(
    first: Seq<EntryView<E>>,
    second: Seq<EntryView<E>>,
    select: spec_fn(Seq<char>) -> bool,
)
    ensures
        selected_effects(first + second, select) == selected_effects(first, select)
            + selected_effects(second, select),
        selected_patterns(first + second, select) == selected_patterns(first, select)
            + selected_patterns(second, select),
    decreases second.len(),
{
    if second.len() == 0 {
        assert(first + second =~= first);
        assert(selected_effects(first, select) + selected_effects(second, select)
            =~= selected_effects(first, select));
        assert(selected_patterns(first, select) + selected_patterns(second, select)
            =~= selected_patterns(first, select));
    } else {
        assert((first + second).drop_last() =~= first + second.drop_last());
        assert((first + second).last() == second.last());
        lemma_selected_in_order(first, second.drop_last(), select);
        assert(selected_effects(first + second, select) =~= selected_effects(first, select)
            + selected_effects(second, select));
        assert(selected_patterns(first + second, select) =~= selected_patterns(first, select)
            + selected_patterns(second, select));
    }
}

/// Entries none of which is selected contribute nothing.
pub(crate) proof fn lemma_none_selected<E: ?Sized>(
    entries: Seq<EntryView<E>>,
    select: spec_fn(Seq<char>) -> bool,
)
    requires
        forall|i: int| 0 <= i < entries.len() ==> !select((#[trigger] entries[i]).0),
    ensures
        selected_effects(entries, select) == Seq::<Arc<E>>::empty(),
        selected_patterns(entries, select) == Seq::<Seq<char>>::empty(),
    decreases entries.len(),
{
    if entries.len() > 0 {
        let earlier = entries.drop_last();
        assert forall|i: int| 0 <= i < earlier.len() implies !select((#[trigger] earlier[i]).0) by {
            assert(earlier[i] == entries[i]);
        }
        lemma_none_selected(earlier, select);
        assert(!select(entries[entries.len() - 1].0));
    }
}

/// What entries select, split at one of them.
pub(crate) proof fn lemma_selected_around<E: ?Sized>(
    entries: Seq<EntryView<E>>,
    i: int,
    select: spec_fn(Seq<char>) -> bool,
)
    requires
        0 <= i < entries.len(),
    ensures
        selected_effects(entries, select) == selected_effects(entries.take(i), select) + (if select(
            entries[i].0,
        ) {
            entries[i].1
        } else {
            Seq::empty()
        }) + selected_effects(entries.skip(i + 1), select),
        selected_patterns(entries, select) == selected_patterns(entries.take(i), select) + (
        if select(entries[i].0) {
            seq![entries[i].0]
        } else {
            Seq::empty()
        }) + selected_patterns(entries.skip(i + 1), select),
{
    let head = entries.take(i + 1);
    assert(head.drop_last() =~= entries.take(i));
    assert(head.last() == entries[i]);
    assert(head + entries.skip(i + 1) =~= entries);
    lemma_selected_in_order(head, entries.skip(i + 1), select);
    assert(selected_effects(head, select) =~= selected_effects(entries.take(i), select) + (
    if select(entries[i].0) {
        entries[i].1
    } else {
        Seq::empty()
    }));
    assert(selected_patterns(head, select) =~= selected_patterns(entries.take(i), select) + (
    if select(entries[i].0) {
        seq![entries[i].0]
    } else {
        Seq::empty()
    }));
}

/// An effect registered for a pattern that is selected is among the selected
/// effects; one registered for another pattern changes nothing.
proof fn lemma_registered_selected<E: ?Sized>(
    before: Seq<EntryView<E>>,
    after: Seq<EntryView<E>>,
    pattern: Seq<char>,
    effect: Arc<E>,
    select: spec_fn(Seq<char>) -> bool,
)
    requires
        is_registered(before, after, pattern, effect),
    ensures
        select(pattern) ==> selected_effects(after, select).contains(effect),
        select(pattern) ==> selected_effects(after, select).len() == selected_effects(
            before,
            select,
        ).len() + 1,
        !select(pattern) ==> selected_effects(after, select) == selected_effects(before, select),
        !select(pattern) ==> selected_patterns(after, select) == selected_patterns(before, select),
{
    if has_pattern(before, pattern) {
        let i = choose|i: int|
            0 <= i < before.len() && (#[trigger] before[i]).0 == pattern && after == before.update(
                i,
                (pattern, before[i].1.push(effect)),
            );
        assert(after.take(i) =~= before.take(i));
        assert(after.skip(i + 1) =~= before.skip(i + 1));
        lemma_selected_around(before, i, select);
        lemma_selected_around(after, i, select);
        if select(pattern) {
            let at = selected_effects(after.take(i), select).len() + before[i].1.len();
            assert(selected_effects(after, select)[at as int] == effect);
        }
    } else {
        assert(after.drop_last() =~= before);
        assert(after.last() == (pattern, seq![effect]));
        if select(pattern) {
            let at = selected_effects(before, select).len() as int;
            assert(selected_effects(after, select)[at] == effect);
        }
    }
}

/// An effect is triggered by every event type that its pattern matches, from the
/// moment it is registered, and exactly one more effect than before is.
pub proof fn lemma_registered_effect_is_triggered<E: ?Sized>(
    before: RouterView<E>,
    after: RouterView<E>,
    pattern: Seq<char>,
    effect: Arc<E>,
    event_type: Seq<char>,
)
    requires
        before.is_valid(),
        after.is_valid(),
        is_registration(before, after, pattern, effect),
        pattern_matches(event_type, pattern),
    ensures
        after.handles(event_type),
        after.triggered(event_type).contains(effect),
        after.handlers(event_type).len() == before.handlers(event_type).len() + 1,
{
    lemma_handlers_iff_handled(after, event_type);
    let same = selector(event_type, true);
    let matching = selector(event_type, false);
    if is_wildcard(pattern) {
        lemma_registered_selected(before.patterns, after.patterns, pattern, effect, matching);
        let wild = selected_effects(after.patterns, matching);
        let k = choose|k: int| 0 <= k < wild.len() && wild[k] == effect;
        assert(after.handlers(event_type)[selected_effects(after.exact, same).len() + k] == effect);
    } else {
        lemma_exact_pattern_matches_itself(event_type, pattern);
        lemma_registered_selected(before.exact, after.exact, pattern, effect, same);
        let exact = selected_effects(after.exact, same);
        let k = choose|k: int| 0 <= k < exact.len() && exact[k] == effect;
        assert(after.handlers(event_type)[k] == effect);
    }
}

/// Registering an effect changes nothing for the event types that its pattern
/// does not match.
pub proof fn lemma_registration_leaves_others_alone<E: ?Sized>(
    before: RouterView<E>,
    after: RouterView<E>,
    pattern: Seq<char>,
    effect: Arc<E>,
    event_type: Seq<char>,
)
    requires
        before.is_valid(),
        after.is_valid(),
        is_registration(before, after, pattern, effect),
        !pattern_matches(event_type, pattern),
    ensures
        after.handles(event_type) == before.handles(event_type),
        after.triggered(event_type) == before.triggered(event_type),
        after.reported(event_type) == before.reported(event_type),
{
    lemma_handlers_iff_handled(before, event_type);
    lemma_handlers_iff_handled(after, event_type);
    if is_wildcard(pattern) {
        lemma_registered_selected(
            before.patterns,
            after.patterns,
            pattern,
            effect,
            selector(event_type, false),
        );
    } else {
        lemma_registered_selected(
            before.exact,
            after.exact,
            pattern,
            effect,
            selector(event_type, true),
        );
    }
}

/// The effects of the exact event type come first, then those of the wildcard
/// patterns that match.
pub proof fn lemma_exact_handlers_come_first<E: ?Sized>(router: RouterView<E>, i: int)
    requires
        router.is_valid(),
        0 <= i < router.exact.len(),
    ensures
        router.triggered(router.exact[i].0) == router.exact[i].1 + selected_effects(
            router.patterns,
            selector(router.exact[i].0, false),
        ),
        router.reported(router.exact[i].0) == seq![router.exact[i].0] + selected_patterns(
            router.patterns,
            selector(router.exact[i].0, false),
        ),
{
    let event_type = router.exact[i].0;
    let same = selector(event_type, true);
    lemma_selected_around(router.exact, i, same);
    let head = router.exact.take(i);
    let tail = router.exact.skip(i + 1);
    assert forall|k: int| 0 <= k < head.len() implies !same((#[trigger] head[k]).0) by {
        assert(head[k] == router.exact[k]);
    }
    assert forall|k: int| 0 <= k < tail.len() implies !same((#[trigger] tail[k]).0) by {
        assert(tail[k] == router.exact[i + 1 + k]);
    }
    lemma_none_selected(head, same);
    lemma_none_selected(tail, same);
    assert(selected_effects(router.exact, same) =~= router.exact[i].1);
    assert(selected_patterns(router.exact, same) =~= seq![event_type]);
}

/// The default handler is executed, alone, where nothing matches; a catch-all
/// pattern takes precedence over it.
pub proof fn lemma_default_is_for_the_unmatched<E: ?Sized>(
    router: RouterView<E>,
    event_type: Seq<char>,
)
    requires
        router.is_valid(),
    ensures
        !router.handles(event_type) && router.default_handler is Some ==> router.triggered(event_type)
            == seq![router.default_handler->0] && router.reported(event_type) == seq!["default"@],
        !router.handles(event_type) && router.default_handler is None ==> router.triggered(
            event_type,
        ).len() == 0 && router.reported(event_type).len() == 0,
        has_pattern(router.patterns, "*"@) ==> router.handles(event_type),
        router.handles(event_type) ==> router.triggered(event_type).len() > 0,
{
    lemma_handlers_iff_handled(router, event_type);
    if has_pattern(router.patterns, "*"@) {
        let i = choose|i: int|
            0 <= i < router.patterns.len() && (#[trigger] router.patterns[i]).0 == "*"@;
        assert(pattern_matches(event_type, router.patterns[i].0));
    }
}

} // verus!
