//! Configurations: what is accepted, and which effects routes come to.

use crate::config::{
    effect_ref, effect_values, webhook_problem, EffectRef, EffectsConfig, SynapseConfig,
    WebhookEffectConfig, ANY_EVENT,
};
use crate::duration::duration_nanos;
use crate::effects::{BuiltinEffect, BuiltinView};
use crate::laws::text::{lemma_prefix_and_rest, lemma_split_at_the_first, lemma_split_of_parts};
use crate::router::{has_pattern, is_wildcard, pattern_matches, RouterView};
use crate::text::{contains_text, occurs_at, split_at_first};
use std::sync::Arc;
use vstd::prelude::*;

verus! {

/// Whether one text is another with something behind it.
pub open spec fn is_continued(prefix: Seq<char>, text: Seq<char>) -> bool {
    exists|rest: Seq<char>| text == #[trigger] (prefix + rest)
}

/// A configuration is accepted exactly where every webhook has a URL of HTTP, with or
/// without TLS, and the format `json` or `discord`.
pub proof fn lemma_what_is_accepted(config: SynapseConfig)
    ensures
        config.is_acceptable() <==> forall|name: Seq<char>| #[trigger]
            config.effects.webhook@.contains_key(name) ==> {
                let webhook = config.effects.webhook@[name];
                &&& is_continued("http://"@, webhook.url@) || is_continued("https://"@, webhook.url@)
                &&& webhook.format@ == "json"@ || webhook.format@ == "discord"@
            },
{
    reveal_strlit("http://");
    reveal_strlit("https://");
    assert forall|name: Seq<char>| #[trigger] config.effects.webhook@.contains_key(name) implies ((
    webhook_problem(name, config.effects.webhook@[name]) is None) <==> ((is_continued(
        "http://"@,
        config.effects.webhook@[name].url@,
    ) || is_continued("https://"@, config.effects.webhook@[name].url@)) && (
    config.effects.webhook@[name].format@ == "json"@ || config.effects.webhook@[name].format@
        == "discord"@))) by {
        let url = config.effects.webhook@[name].url@;
        lemma_prefix_and_rest(url, "http://"@);
        lemma_prefix_and_rest(url, "https://"@);
    }
}

/// What is wrong with a webhook is told: first that its URL is empty, then that the URL
/// is none of HTTP, then that the format is another.
pub proof fn lemma_problem_is_told(
    name: Seq<char>,
    webhook: WebhookEffectConfig,
)
    ensures
        ({
            let problem = webhook_problem(name, webhook);
            let of_http = is_continued("http://"@, webhook.url@) || is_continued(
                "https://"@,
                webhook.url@,
            );
            let known = webhook.format@ == "json"@ || webhook.format@ == "discord"@;
            &&& webhook.url@.len() == 0 ==> problem == Some(
                "Webhook '"@ + name + "' has empty URL"@,
            )
            &&& webhook.url@.len() > 0 && !of_http ==> problem == Some(
                "Webhook '"@ + name + "' URL must start with http:// or https://"@,
            )
            &&& of_http && !known ==> problem == Some(
                "Webhook '"@ + name + "' format must be 'json' or 'discord'"@,
            )
            &&& of_http && known ==> problem is None
        }),
{
    reveal_strlit("http://");
    reveal_strlit("https://");
    lemma_prefix_and_rest(webhook.url@, "http://"@);
    lemma_prefix_and_rest(webhook.url@, "https://"@);
}

/// Whether a URL has the start of a placeholder in it.
pub open spec fn is_open_url(url: Seq<char>) -> bool {
    exists|i: int| 0 <= i < url.len() - 1 && #[trigger] url[i] == '$' && url[i + 1] == '{'
}

/// A URL has the start of a placeholder in it where its two characters stand side by
/// side.
proof fn lemma_open_url(url: Seq<char>)
    ensures
        contains_text(url, "${"@) <==> is_open_url(url),
{
    reveal_strlit("${");
    if contains_text(url, "${"@) {
        let at = choose|at: int| occurs_at(url, "${"@, at);
        let part = url.subrange(at, at + 2);
        assert(part[0] == '$' && part[1] == '{');
        assert(url[at] == '$' && url[at + 1] == '{');
    }
    if is_open_url(url) {
        let i = choose|i: int|
            0 <= i < url.len() - 1 && #[trigger] url[i] == '$' && url[i + 1] == '{';
        assert(url.subrange(i, i + 2) =~= "${"@);
        assert(occurs_at(url, "${"@, i));
    }
}

/// What a reference with a kind and a name says.
proof fn lemma_reference_parts(kind: Seq<char>, name: Seq<char>)
    requires
        kind == "log"@ || kind == "webhook"@,
    ensures
        split_at_first(kind + seq![':'] + name, ':') == Some((kind, name)),
        "log"@ != "webhook"@,
{
    reveal_strlit("log");
    reveal_strlit("webhook");
    assert("log"@.len() == 3 && "webhook"@.len() == 7);
    lemma_split_of_parts(kind, ':', name);
}

/// A reference to a configured webhook, whose URL has no open placeholder, resolves to
/// an effect with the URL, the timeout, the retries and the format of that webhook. One
/// whose URL has an open placeholder, or that is not configured, does not resolve.
pub proof fn lemma_webhook_is_as_configured(
    effects: EffectsConfig,
    name: Seq<char>,
    effect: BuiltinEffect,
)
    ensures
        ({
            let resolved = effects.resolved("webhook"@ + seq![':'] + name);
            let configured = effects.webhook@[name];
            &&& effects.webhook@.contains_key(name) && !is_open_url(configured.url@) <==> resolved
                is Some
            &&& resolved == Some(effect@) ==> (effect matches BuiltinEffect::Webhook(webhook)
                && webhook.url@ == configured.url@ && duration_nanos(webhook.timeout)
                == configured.timeout_ms * 1_000_000 && webhook.retries == configured.retries
                && webhook.discord_format == (configured.format@ == "discord"@))
        }),
{
    lemma_reference_parts("webhook"@, name);
    lemma_open_url(effects.webhook@[name].url@);
}

/// Two webhooks with other URLs, timeouts or retries resolve to other effects.
pub proof fn lemma_webhooks_are_told_apart(
    one: EffectsConfig,
    other: EffectsConfig,
    name: Seq<char>,
)
    requires
        one.webhook@.contains_key(name),
        other.webhook@.contains_key(name),
        !is_open_url(one.webhook@[name].url@),
        !is_open_url(other.webhook@[name].url@),
        one.resolved("webhook"@ + seq![':'] + name) == other.resolved(
            "webhook"@ + seq![':'] + name,
        ),
    ensures
        one.webhook@[name].url@ == other.webhook@[name].url@,
        one.webhook@[name].timeout_ms == other.webhook@[name].timeout_ms,
        one.webhook@[name].retries == other.webhook@[name].retries,
        one.webhook@[name].format@ == "discord"@ <==> other.webhook@[name].format@ == "discord"@,
{
    lemma_reference_parts("webhook"@, name);
    lemma_open_url(one.webhook@[name].url@);
    lemma_open_url(other.webhook@[name].url@);
}

/// A reference to a configured log effect resolves to one with its prefix, and the bare
/// word to one with the prefix `event`. No other log effect resolves.
pub proof fn lemma_log_is_as_configured(
    effects: EffectsConfig,
    name: Seq<char>,
    effect: BuiltinEffect,
)
    ensures
        ({
            let resolved = effects.resolved("log"@ + seq![':'] + name);
            &&& effects.log@.contains_key(name) <==> resolved is Some
            &&& resolved == Some(effect@) ==> (effect matches BuiltinEffect::Log(log)
                && log.prefix@ == effects.log@[name].prefix@)
        }),
        effects.resolved("log"@) is Some,
        effects.resolved("log"@) == Some(effect@) ==> (effect matches BuiltinEffect::Log(log)
            && log.prefix@ == "event"@),
{
    lemma_reference_parts("log"@, name);
    lemma_bare_log();
}

/// The bare word for a log effect has no name in it.
proof fn lemma_bare_log()
    ensures
        split_at_first("log"@, ':') is None,
{
    reveal_strlit("log");
    lemma_split_at_the_first("log"@, ':');
    if let Some((before, behind)) = split_at_first("log"@, ':') {
        assert("log"@[before.len() as int] == ':');
    }
}

/// A reference names an effect exactly where it is the bare word for a log effect, or
/// gives the name of a configured log or webhook effect behind its kind. What names no
/// effect does not resolve.
pub proof fn lemma_references_that_name_effects(config: SynapseConfig, reference: Seq<char>)
    ensures
        config.refers_to_effect(reference) <==> {
            ||| reference == "log"@
            ||| exists|name: Seq<char>| #[trigger]
                config.effects.log@.contains_key(name) && reference == "log"@ + seq![':'] + name
            ||| exists|name: Seq<char>| #[trigger]
                config.effects.webhook@.contains_key(name) && reference == "webhook"@ + seq![':']
                    + name
        },
        !config.refers_to_effect(reference) ==> config.effects.resolved(reference) is None,
{
    lemma_bare_log();
    lemma_split_at_the_first(reference, ':');
    if config.refers_to_effect(reference) {
        match effect_ref(reference) {
            EffectRef::Log(name) => {
                assert(config.effects.log@.contains_key(name));
                assert(reference == "log"@ + seq![':'] + name);
            },
            EffectRef::Webhook(name) => {
                assert(config.effects.webhook@.contains_key(name));
                assert(reference == "webhook"@ + seq![':'] + name);
            },
            _ => {},
        }
    }
    if exists|name: Seq<char>| #[trigger]
        config.effects.log@.contains_key(name) && reference == "log"@ + seq![':'] + name {
        let name = choose|name: Seq<char>| #[trigger]
            config.effects.log@.contains_key(name) && reference == "log"@ + seq![':'] + name;
        lemma_reference_parts("log"@, name);
    }
    if exists|name: Seq<char>| #[trigger]
        config.effects.webhook@.contains_key(name) && reference == "webhook"@ + seq![':'] + name {
        let name = choose|name: Seq<char>| #[trigger]
            config.effects.webhook@.contains_key(name) && reference == "webhook"@ + seq![':']
                + name;
        lemma_reference_parts("webhook"@, name);
    }
}

/// The effects of a list of references are those of the references one after the other;
/// one that does not resolve adds nothing.
pub proof fn lemma_effects_of_references(
    effects: EffectsConfig,
    references: Seq<String>,
    reference: String,
)
    ensures
        effects.all_resolved(Seq::<String>::empty()).len() == 0,
        effects.all_resolved(references.push(reference)) == (match effects.resolved(reference@) {
            Some(effect) => effects.all_resolved(references) + seq![effect],
            None => effects.all_resolved(references),
        }),
{
    assert(references.push(reference).drop_last() =~= references);
}

/// Whether a router's entry is that of a pattern with effects.
pub open spec fn is_entry_of(
    entry: (Seq<char>, Seq<Arc<BuiltinEffect>>),
    pattern: Seq<char>,
    effects: Seq<BuiltinView>,
) -> bool {
    &&& entry.0 == pattern
    &&& entry.1.len() == effects.len()
    &&& forall|m: int| 0 <= m < effects.len() ==> (*#[trigger] entry.1[m])@ == effects[m]
}

/// Whether entries hold two patterns with their effects, the first one before the other
/// where they are two.
pub open spec fn stand_in_order(
    entries: Seq<(Seq<char>, Seq<Arc<BuiltinEffect>>)>,
    first: Seq<char>,
    first_effects: Seq<BuiltinView>,
    second: Seq<char>,
    second_effects: Seq<BuiltinView>,
    are_two: bool,
) -> bool {
    exists|i: int, j: int|
        #![trigger entries[i], entries[j]]
        {
            &&& 0 <= i <= j < entries.len()
            &&& are_two ==> i < j
            &&& is_entry_of(entries[i], first, first_effects)
            &&& is_entry_of(entries[j], second, second_effects)
        }
}

/// Where a route stands among those of its kind.
proof fn lemma_route_position(config: SynapseConfig, n: int, k: int, wildcard: bool) -> (i: int)
    requires
        0 <= k < n,
        is_wildcard(config.routes.names()[k]) == wildcard,
        config.effects.all_resolved(config.routes@[config.routes.names()[k]]@).len() > 0,
    ensures
        config.routed(k, wildcard).len() == i,
        0 <= i < config.routed(n, wildcard).len(),
        config.routed(n, wildcard)[i] == (
            config.routes.names()[k],
            config.effects.all_resolved(config.routes@[config.routes.names()[k]]@),
        ),
    decreases n,
{
    if k == n - 1 {
        config.routed(k, wildcard).len() as int
    } else {
        lemma_route_position(config, n - 1, k, wildcard)
    }
}

/// More routes have no fewer entries.
proof fn lemma_routes_add_up(config: SynapseConfig, k: int, l: int, wildcard: bool)
    requires
        0 <= k <= l,
    ensures
        config.routed(k, wildcard).len() <= config.routed(l, wildcard).len(),
    decreases l,
{
    if k < l {
        lemma_routes_add_up(config, k, l - 1, wildcard);
    }
}

/// A route whose references resolve is an entry of the router, with the effects that
/// they resolve to, in order: among the wildcard patterns where its pattern has a star
/// in it, and among the exact event types where it has none. Of two such routes of one
/// kind the earlier one stands first.
pub proof fn lemma_routes_are_entries(
    config: SynapseConfig,
    router: RouterView<BuiltinEffect>,
    k: int,
    l: int,
)
    requires
        config.builds(router),
        0 <= k <= l < config.routes.names().len(),
        config.routes.names()[k].contains('*') <==> config.routes.names()[l].contains('*'),
        config.effects.all_resolved(config.routes@[config.routes.names()[k]]@).len() > 0,
        config.effects.all_resolved(config.routes@[config.routes.names()[l]]@).len() > 0,
    ensures
        ({
            let entries = if config.routes.names()[k].contains('*') {
                router.patterns
            } else {
                router.exact
            };
            stand_in_order(
                entries,
                config.routes.names()[k],
                config.effects.all_resolved(config.routes@[config.routes.names()[k]]@),
                config.routes.names()[l],
                config.effects.all_resolved(config.routes@[config.routes.names()[l]]@),
                k < l,
            )
        }),
{
    let n = config.routes.names().len() as int;
    let wildcard = config.routes.names()[k].contains('*');
    let entries = if wildcard {
        router.patterns
    } else {
        router.exact
    };
    let i = lemma_route_position(config, n, k, wildcard);
    let j = lemma_route_position(config, n, l, wildcard);
    if k < l {
        lemma_routes_add_up(config, k + 1, l, wildcard);
        assert(config.routed(k + 1, wildcard).len() == config.routed(k, wildcard).len() + 1);
    }
    assert(effect_values(entries) == config.routed(n, wildcard));
    assert(effect_values(entries).len() == entries.len());
    lemma_entry_value(entries, i);
    lemma_entry_value(entries, j);
    assert(is_entry_of(
        entries[i],
        config.routes.names()[k],
        config.effects.all_resolved(config.routes@[config.routes.names()[k]]@),
    ));
    assert(is_entry_of(
        entries[j],
        config.routes.names()[l],
        config.effects.all_resolved(config.routes@[config.routes.names()[l]]@),
    ));
    assert(k < l ==> i < j);
}

/// The value of an entry is that of its effects.
proof fn lemma_entry_value(entries: Seq<(Seq<char>, Seq<Arc<BuiltinEffect>>)>, i: int)
    requires
        0 <= i < entries.len(),
    ensures
        is_entry_of(entries[i], effect_values(entries)[i].0, effect_values(entries)[i].1),
{
}

/// Every entry of a router that was built is that of a route.
pub proof fn lemma_entries_are_routes(
    config: SynapseConfig,
    router: RouterView<BuiltinEffect>,
    wildcard: bool,
    i: int,
)
    requires
        config.builds(router),
        0 <= i < (if wildcard {
            router.patterns
        } else {
            router.exact
        }).len(),
    ensures
        exists|k: int|
            #![trigger config.routes.names()[k]]
            0 <= k < config.routes.names().len() && config.routes.names()[k].contains('*')
                == wildcard && is_entry_of(
                if wildcard {
                    router.patterns[i]
                } else {
                    router.exact[i]
                },
                config.routes.names()[k],
                config.effects.all_resolved(config.routes@[config.routes.names()[k]]@),
            ),
{
    let entries = if wildcard {
        router.patterns
    } else {
        router.exact
    };
    let n = config.routes.names().len() as int;
    assert(effect_values(entries) == config.routed(n, wildcard));
    assert(effect_values(entries).len() == entries.len());
    let k = lemma_route_of_position(config, n, i, wildcard);
    lemma_entry_value(entries, i);
    assert(config.routes.names()[k].contains('*') == wildcard);
}

/// Which route stands at a position.
proof fn lemma_route_of_position(config: SynapseConfig, n: int, i: int, wildcard: bool) -> (k: int)
    requires
        0 <= n,
        0 <= i < config.routed(n, wildcard).len(),
    ensures
        0 <= k < n,
        is_wildcard(config.routes.names()[k]) == wildcard,
        config.routed(n, wildcard)[i] == (
            config.routes.names()[k],
            config.effects.all_resolved(config.routes@[config.routes.names()[k]]@),
        ),
    decreases n,
{
    if i < config.routed(n - 1, wildcard).len() {
        lemma_route_of_position(config, n - 1, i, wildcard)
    } else {
        n - 1
    }
}

/// Where no pattern takes any event, events that nothing matches are logged with the
/// prefix `unhandled`; where one does, there is no default. Left out are configurations
/// with a route for the very event type that is used to ask whether any is handled.
pub proof fn lemma_default_of_a_built_router(
    config: SynapseConfig,
    router: RouterView<BuiltinEffect>,
)
    requires
        config.builds(router),
        forall|i: int|
            0 <= i < router.exact.len() ==> (#[trigger] router.exact[i]).0
                != "__any_random_event__"@,
    ensures
        (exists|i: int| 0 <= i < router.patterns.len() && (#[trigger] router.patterns[i]).0 == "*"@)
            <==> router.default_handler is None,
        router.default_handler matches Some(effect) ==> (*effect matches BuiltinEffect::Log(log)
            && log.prefix@ == "unhandled"@),
        !router.fail_fast,
{
    reveal_strlit("__any_random_event__");
    reveal_strlit("*");
    if exists|i: int| 0 <= i < router.patterns.len() && (#[trigger] router.patterns[i]).0 == "*"@ {
        let i = choose|i: int|
            0 <= i < router.patterns.len() && (#[trigger] router.patterns[i]).0 == "*"@;
        assert(pattern_matches(ANY_EVENT@, router.patterns[i].0));
        assert(router.handles(ANY_EVENT@));
    } else if router.handles(ANY_EVENT@) {
        assert(!has_pattern(router.exact, ANY_EVENT@));
        let i = choose|i: int|
            0 <= i < router.patterns.len() && pattern_matches(
                ANY_EVENT@,
                (#[trigger] router.patterns[i]).0,
            );
        let pattern = router.patterns[i].0;
        assert(is_wildcard(pattern));
        assert(!is_wildcard(ANY_EVENT@));
        assert(pattern != "*"@);
        let at = pattern.len() - 2;
        assert(pattern.drop_last()[at] == '.');
        assert(ANY_EVENT@.subrange(0, pattern.len() - 1)[at] == ANY_EVENT@[at]);
    }
}

/// The references that name no effect are those of the routes, in order, one after the
/// other, each with the pattern of its route.
pub proof fn lemma_undefined_references(config: SynapseConfig, n: int, m: int)
    requires
        0 <= n,
    ensures
        config.undefined(0, 0).len() == 0,
        config.undefined(n + 1, 0) == config.undefined(
            n,
            config.routes@[config.routes.names()[n]]@.len() as int,
        ),
        m >= 0 ==> ({
            let pattern = config.routes.names()[n];
            let reference = config.routes@[pattern]@[m]@;
            config.undefined(n, m + 1) == (if config.refers_to_effect(reference) {
                config.undefined(n, m)
            } else {
                config.undefined(n, m) + seq![(pattern, reference)]
            })
        }),
{
    if m >= 0 {
        let pattern = config.routes.names()[n];
        let reference = config.routes@[pattern]@[m]@;
        assert(config.undefined(n, m).push((pattern, reference)) =~= config.undefined(n, m) + seq![
            (pattern, reference),
        ]);
    }
}

} // verus!
