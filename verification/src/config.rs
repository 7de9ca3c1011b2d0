//! Configuration.
//!
//! ```toml
//! [server]
//! port = 3000
//!
//! [routes]
//! "game.*" = ["log:game", "webhook:discord"]
//!
//! [effects.webhook.discord]
//! url = "${DISCORD_WEBHOOK_URL}"
//! ```

use crate::effects::{BuiltinEffect, BuiltinView, LogEffect, WebhookEffect};
use crate::router::{
    has_pattern, is_prefix_pattern, is_registered, is_wildcard, lemma_handlers_iff_handled,
    pattern_matches, EntryView, Router, RouterView,
};
use crate::table::Table;
use crate::text::{
    contains, contains_text, has_prefix, same_text, split_at_first, split_once, starts_with,
};
use std::sync::Arc;
use std::time::Duration;
use vstd::prelude::*;

pub use crate::placeholders::substitute_env_vars;

verus! {

/// Why a configuration could not be loaded.
#[derive(Debug)]
pub enum ConfigError {
    /// The file could not be read.
    ReadError(String),
    /// The file is no TOML of the right shape.
    ParseError(String),
    /// The values are not acceptable.
    ValidationError(String),
    /// A value that is needed is missing.
    MissingField(String),
}

impl ConfigError {
    /// The text that tells a reader what went wrong.
    pub open spec fn text(self) -> Seq<char> {
        match self {
            ConfigError::ReadError(detail) => "Failed to read config file: "@ + detail@,
            ConfigError::ParseError(detail) => "Failed to parse TOML: "@ + detail@,
            ConfigError::ValidationError(detail) => "Validation error: "@ + detail@,
            ConfigError::MissingField(detail) => "Missing required field: "@ + detail@,
        }
    }

    /// Tells a reader what went wrong.
    pub fn message(&self) -> (r: String)
        ensures
            r@ == self.text(),
    {
        match self {
            ConfigError::ReadError(detail) => "Failed to read config file: ".to_string().concat(
                detail.as_str(),
            ),
            ConfigError::ParseError(detail) => "Failed to parse TOML: ".to_string().concat(
                detail.as_str(),
            ),
            ConfigError::ValidationError(detail) => "Validation error: ".to_string().concat(
                detail.as_str(),
            ),
            ConfigError::MissingField(detail) => "Missing required field: ".to_string().concat(
                detail.as_str(),
            ),
        }
    }
}

/// Port of the server unless it is configured.
pub fn default_port() -> (r: u16)
    ensures
        r == 3000,
{
    3000
}

/// Where Redis is unless it is configured.
pub fn default_redis_url() -> (r: String)
    ensures
        r@ == "redis://localhost:6379"@,
{
    "redis://localhost:6379".to_string()
}

/// Consumer group of workers unless it is configured.
pub fn default_consumer_group() -> (r: String)
    ensures
        r@ == "synapse_workers"@,
{
    "synapse_workers".to_string()
}

/// Prefix of a log effect unless it is configured.
pub fn default_log_prefix() -> (r: String)
    ensures
        r@ == "synapse"@,
{
    "synapse".to_string()
}

/// Timeout of a webhook unless it is configured.
pub fn default_timeout_ms() -> (r: u64)
    ensures
        r == 10000,
{
    10000
}

/// Retries of a webhook unless they are configured.
pub fn default_retries() -> (r: u32)
    ensures
        r == 2,
{
    2
}

/// Format of a webhook unless it is configured.
pub fn default_format() -> (r: String)
    ensures
        r@ == "json"@,
{
    "json".to_string()
}

/// Settings of the server.
#[derive(Debug, Clone)]
pub struct ServerConfig {
    pub port: u16,
    pub api_key: Option<String>,
}

impl Default for ServerConfig {
    fn default() -> (r: Self)
        ensures
            r.port == 3000,
            r.api_key is None,
    {
        ServerConfig { port: default_port(), api_key: None }
    }
}

/// Settings of the connection to Redis.
#[derive(Debug, Clone)]
pub struct RedisConfig {
    pub url: String,
}

impl Default for RedisConfig {
    fn default() -> (r: Self)
        ensures
            r.url@ == "redis://localhost:6379"@,
    {
        RedisConfig { url: default_redis_url() }
    }
}

/// Settings of a worker.
#[derive(Debug, Clone)]
pub struct WorkerConfig {
    pub name: Option<String>,
    pub consumer_group: String,
}

impl Default for WorkerConfig {
    fn default() -> (r: Self)
        ensures
            r.name is None,
            r.consumer_group@ == "synapse_workers"@,
    {
        WorkerConfig { name: None, consumer_group: default_consumer_group() }
    }
}

/// Settings of a log effect.
#[derive(Debug, Clone)]
pub struct LogEffectConfig {
    pub prefix: String,
}

/// Settings of a webhook effect.
#[derive(Debug, Clone)]
pub struct WebhookEffectConfig {
    pub url: String,
    pub timeout_ms: u64,
    pub retries: u32,
    /// `json` or `discord`.
    pub format: String,
}

/// Settings of effects, by name.
#[derive(Debug, Clone)]
pub struct EffectsConfig {
    pub log: Table<LogEffectConfig>,
    pub webhook: Table<WebhookEffectConfig>,
}

impl Default for EffectsConfig {
    fn default() -> (r: Self)
        ensures
            r.log.names().len() == 0,
            r.log@ == Map::<Seq<char>, LogEffectConfig>::empty(),
            r.webhook.names().len() == 0,
            r.webhook@ == Map::<Seq<char>, WebhookEffectConfig>::empty(),
    {
        EffectsConfig { log: Table::new(), webhook: Table::new() }
    }
}

/// A whole configuration.
#[derive(Debug, Clone)]
pub struct SynapseConfig {
    pub server: ServerConfig,
    pub redis: RedisConfig,
    pub worker: WorkerConfig,
    /// References to effects, by pattern.
    pub routes: Table<Vec<String>>,
    pub effects: EffectsConfig,
}

impl Default for SynapseConfig {
    fn default() -> (r: Self)
        ensures
            r.server.port == 3000,
            r.server.api_key is None,
            r.redis.url@ == "redis://localhost:6379"@,
            r.worker.name is None,
            r.worker.consumer_group@ == "synapse_workers"@,
            r.routes.names().len() == 0,
            r.routes@ == Map::<Seq<char>, Vec<String>>::empty(),
            r.effects.log.names().len() == 0,
            r.effects.log@ == Map::<Seq<char>, LogEffectConfig>::empty(),
            r.effects.webhook.names().len() == 0,
            r.effects.webhook@ == Map::<Seq<char>, WebhookEffectConfig>::empty(),
    {
        SynapseConfig {
            server: ServerConfig::default(),
            redis: RedisConfig::default(),
            worker: WorkerConfig::default(),
            routes: Table::new(),
            effects: EffectsConfig::default(),
        }
    }
}

/// What a reference to an effect says.
#[verifier::ext_equal]
pub enum EffectRef {
    /// `log`: the log effect that needs no settings.
    PlainLog,
    /// `log:name`
    Log(Seq<char>),
    /// `webhook:name`
    Webhook(Seq<char>),
    /// Nothing that is understood.
    Unknown,
}

/// What a reference to an effect says.
pub open spec fn effect_ref(reference: Seq<char>) -> EffectRef {
    match split_at_first(reference, ':') {
        Some((kind, name)) => if kind == "log"@ {
            EffectRef::Log(name)
        } else if kind == "webhook"@ {
            EffectRef::Webhook(name)
        } else {
            EffectRef::Unknown
        },
        None => if reference == "log"@ {
            EffectRef::PlainLog
        } else {
            EffectRef::Unknown
        },
    }
}

/// What is wrong with the settings of a webhook, where something is.
pub open spec fn webhook_problem(name: Seq<char>, webhook: WebhookEffectConfig) -> Option<Seq<char>> {
    if webhook.url@.len() == 0 {
        Some("Webhook '"@ + name + "' has empty URL"@)
    } else if !has_prefix(webhook.url@, "http://"@) && !has_prefix(webhook.url@, "https://"@) {
        Some("Webhook '"@ + name + "' URL must start with http:// or https://"@)
    } else if webhook.format@ != "json"@ && webhook.format@ != "discord"@ {
        Some("Webhook '"@ + name + "' format must be 'json' or 'discord'"@)
    } else {
        None
    }
}

fn check_webhook(name: &str, webhook: &WebhookEffectConfig) -> (r: Option<String>)
    ensures
        match r {
            Some(problem) => webhook_problem(name@, *webhook) == Some(problem@),
            None => webhook_problem(name@, *webhook) is None,
        },
{
    let url = webhook.url.as_str();
    let format = webhook.format.as_str();
    if url.is_empty() {
        Some("Webhook '".to_string().concat(name).concat("' has empty URL"))
    } else if !starts_with(url, "http://") && !starts_with(url, "https://") {
        Some(
            "Webhook '".to_string().concat(name).concat(
                "' URL must start with http:// or https://",
            ),
        )
    } else if !same_text(format, "json") && !same_text(format, "discord") {
        Some("Webhook '".to_string().concat(name).concat("' format must be 'json' or 'discord'"))
    } else {
        None
    }
}

impl EffectsConfig {
    /// The effect that a reference resolves to, where it is configured. A webhook
    /// whose URL still has a placeholder in it counts as not configured.
    pub open spec fn resolved(self, reference: Seq<char>) -> Option<BuiltinView> {
        match effect_ref(reference) {
            EffectRef::PlainLog => Some(BuiltinView::Log { prefix: "event"@ }),
            EffectRef::Log(name) => if self.log@.contains_key(name) {
                Some(BuiltinView::Log { prefix: self.log@[name].prefix@ })
            } else {
                None
            },
            EffectRef::Webhook(name) => if self.webhook@.contains_key(name) && !contains_text(
                self.webhook@[name].url@,
                "${"@,
            ) {
                let webhook = self.webhook@[name];
                Some(
                    BuiltinView::Webhook {
                        url: webhook.url@,
                        timeout_nanos: webhook.timeout_ms as nat * 1_000_000,
                        retries: webhook.retries,
                        discord_format: webhook.format@ == "discord"@,
                    },
                )
            } else {
                None
            },
            EffectRef::Unknown => None,
        }
    }

    /// The effects that references resolve to, in order, without those that do
    /// not resolve.
    pub open spec fn all_resolved(self, references: Seq<String>) -> Seq<BuiltinView>
        decreases references.len(),
    {
        if references.len() == 0 {
            Seq::empty()
        } else {
            let earlier = self.all_resolved(references.drop_last());
            match self.resolved(references.last()@) {
                Some(effect) => earlier.push(effect),
                None => earlier,
            }
        }
    }

    /// The effect that a reference resolves to, where it is configured.
    pub fn resolve(&self, reference: &str) -> (r: Option<BuiltinEffect>)
        ensures
            match r {
                Some(effect) => self.resolved(reference@) == Some(effect@),
                None => self.resolved(reference@) is None,
            },
    {
        match split_once(reference, ':') {
            Some((kind, name)) => {
                if same_text(kind.as_str(), "log") {
                    match self.log.get(name.as_str()) {
                        Some(config) => Some(
                            BuiltinEffect::Log(LogEffect::with_prefix(config.prefix.as_str())),
                        ),
                        None => None,
                    }
                } else if same_text(kind.as_str(), "webhook") {
                    match self.webhook.get(name.as_str()) {
                        Some(config) => {
                            if contains(config.url.as_str(), "${") {
                                return None;
                            }
                            let effect = WebhookEffect::new(config.url.as_str()).with_timeout(
                                Duration::from_millis(config.timeout_ms),
                            ).with_retries(config.retries);
                            if same_text(config.format.as_str(), "discord") {
                                Some(BuiltinEffect::Webhook(effect.with_discord_format()))
                            } else {
                                Some(BuiltinEffect::Webhook(effect))
                            }
                        },
                        None => None,
                    }
                } else {
                    None
                }
            },
            None => {
                if same_text(reference, "log") {
                    Some(BuiltinEffect::Log(LogEffect::new()))
                } else {
                    None
                }
            },
        }
    }
}

/// The patterns of entries with the settings of their effects.
pub open spec fn effect_values(entries: Seq<EntryView<BuiltinEffect>>) -> Seq<
    (Seq<char>, Seq<BuiltinView>),
> {
    entries.map_values(
        |entry: EntryView<BuiltinEffect>|
            (entry.0, entry.1.map_values(|effect: Arc<BuiltinEffect>| (*effect)@)),
    )
}

/// A list of patterns with effects, with one more effect for a pattern that is
/// the last one or new.
spec fn with_effect(
    list: Seq<(Seq<char>, Seq<BuiltinView>)>,
    pattern: Seq<char>,
    effect: BuiltinView,
) -> Seq<(Seq<char>, Seq<BuiltinView>)> {
    if list.len() > 0 && list.last().0 == pattern {
        list.drop_last().push((pattern, list.last().1.push(effect)))
    } else {
        list.push((pattern, seq![effect]))
    }
}

proof fn lemma_with_effect(
    before: Seq<EntryView<BuiltinEffect>>,
    after: Seq<EntryView<BuiltinEffect>>,
    pattern: Seq<char>,
    effect: Arc<BuiltinEffect>,
)
    requires
        is_registered(before, after, pattern, effect),
        forall|i: int| 0 <= i < before.len() - 1 ==> (#[trigger] before[i]).0 != pattern,
    ensures
        effect_values(after) == with_effect(effect_values(before), pattern, (*effect)@),
{
    let values = effect_values(before);
    if has_pattern(before, pattern) {
        let i = choose|i: int|
            0 <= i < before.len() && (#[trigger] before[i]).0 == pattern && after == before.update(
                i,
                (pattern, before[i].1.push(effect)),
            );
        let last = before.len() - 1;
        assert(i == last);
        assert(values.last().0 == pattern);
        assert(before[i].1.push(effect).map_values(|e: Arc<BuiltinEffect>| (*e)@)
            =~= values.last().1.push((*effect)@));
        assert(effect_values(after) =~= with_effect(values, pattern, (*effect)@));
    } else {
        if values.len() > 0 {
            assert(before[before.len() - 1].0 == values.last().0);
        }
        assert(seq![effect].map_values(|e: Arc<BuiltinEffect>| (*e)@) =~= seq![(*effect)@]);
        assert(effect_values(after) =~= with_effect(values, pattern, (*effect)@));
    }
}

/// A list of patterns with effects, with a pattern behind it that has effects and
/// is a wildcard or not, as asked for.
pub open spec fn extended(
    list: Seq<(Seq<char>, Seq<BuiltinView>)>,
    pattern: Seq<char>,
    effects: Seq<BuiltinView>,
    wildcard: bool,
) -> Seq<(Seq<char>, Seq<BuiltinView>)> {
    if is_wildcard(pattern) == wildcard && effects.len() > 0 {
        list.push((pattern, effects))
    } else {
        list
    }
}

/// The event type by which a router is asked whether it handles everything.
pub const ANY_EVENT: &'static str = "__any_random_event__";

impl SynapseConfig {
    /// What the first `n` routes register among the wildcard patterns, or among
    /// the exact event types: each pattern with the effects that its references
    /// resolve to, without the patterns that none resolves for.
    pub open spec fn routed(self, n: int, wildcard: bool) -> Seq<(Seq<char>, Seq<BuiltinView>)>
        decreases n,
    {
        if n <= 0 {
            Seq::empty()
        } else {
            extended(
                self.routed(n - 1, wildcard),
                self.routes.names()[n - 1],
                self.effects.all_resolved(self.routes@[self.routes.names()[n - 1]]@),
                wildcard,
            )
        }
    }

    /// Whether a router is the one for the routes of this configuration.
    pub open spec fn builds(self, router: RouterView<BuiltinEffect>) -> bool {
        &&& effect_values(router.exact) == self.routed(self.routes.names().len() as int, false)
        &&& effect_values(router.patterns) == self.routed(self.routes.names().len() as int, true)
        &&& match router.default_handler {
            Some(effect) => !router.handles(ANY_EVENT@) && (*effect)@ == (BuiltinView::Log {
                prefix: "unhandled"@,
            }),
            None => router.handles(ANY_EVENT@),
        }
        &&& !router.fail_fast
        &&& router.is_valid()
    }

    /// The patterns of the first `n` routes are among their names.
    proof fn lemma_routed_names(self, n: int, wildcard: bool)
        requires
            0 <= n <= self.routes.names().len(),
        ensures
            forall|i: int|
                0 <= i < self.routed(n, wildcard).len() ==> exists|k: int|
                    0 <= k < n && self.routes.names()[k] == (#[trigger] self.routed(
                        n,
                        wildcard,
                    )[i]).0,
        decreases n,
    {
        if n > 0 {
            self.lemma_routed_names(n - 1, wildcard);
            let before = self.routed(n - 1, wildcard);
            let after = self.routed(n, wildcard);
            assert forall|i: int| 0 <= i < after.len() implies exists|k: int|
                0 <= k < n && self.routes.names()[k] == (#[trigger] after[i]).0 by {
                if i < before.len() {
                    assert(after[i] == before[i]);
                    let k = choose|k: int|
                        0 <= k < n - 1 && self.routes.names()[k] == before[i].0;
                    assert(self.routes.names()[k] == after[i].0);
                } else {
                    assert(self.routes.names()[n - 1] == after[i].0);
                }
            }
        }
    }

    /// A router for the routes of the configuration.
    ///
    /// Every reference of a route that resolves becomes an effect of the route's
    /// pattern; the others are left out. Unless some route takes any event, events
    /// that nothing matches are logged with the prefix `unhandled`.
    pub fn build_router(&self) -> (r: Router<BuiltinEffect>)
        ensures
            self.builds(r@),
    {
        let mut router: Router<BuiltinEffect> = Router::new();
        let total: usize = self.routes.len();
        assert(effect_values(router@.exact) =~= Seq::empty());
        assert(effect_values(router@.patterns) =~= Seq::empty());
        let mut i: usize = 0;
        while i < total
            invariant
                total == self.routes.names().len(),
                self.routes.names().no_duplicates(),
                i <= total,
                effect_values(router@.exact) == self.routed(i as int, false),
                effect_values(router@.patterns) == self.routed(i as int, true),
                router@.default_handler is None,
                !router@.fail_fast,
                router@.is_valid(),
            decreases total - i,
        {
            let pattern = self.routes.name_at(i);
            let references = self.routes.value_at(i);
            let ghost wildcard = is_wildcard(pattern@);
            proof {
                assert(references@.take(0) =~= Seq::<String>::empty());
                self.lemma_routed_names(i as int, true);
                self.lemma_routed_names(i as int, false);
            }
            let mut k: usize = 0;
            while k < references.len()
                invariant
                    total == self.routes.names().len(),
                    self.routes.names().no_duplicates(),
                    i < total,
                    pattern@ == self.routes.names()[i as int],
                    *references == self.routes@[self.routes.names()[i as int]],
                    wildcard == is_wildcard(pattern@),
                    k <= references@.len(),
                    forall|j: int|
                        0 <= j < self.routed(i as int, true).len() ==> exists|m: int|
                            0 <= m < i && self.routes.names()[m] == (#[trigger] self.routed(
                                i as int,
                                true,
                            )[j]).0,
                    forall|j: int|
                        0 <= j < self.routed(i as int, false).len() ==> exists|m: int|
                            0 <= m < i && self.routes.names()[m] == (#[trigger] self.routed(
                                i as int,
                                false,
                            )[j]).0,
                    effect_values(router@.exact) == extended(
                        self.routed(i as int, false),
                        pattern@,
                        self.effects.all_resolved(references@.take(k as int)),
                        false,
                    ),
                    effect_values(router@.patterns) == extended(
                        self.routed(i as int, true),
                        pattern@,
                        self.effects.all_resolved(references@.take(k as int)),
                        true,
                    ),
                    router@.default_handler is None,
                    !router@.fail_fast,
                    router@.is_valid(),
                decreases references@.len() - k,
            {
                let ghost before = router@;
                let ghost resolved = self.effects.all_resolved(references@.take(k as int));
                let ghost list = self.routed(i as int, wildcard);
                let ghost entries = if wildcard {
                    before.patterns
                } else {
                    before.exact
                };
                proof {
                    assert(references@.take(k + 1).drop_last() =~= references@.take(k as int));
                    assert(references@.take(k + 1).last() == references@[k as int]);
                    assert(effect_values(entries) == extended(list, pattern@, resolved, wildcard));
                    assert(effect_values(entries).len() == entries.len());
                    assert forall|j: int| 0 <= j < entries.len() - 1 implies (
                    #[trigger] entries[j]).0 != pattern@ by {
                        assert(effect_values(entries)[j].0 == entries[j].0);
                        assert(j < list.len());
                        assert(list[j] == effect_values(entries)[j]);
                        let m = choose|m: int| 0 <= m < i && self.routes.names()[m] == list[j].0;
                        assert(self.routes.names()[m] != self.routes.names()[i as int]);
                    }
                    if list.len() > 0 {
                        let j = list.len() - 1;
                        let m = choose|m: int| 0 <= m < i && self.routes.names()[m] == list[j].0;
                        assert(self.routes.names()[m] != self.routes.names()[i as int]);
                    }
                }
                match self.effects.resolve(references[k].as_str()) {
                    Some(effect) => {
                        let effect = Arc::new(effect);
                        router.on(pattern, effect);
                        proof {
                            let after = if wildcard {
                                router@.patterns
                            } else {
                                router@.exact
                            };
                            lemma_with_effect(entries, after, pattern@, effect);
                            let more = resolved.push((*effect)@);
                            assert(self.effects.all_resolved(references@.take(k + 1)) == more);
                            if resolved.len() > 0 {
                                assert(extended(list, pattern@, resolved, wildcard).drop_last()
                                    =~= list);
                            } else {
                                assert(more =~= seq![(*effect)@]);
                            }
                            assert(effect_values(after) =~= extended(list, pattern@, more, wildcard));
                        }
                    },
                    None => {},
                }
                k = k + 1;
            }
            assert(references@.take(references@.len() as int) =~= references@);
            i = i + 1;
        }
        if !router.has_handlers(ANY_EVENT) {
            router.set_default(Arc::new(BuiltinEffect::Log(LogEffect::with_prefix("unhandled"))));
        }
        router
    }
}

/// Where the configuration file is: where the environment says, or in its usual
/// place.
pub fn config_path(from_environment: Option<&str>) -> (r: String)
    ensures
        r@ == match from_environment {
            Some(path) => path@,
            None => "config/synapse.toml"@,
        },
{
    match from_environment {
        Some(path) => path.to_string(),
        None => "config/synapse.toml".to_string(),
    }
}

impl SynapseConfig {
    /// Whether the settings of every webhook are acceptable.
    pub open spec fn is_acceptable(self) -> bool {
        forall|name: Seq<char>| #[trigger]
            self.effects.webhook@.contains_key(name) ==> webhook_problem(
                name,
                self.effects.webhook@[name],
            ) is None
    }

    /// Whether the first problem, in the order of the webhooks, is `problem`.
    pub open spec fn has_first_problem(self, problem: Seq<char>) -> bool {
        exists|i: int|
            #![trigger self.effects.webhook.names()[i]]
            {
                let names = self.effects.webhook.names();
                &&& 0 <= i < names.len()
                &&& webhook_problem(names[i], self.effects.webhook@[names[i]]) == Some(problem)
                &&& forall|k: int|
                    0 <= k < i ==> webhook_problem(
                        #[trigger] names[k],
                        self.effects.webhook@[names[k]],
                    ) is None
            }
    }

    /// Checks the settings of the webhooks: a URL must be there and be one of HTTP,
    /// and the format must be `json` or `discord`.
    pub fn validate(&self) -> (r: Result<(), ConfigError>)
        ensures
            r is Ok <==> self.is_acceptable(),
            r matches Err(error) ==> (error matches ConfigError::ValidationError(detail)
                && self.has_first_problem(detail@)),
    {
        let webhooks = &self.effects.webhook;
        let ghost names = webhooks.names();
        let total: usize = webhooks.len();
        let mut i: usize = 0;
        while i < total
            invariant
                *webhooks == self.effects.webhook,
                names == webhooks.names(),
                total == names.len(),
                i <= total,
                forall|name: Seq<char>| #[trigger]
                    webhooks@.contains_key(name) <==> names.contains(name),
                forall|k: int|
                    0 <= k < i ==> webhook_problem(#[trigger] names[k], webhooks@[names[k]]) is None,
            decreases total - i,
        {
            if let Some(problem) = check_webhook(webhooks.name_at(i), webhooks.value_at(i)) {
                assert(self.effects.webhook.names()[i as int] == names[i as int]);
                assert(self.has_first_problem(problem@));
                assert(webhooks@.contains_key(names[i as int]));
                return Err(ConfigError::ValidationError(problem));
            }
            i = i + 1;
        }
        assert forall|name: Seq<char>| #[trigger]
            self.effects.webhook@.contains_key(name) implies webhook_problem(
            name,
            self.effects.webhook@[name],
        ) is None by {
            assert(names.contains(name));
            let k = choose|k: int| 0 <= k < names.len() && names[k] == name;
            assert(webhook_problem(names[k], webhooks@[names[k]]) is None);
        }
        Ok(())
    }

    /// Whether a reference names an effect that has settings, or the log effect
    /// that needs none.
    pub open spec fn refers_to_effect(self, reference: Seq<char>) -> bool {
        match effect_ref(reference) {
            EffectRef::PlainLog => true,
            EffectRef::Log(name) => self.effects.log@.contains_key(name),
            EffectRef::Webhook(name) => self.effects.webhook@.contains_key(name),
            EffectRef::Unknown => false,
        }
    }

    /// Whether a reference names an effect that is configured.
    pub fn effect_exists(&self, reference: &str) -> (r: bool)
        ensures
            r == self.refers_to_effect(reference@),
    {
        match split_once(reference, ':') {
            Some((kind, name)) => {
                if same_text(kind.as_str(), "log") {
                    self.effects.log.contains_key(name.as_str())
                } else if same_text(kind.as_str(), "webhook") {
                    self.effects.webhook.contains_key(name.as_str())
                } else {
                    false
                }
            },
            None => same_text(reference, "log"),
        }
    }

    /// The references of the first `n` routes, and the first `m` of the next one,
    /// that name no configured effect, each with its pattern.
    pub open spec fn undefined(self, n: int, m: int) -> Seq<(Seq<char>, Seq<char>)>
        decreases n, m,
    {
        if m > 0 {
            let pattern = self.routes.names()[n];
            let reference = self.routes@[pattern]@[m - 1]@;
            if self.refers_to_effect(reference) {
                self.undefined(n, m - 1)
            } else {
                self.undefined(n, m - 1).push((pattern, reference))
            }
        } else if n > 0 {
            self.undefined(n - 1, self.routes@[self.routes.names()[n - 1]]@.len() as int)
        } else {
            Seq::empty()
        }
    }

    /// The references of routes that name no configured effect, each with its
    /// pattern. They do not make a configuration unacceptable.
    pub fn undefined_references(&self) -> (r: Vec<(String, String)>)
        ensures
            r@.map_values(|p: (String, String)| (p.0@, p.1@)) == self.undefined(
                self.routes.names().len() as int,
                0,
            ),
    {
        let mut out: Vec<(String, String)> = Vec::new();
        let total: usize = self.routes.len();
        assert(out@.map_values(|p: (String, String)| (p.0@, p.1@)) =~= self.undefined(0, 0));
        let mut i: usize = 0;
        while i < total
            invariant
                total == self.routes.names().len(),
                i <= total,
                out@.map_values(|p: (String, String)| (p.0@, p.1@)) == self.undefined(i as int, 0),
            decreases total - i,
        {
            let pattern = self.routes.name_at(i);
            let references = self.routes.value_at(i);
            let mut k: usize = 0;
            while k < references.len()
                invariant
                    total == self.routes.names().len(),
                    i < total,
                    pattern@ == self.routes.names()[i as int],
                    *references == self.routes@[self.routes.names()[i as int]],
                    k <= references@.len(),
                    out@.map_values(|p: (String, String)| (p.0@, p.1@)) == self.undefined(
                        i as int,
                        k as int,
                    ),
                decreases references@.len() - k,
            {
                if !self.effect_exists(references[k].as_str()) {
                    let ghost before = out@;
                    out.push((pattern.to_string(), references[k].clone()));
                    assert(out@.map_values(|p: (String, String)| (p.0@, p.1@))
                        =~= before.map_values(|p: (String, String)| (p.0@, p.1@)).push(
                        (pattern@, references@[k as int]@),
                    ));
                }
                k = k + 1;
            }
            assert(self.undefined(i + 1, 0) == self.undefined(i as int, references@.len() as int));
            i = i + 1;
        }
        out
    }

    /// The patterns of all routes, each once.
    pub fn route_patterns(&self) -> (r: Vec<&str>)
        ensures
            r@.len() == self.routes.names().len(),
            forall|i: int| 0 <= i < r@.len() ==> (#[trigger] r@[i])@ == self.routes.names()[i],
            self.routes.names().no_duplicates(),
            forall|name: Seq<char>| #[trigger]
                self.routes@.contains_key(name) <==> self.routes.names().contains(name),
    {
        let mut out: Vec<&str> = Vec::new();
        let total: usize = self.routes.len();
        let mut i: usize = 0;
        while i < total
            invariant
                total == self.routes.names().len(),
                i <= total,
                out@.len() == i,
                forall|k: int| 0 <= k < i ==> (#[trigger] out@[k])@ == self.routes.names()[k],
            decreases total - i,
        {
            out.push(self.routes.name_at(i));
            i = i + 1;
        }
        out
    }
}

/// No event goes unnoticed: a router that was built for a configuration has an
/// effect for every event type. Left out are configurations with a route for the
/// very event type that is used to ask whether any is handled.
pub proof fn lemma_no_event_goes_unnoticed(
    config: SynapseConfig,
    router: RouterView<BuiltinEffect>,
    event_type: Seq<char>,
)
    requires
        config.builds(router),
        !has_pattern(router.exact, ANY_EVENT@),
    ensures
        router.triggered(event_type).len() > 0,
{
    lemma_handlers_iff_handled(router, event_type);
    if router.default_handler is None {
        reveal_strlit("__any_random_event__");
        let i = choose|i: int|
            0 <= i < router.patterns.len() && pattern_matches(
                ANY_EVENT@,
                (#[trigger] router.patterns[i]).0,
            );
        let pattern = router.patterns[i].0;
        assert(is_wildcard(pattern));
        assert(!is_wildcard(ANY_EVENT@));
        if is_prefix_pattern(pattern) && has_prefix(ANY_EVENT@, pattern.drop_last()) {
            let at = pattern.len() - 2;
            assert(pattern.drop_last()[at] == '.');
            assert(ANY_EVENT@.subrange(0, pattern.len() - 1)[at] == ANY_EVENT@[at]);
        }
        assert(pattern == "*"@);
        assert(pattern_matches(event_type, router.patterns[i].0));
        assert(router.handles(event_type));
    }
}

/// A reference that resolves names a configured effect.
pub proof fn lemma_resolved_reference_is_defined(config: SynapseConfig, reference: Seq<char>)
    requires
        config.effects.resolved(reference) is Some,
    ensures
        config.refers_to_effect(reference),
{
}

/// A webhook that a reference of an acceptable configuration resolves to posts
/// over HTTP, to a URL in which no placeholder is left open.
pub proof fn lemma_resolved_webhooks_post_over_http(config: SynapseConfig, reference: Seq<char>)
    requires
        config.is_acceptable(),
    ensures
        config.effects.resolved(reference) matches Some(
            BuiltinView::Webhook { url, .. },
        ) ==> (has_prefix(url, "http://"@) || has_prefix(url, "https://"@)) && !contains_text(
            url,
            "${"@,
        ),
{
    if let EffectRef::Webhook(name) = effect_ref(reference) {
        if config.effects.webhook@.contains_key(name) {
            assert(webhook_problem(name, config.effects.webhook@[name]) is None);
        }
    }
}

} // verus!
