//! Effects: the actions that events trigger.
//!
//! - [`LogEffect`] records an event in the log.
//! - [`WebhookEffect`] posts an event to a URL.
//! - [`WasdfxEffect`] posts an event to the WASDFX activity feed.

pub mod http;
pub mod log;
pub mod wasdfx;
pub mod webhook;

use crate::duration::duration_nanos;
use crate::event::text_option;
use crate::json::Json;
use crate::table::Table;
use crate::text::{decimal, decimal_text};
use std::sync::Arc;
use vstd::prelude::*;

pub use self::log::LogEffect;
pub use self::wasdfx::WasdfxEffect;
pub use self::webhook::WebhookEffect;

verus! {

/// Something that can be done in response to an event.
pub trait Effect {
    /// The name of the effect. An implementation that is not itself verified can
    /// leave it open: of its names it is then known only that equal effects of one
    /// type have equal ones.
    open spec fn effect_name(&self) -> Seq<char> {
        vstd::pervasive::arbitrary::<spec_fn(&Self) -> Seq<char>>()(self)
    }

    /// The unique name of this effect (such as `log` or `webhook`).
    fn name(&self) -> (r: &str)
        ensures
            r@ == self.effect_name(),
    ;
}

/// Why an effect failed.
#[derive(Debug)]
pub enum EffectError {
    /// The effect took longer than so many milliseconds.
    Timeout(u64),
    /// The HTTP request failed.
    Http(String),
    /// Data could not be written as or read from its text form.
    Serialization(String),
    /// The effect failed for another reason.
    Failed(String),
}

impl EffectError {
    /// The text that tells a reader what went wrong.
    pub open spec fn text(self) -> Seq<char> {
        match self {
            EffectError::Timeout(ms) => "effect timed out after "@ + decimal(ms as nat) + "ms"@,
            EffectError::Http(detail) => "HTTP error: "@ + detail@,
            EffectError::Serialization(detail) => "serialization error: "@ + detail@,
            EffectError::Failed(detail) => "effect failed: "@ + detail@,
        }
    }

    /// Tells a reader what went wrong.
    pub fn message(&self) -> (r: String)
        ensures
            r@ == self.text(),
    {
        match self {
            EffectError::Timeout(ms) => "effect timed out after ".to_string().concat(
                decimal_text(*ms).as_str(),
            ).concat("ms"),
            EffectError::Http(detail) => "HTTP error: ".to_string().concat(detail.as_str()),
            EffectError::Serialization(detail) => "serialization error: ".to_string().concat(
                detail.as_str(),
            ),
            EffectError::Failed(detail) => "effect failed: ".to_string().concat(detail.as_str()),
        }
    }
}

/// What an effect that succeeded reports.
#[derive(Debug)]
pub struct EffectResult {
    /// Name of the effect.
    pub effect_name: String,
    /// What happened, for a reader.
    pub message: String,
    /// Further data, where there is any.
    pub metadata: Option<Json>,
}

impl EffectResult {
    /// A success that carries a message.
    pub fn success(effect_name: &str, message: &str) -> (r: Self)
        ensures
            r.effect_name@ == effect_name@,
            r.message@ == message@,
            r.metadata is None,
    {
        EffectResult {
            effect_name: effect_name.to_string(),
            message: message.to_string(),
            metadata: None,
        }
    }

    /// A success that carries a message and data.
    pub fn with_metadata(effect_name: &str, message: &str, metadata: Json) -> (r: Self)
        ensures
            r.effect_name@ == effect_name@,
            r.message@ == message@,
            r.metadata == Some(metadata),
    {
        EffectResult {
            effect_name: effect_name.to_string(),
            message: message.to_string(),
            metadata: Some(metadata),
        }
    }
}

impl Clone for EffectResult {
    /// The clone reports the same.
    fn clone(&self) -> (r: Self)
        ensures
            r.effect_name@ == self.effect_name@,
            r.message@ == self.message@,
            match self.metadata {
                Some(json) => r.metadata matches Some(copy) && copy@ == json@,
                None => r.metadata is None,
            },
    {
        EffectResult {
            effect_name: self.effect_name.clone(),
            message: self.message.clone(),
            metadata: match &self.metadata {
                Some(json) => Some(json.clone()),
                None => None,
            },
        }
    }
}

/// Effects by name.
pub struct EffectRegistry<E: ?Sized> {
    effects: Table<Arc<E>>,
}

impl<E: ?Sized + Effect> View for EffectRegistry<E> {
    type V = Map<Seq<char>, Arc<E>>;

    closed spec fn view(&self) -> Map<Seq<char>, Arc<E>> {
        self.effects@
    }
}

impl<E: ?Sized + Effect> EffectRegistry<E> {
    /// The registered names, in the order in which they first came.
    pub closed spec fn names(&self) -> Seq<Seq<char>> {
        self.effects.names()
    }

    /// An empty registry.
    pub fn new() -> (r: Self)
        ensures
            r@ == Map::<Seq<char>, Arc<E>>::empty(),
            r.names() == Seq::<Seq<char>>::empty(),
    {
        EffectRegistry { effects: Table::new() }
    }

    /// Registers an effect under its name, in place of the one that had it.
    pub fn register(&mut self, effect: Arc<E>)
        ensures
            final(self)@ == old(self)@.insert(effect.effect_name(), effect),
            final(self).names() == if old(self).names().contains(effect.effect_name()) {
                old(self).names()
            } else {
                old(self).names().push(effect.effect_name())
            },
    {
        let name = effect.name().to_string();
        self.effects.insert(name.as_str(), effect);
    }

    /// The effect of a name.
    pub fn get(&self, name: &str) -> (r: Option<Arc<E>>)
        ensures
            match r {
                Some(effect) => self@.contains_key(name@) && effect == self@[name@],
                None => !self@.contains_key(name@),
            },
    {
        match self.effects.get(name) {
            Some(effect) => Some(effect.clone()),
            None => None,
        }
    }

    /// All registered names, each once.
    pub fn list(&self) -> (r: Vec<&str>)
        ensures
            r@.len() == self.names().len(),
            forall|i: int| 0 <= i < r@.len() ==> (#[trigger] r@[i])@ == self.names()[i],
            self.names().no_duplicates(),
            forall|name: Seq<char>| #[trigger]
                self@.contains_key(name) <==> self.names().contains(name),
    {
        let mut out: Vec<&str> = Vec::new();
        let total: usize = self.effects.len();
        let mut i: usize = 0;
        while i < total
            invariant
                i <= total,
                total == self.names().len(),
                out@.len() == i,
                forall|k: int| 0 <= k < i ==> (#[trigger] out@[k])@ == self.names()[k],
            decreases total - i,
        {
            out.push(self.effects.name_at(i));
            i = i + 1;
        }
        out
    }
}

impl<E: ?Sized + Effect> Default for EffectRegistry<E> {
    /// An empty registry.
    fn default() -> (r: Self)
        ensures
            r@ == Map::<Seq<char>, Arc<E>>::empty(),
            r.names() == Seq::<Seq<char>>::empty(),
    {
        Self::new()
    }
}

/// A registered effect is found under its name, and what stands under other names
/// is as it was.
pub proof fn lemma_registered_effect_is_found<E: ?Sized + Effect>(
    before: Map<Seq<char>, Arc<E>>,
    effect: Arc<E>,
    other: Seq<char>,
)
    ensures
        ({
            let after = before.insert(effect.effect_name(), effect);
            &&& after.contains_key(effect.effect_name())
            &&& after[effect.effect_name()] == effect
            &&& other != effect.effect_name() ==> {
                &&& after.contains_key(other) == before.contains_key(other)
                &&& before.contains_key(other) ==> after[other] == before[other]
            }
        }),
{
}

/// An effect that comes with the engine.
#[derive(Debug)]
pub enum BuiltinEffect {
    Log(LogEffect),
    Webhook(WebhookEffect),
    Wasdfx(WasdfxEffect),
}

/// The value of a built-in effect: its settings.
#[verifier::ext_equal]
pub enum BuiltinView {
    Log { prefix: Seq<char> },
    Webhook { url: Seq<char>, timeout_nanos: nat, retries: u32, discord_format: bool },
    Wasdfx {
        url: Seq<char>,
        api_key: Seq<char>,
        server_slug: Option<Seq<char>>,
        timeout_nanos: nat,
    },
}

impl View for BuiltinEffect {
    type V = BuiltinView;

    open spec fn view(&self) -> BuiltinView {
        match self {
            BuiltinEffect::Log(effect) => BuiltinView::Log { prefix: effect.prefix@ },
            BuiltinEffect::Webhook(effect) => BuiltinView::Webhook {
                url: effect.url@,
                timeout_nanos: duration_nanos(effect.timeout),
                retries: effect.retries,
                discord_format: effect.discord_format,
            },
            BuiltinEffect::Wasdfx(effect) => BuiltinView::Wasdfx {
                url: effect.url@,
                api_key: effect.api_key@,
                server_slug: text_option(effect.server_slug),
                timeout_nanos: duration_nanos(effect.timeout),
            },
        }
    }
}

impl Effect for BuiltinEffect {
    open spec fn effect_name(&self) -> Seq<char> {
        match self {
            BuiltinEffect::Log(effect) => effect.effect_name(),
            BuiltinEffect::Webhook(effect) => effect.effect_name(),
            BuiltinEffect::Wasdfx(effect) => effect.effect_name(),
        }
    }

    fn name(&self) -> (r: &str) {
        match self {
            BuiltinEffect::Log(effect) => effect.name(),
            BuiltinEffect::Webhook(effect) => effect.name(),
            BuiltinEffect::Wasdfx(effect) => effect.name(),
        }
    }
}

} // verus!
