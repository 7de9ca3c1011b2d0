//! The effect that posts events to the WASDFX activity feed.
//!
//! An event becomes an activity: a type and an icon that go by the event type, a
//! title and a text for readers, the server that it belongs to, and metadata by
//! which it can be traced back.

use crate::duration::duration_nanos;
use crate::effects::http::{
    is_success, is_success_code, status_line, status_text, HttpRequest,
};
use crate::effects::{Effect, EffectError, EffectResult};
use crate::event::{text_option, Event, EventView};
use crate::json::{compact_text, number_of, parsed_json, pretty_text, Json, JsonView};
use crate::text::{chars_of, same_text};
use std::time::Duration;
use vstd::prelude::*;

verus! {

/// The activity type of an event type.
pub open spec fn activity_type(event_type: Seq<char>) -> Seq<char> {
    if event_type == "game.achievement"@ || event_type == "player.achievement"@ {
        "ACHIEVEMENT_UNLOCKED"@
    } else if event_type == "player.joined"@ {
        "PLAYER_JOINED"@
    } else if event_type == "player.left"@ {
        "PLAYER_LEFT"@
    } else if event_type == "game.milestone"@ {
        "MILESTONE_REACHED"@
    } else {
        "SERVER_ANNOUNCEMENT"@
    }
}

/// The icon of an event type.
pub open spec fn icon_type(event_type: Seq<char>) -> Seq<char> {
    if event_type == "game.achievement"@ || event_type == "player.achievement"@ || event_type
        == "game.milestone"@ {
        "achievement"@
    } else if event_type == "player.joined"@ {
        "success"@
    } else if event_type == "system.alert"@ {
        "warning"@
    } else {
        "info"@
    }
}

/// Whether an event type tells of an achievement.
pub open spec fn is_achievement_type(event_type: Seq<char>) -> bool {
    event_type == "game.achievement"@ || event_type == "player.achievement"@
}

fn is_achievement(event_type: &str) -> (r: bool)
    ensures
        r == is_achievement_type(event_type@),
{
    same_text(event_type, "game.achievement") || same_text(event_type, "player.achievement")
}

/// The activity type of an event type.
pub fn map_activity_type(event_type: &str) -> (r: &'static str)
    ensures
        r@ == activity_type(event_type@),
{
    if is_achievement(event_type) {
        "ACHIEVEMENT_UNLOCKED"
    } else if same_text(event_type, "player.joined") {
        "PLAYER_JOINED"
    } else if same_text(event_type, "player.left") {
        "PLAYER_LEFT"
    } else if same_text(event_type, "game.milestone") {
        "MILESTONE_REACHED"
    } else {
        "SERVER_ANNOUNCEMENT"
    }
}

/// The icon of an event type.
pub fn map_icon_type(event_type: &str) -> (r: &'static str)
    ensures
        r@ == icon_type(event_type@),
{
    if is_achievement(event_type) || same_text(event_type, "game.milestone") {
        "achievement"
    } else if same_text(event_type, "player.joined") {
        "success"
    } else if same_text(event_type, "system.alert") {
        "warning"
    } else {
        "info"
    }
}

/// The characters that `char::to_uppercase` yields.
pub uninterp spec fn uppercase_of(c: char) -> Seq<char>;

/// `char::to_uppercase`. ASCII letters become ASCII capitals, and other ASCII
/// characters stay as they are.
#[verifier::external_body]
fn uppercase(c: char) -> (r: Vec<char>)
    ensures
        r@ == uppercase_of(c),
        'a' <= c <= 'z' ==> r@ == seq![((c as u32) - 32) as char],
        (c as u32) < 128 && !('a' <= c <= 'z') ==> r@ == seq![c],
{
    c.to_uppercase().collect()
}

/// The capital of a character: known of ASCII, named beyond it.
pub open spec fn capital_of(c: char) -> Seq<char> {
    if 'a' <= c <= 'z' {
        seq![((c as u32) - 32) as char]
    } else if (c as u32) < 128 {
        seq![c]
    } else {
        uppercase_of(c)
    }
}

/// What the character at position `i` of an event type becomes in a title: a
/// dot becomes a space, and the first character of each part a capital.
pub open spec fn title_piece(s: Seq<char>, i: int) -> Seq<char> {
    if s[i] == '.' {
        seq![' ']
    } else if i == 0 || s[i - 1] == '.' {
        capital_of(s[i])
    } else {
        seq![s[i]]
    }
}

/// The first `n` characters of an event type as a title.
pub open spec fn title_prefix(s: Seq<char>, n: int) -> Seq<char>
    decreases n,
{
    if n <= 0 {
        Seq::empty()
    } else {
        title_prefix(s, n - 1) + title_piece(s, n - 1)
    }
}

/// An event type in title case: `game.start` becomes `Game Start`.
pub open spec fn title_case(s: Seq<char>) -> Seq<char> {
    title_prefix(s, s.len() as int)
}

/// An event type in title case: `game.start` becomes `Game Start`.
fn titled(event_type: &str) -> (r: String)
    ensures
        r@ == title_case(event_type@),
{
    let chars = chars_of(event_type);
    let mut out = String::new();
    let mut i: usize = 0;
    while i < chars.len()
        invariant
            chars@ == event_type@,
            i <= chars@.len(),
            out@ == title_prefix(event_type@, i as int),
        decreases chars@.len() - i,
    {
        let c = chars[i];
        if c == '.' {
            out.push(' ');
        } else if i == 0 || chars[i - 1] == '.' {
            let upper = uppercase(c);
            let ghost before = out@;
            let mut k: usize = 0;
            while k < upper.len()
                invariant
                    k <= upper@.len(),
                    out@ == before + upper@.take(k as int),
                decreases upper@.len() - k,
            {
                out.push(upper[k]);
                assert(upper@.take(k + 1) =~= upper@.take(k as int).push(upper@[k as int]));
                k = k + 1;
            }
            assert(upper@.take(upper@.len() as int) =~= upper@);
        } else {
            out.push(c);
        }
        assert(out@ =~= title_prefix(event_type@, i as int) + title_piece(event_type@, i as int));
        i = i + 1;
    }
    out
}

/// A text, or what stands for it where it is missing.
pub open spec fn or_else(s: Option<Seq<char>>, fallback: Seq<char>) -> Seq<char> {
    match s {
        Some(t) => t,
        None => fallback,
    }
}

/// The text of a member of a payload, or what stands for it where it is missing.
fn member_or<'a>(payload: &'a Json, key: &str, fallback: &'a str) -> (r: &'a str)
    ensures
        r@ == or_else(payload@.text_at(key@), fallback@),
{
    match payload.text_at(key) {
        Some(s) => s,
        None => fallback,
    }
}

/// The title of an activity.
pub open spec fn title_of(event_type: Seq<char>, payload: JsonView) -> Seq<char> {
    let player = payload.text_at("player"@);
    if is_achievement_type(event_type) {
        or_else(player, "Someone"@) + " unlocked an achievement!"@
    } else if event_type == "player.joined"@ {
        or_else(player, "A player"@) + " joined the server"@
    } else if event_type == "player.left"@ {
        or_else(player, "A player"@) + " left the server"@
    } else {
        title_case(event_type)
    }
}

/// The title of an activity.
pub fn format_title(event_type: &str, payload: &Json) -> (r: String)
    ensures
        r@ == title_of(event_type@, payload@),
{
    if is_achievement(event_type) {
        member_or(payload, "player", "Someone").to_string().concat(" unlocked an achievement!")
    } else if same_text(event_type, "player.joined") {
        member_or(payload, "player", "A player").to_string().concat(" joined the server")
    } else if same_text(event_type, "player.left") {
        member_or(payload, "player", "A player").to_string().concat(" left the server")
    } else {
        titled(event_type)
    }
}

/// The text of an activity, where `written` is the payload written out.
pub open spec fn content_with(
    event_type: Seq<char>,
    payload: JsonView,
    written: Seq<char>,
) -> Seq<char> {
    let player = payload.text_at("player"@);
    if is_achievement_type(event_type) {
        "**"@ + or_else(player, "Someone"@) + "** unlocked **"@ + or_else(
            payload.text_at("achievement"@),
            "an achievement"@,
        ) + "**!"@
    } else if event_type == "player.joined"@ {
        "**"@ + or_else(player, "A player"@) + "** has joined **"@ + or_else(
            payload.text_at("server"@),
            "the server"@,
        ) + "**"@
    } else if event_type == "player.left"@ {
        "**"@ + or_else(player, "A player"@) + "** has left the server"@
    } else {
        or_else(payload.text_at("message"@), written)
    }
}

/// The text of an activity, where `written` is the payload written out.
pub fn content_from(event_type: &str, payload: &Json, written: &str) -> (r: String)
    ensures
        r@ == content_with(event_type@, payload@, written@),
{
    if is_achievement(event_type) {
        "**".to_string().concat(member_or(payload, "player", "Someone")).concat(
            "** unlocked **",
        ).concat(member_or(payload, "achievement", "an achievement")).concat("**!")
    } else if same_text(event_type, "player.joined") {
        "**".to_string().concat(member_or(payload, "player", "A player")).concat(
            "** has joined **",
        ).concat(member_or(payload, "server", "the server")).concat("**")
    } else if same_text(event_type, "player.left") {
        "**".to_string().concat(member_or(payload, "player", "A player")).concat(
            "** has left the server",
        )
    } else {
        member_or(payload, "message", written).to_string()
    }
}

/// The text of an activity: for event types without a text of their own the
/// message of the payload or, without one, the payload itself.
pub fn format_content(event_type: &str, payload: &Json) -> (r: String)
    ensures
        r@ == content_with(event_type@, payload@, pretty_text(payload@)),
{
    content_from(event_type, payload, payload.to_pretty().as_str())
}

/// The server that an event belongs to: the one that its payload names, as
/// `serverSlug` or else as `server_slug`, or the configured one.
pub open spec fn slug_of(payload: JsonView, configured: Option<Seq<char>>) -> JsonView {
    let named = match payload.get("serverSlug"@) {
        Some(v) => Some(v),
        None => payload.get("server_slug"@),
    };
    match named {
        Some(JsonView::Text(s)) => JsonView::Text(s),
        _ => JsonView::optional_text(configured),
    }
}

/// The metadata of an activity.
pub open spec fn metadata_of(event: EventView) -> JsonView {
    JsonView::object().with("synapse_source"@, JsonView::Text(event.source)).with(
        "synapse_event_type"@,
        JsonView::Text(event.event_type),
    ).with("synapse_correlation_id"@, JsonView::optional_text(event.correlation_id)).with(
        "original_payload"@,
        event.payload,
    )
}

/// The activity of an event, with a given text.
pub open spec fn activity_of(
    event: EventView,
    content: Seq<char>,
    configured_slug: Option<Seq<char>>,
) -> JsonView {
    JsonView::object().with("type"@, JsonView::Text(activity_type(event.event_type))).with(
        "title"@,
        JsonView::Text(title_of(event.event_type, event.payload)),
    ).with("content"@, JsonView::Text(content)).with(
        "iconType"@,
        JsonView::Text(icon_type(event.event_type)),
    ).with("serverSlug"@, slug_of(event.payload, configured_slug)).with(
        "category"@,
        JsonView::Text("game"@),
    ).with("priority"@, JsonView::Number(number_of(0))).with("metadata"@, metadata_of(event))
}

/// Posts events to the WASDFX activity feed.
#[derive(Debug)]
pub struct WasdfxEffect {
    /// Where activities are posted.
    pub url: String,
    /// Key that authenticates the requests.
    pub api_key: String,
    /// Server that events belong to unless they say otherwise.
    pub server_slug: Option<String>,
    /// How long to wait for a response.
    pub timeout: Duration,
}

impl WasdfxEffect {
    /// An effect that posts to a URL, without a key or a server, and waits ten
    /// seconds.
    pub fn new(url: &str) -> (r: Self)
        ensures
            r.url@ == url@,
            r.api_key@ == ""@,
            r.server_slug is None,
            duration_nanos(r.timeout) == 10_000_000_000,
    {
        WasdfxEffect {
            url: url.to_string(),
            api_key: "".to_string(),
            server_slug: None,
            timeout: Duration::from_secs(10),
        }
    }

    /// Sets the key that authenticates the requests.
    pub fn with_api_key(self, api_key: &str) -> (r: Self)
        ensures
            r.api_key@ == api_key@,
            r == (WasdfxEffect { api_key: r.api_key, ..self }),
    {
        WasdfxEffect { api_key: api_key.to_string(), ..self }
    }

    /// Sets the server that events belong to unless they say otherwise.
    pub fn with_server_slug(self, server_slug: &str) -> (r: Self)
        ensures
            text_option(r.server_slug) == Some(server_slug@),
            r == (WasdfxEffect { server_slug: r.server_slug, ..self }),
    {
        WasdfxEffect { server_slug: Some(server_slug.to_string()), ..self }
    }

    /// Sets how long to wait for a response.
    pub fn with_timeout(self, timeout: Duration) -> (r: Self)
        ensures
            r == (WasdfxEffect { timeout, ..self }),
    {
        WasdfxEffect { timeout, ..self }
    }

    /// The activity of an event.
    pub open spec fn activity(self, event: EventView) -> JsonView {
        activity_of(
            event,
            content_with(event.event_type, event.payload, pretty_text(event.payload)),
            text_option(self.server_slug),
        )
    }

    /// The activity of an event, with a given text.
    pub fn activity_with(&self, event: &Event, content: &str) -> (r: Json)
        ensures
            r@ == activity_of(event@, content@, text_option(self.server_slug)),
    {
        let named = match event.payload.get("serverSlug") {
            Some(v) => Some(v),
            None => event.payload.get("server_slug"),
        };
        let slug = match named {
            Some(Json::Text(s)) => Json::Text(s.clone()),
            _ => Json::optional_text(&self.server_slug),
        };
        assert(slug@ == slug_of(event.payload@, text_option(self.server_slug)));
        let metadata = Json::object().with("synapse_source", Json::text(event.source.as_str())).with(
            "synapse_event_type",
            Json::text(event.event_type.as_str()),
        ).with("synapse_correlation_id", Json::optional_text(&event.correlation_id)).with(
            "original_payload",
            event.payload.clone(),
        );
        let title = format_title(event.event_type.as_str(), &event.payload);
        Json::object().with("type", Json::text(map_activity_type(event.event_type.as_str()))).with(
            "title",
            Json::text(title.as_str()),
        ).with("content", Json::text(content)).with(
            "iconType",
            Json::text(map_icon_type(event.event_type.as_str())),
        ).with("serverSlug", slug).with("category", Json::text("game")).with(
            "priority",
            Json::integer(0),
        ).with("metadata", metadata)
    }

    /// The activity of an event.
    pub fn transform_event(&self, event: &Event) -> (r: Json)
        ensures
            r@ == self.activity(event@),
    {
        let content = format_content(event.event_type.as_str(), &event.payload);
        self.activity_with(event, content.as_str())
    }

    /// The request that posts an event.
    pub fn request(&self, event: &Event) -> (r: HttpRequest)
        ensures
            r.url@ == self.url@,
            r.timeout == self.timeout,
            r.body@ == compact_text(self.activity(event@)),
            r.headers@.len() == 2,
            r.headers@[0].0@ == "Content-Type"@,
            r.headers@[0].1@ == "application/json"@,
            r.headers@[1].0@ == "X-API-Key"@,
            r.headers@[1].1@ == self.api_key@,
    {
        let mut headers: Vec<(String, String)> = Vec::new();
        headers.push(("Content-Type".to_string(), "application/json".to_string()));
        headers.push(("X-API-Key".to_string(), self.api_key.clone()));
        HttpRequest {
            url: self.url.clone(),
            headers,
            body: self.transform_event(event).to_compact(),
            timeout: self.timeout,
        }
    }

    /// Whether `r` is what a response comes to. `line` is the status for a reader,
    /// `response` the body read as JSON.
    pub open spec fn is_outcome(
        self,
        status: u16,
        line: Seq<char>,
        body: Seq<char>,
        response: Option<JsonView>,
        r: Result<EffectResult, EffectError>,
    ) -> bool {
        match r {
            Ok(result) => {
                &&& is_success_code(status)
                &&& result.effect_name@ == "wasdfx"@
                &&& result.message@ == "Posted to WASDFX ("@ + line + ")"@
                &&& result.metadata matches Some(metadata) && metadata@ == JsonView::object().with(
                    "url"@,
                    JsonView::Text(self.url@),
                ).with("status"@, JsonView::Number(number_of(status as u64))).with(
                    "response"@,
                    match response {
                        Some(json) => json,
                        None => JsonView::object(),
                    },
                )
            },
            Err(error) => {
                &&& !is_success_code(status)
                &&& error matches EffectError::Failed(detail) && detail@
                    == "WASDFX returned status "@ + line + ": "@ + body
            },
        }
    }

    /// What a response comes to. `line` is the status for a reader, `response`
    /// the body read as JSON.
    pub fn outcome(
        &self,
        status: u16,
        line: &str,
        body: &str,
        response: Option<Json>,
    ) -> (r: Result<EffectResult, EffectError>)
        ensures
            self.is_outcome(
                status,
                line@,
                body@,
                match response {
                    Some(json) => Some(json@),
                    None => None,
                },
                r,
            ),
    {
        if is_success(status) {
            let response = match response {
                Some(json) => json,
                None => Json::object(),
            };
            let metadata = Json::object().with("url", Json::text(self.url.as_str())).with(
                "status",
                Json::integer(status as u64),
            ).with("response", response);
            let message = "Posted to WASDFX (".to_string().concat(line).concat(")");
            Ok(EffectResult::with_metadata(self.name(), message.as_str(), metadata))
        } else {
            Err(
                EffectError::Failed(
                    "WASDFX returned status ".to_string().concat(line).concat(": ").concat(body),
                ),
            )
        }
    }

    /// What a response comes to: a status in the two hundreds is a success that
    /// carries the body read as JSON (an empty object where it is none), any
    /// other a failure that carries the body as it came.
    pub fn complete(&self, status: u16, body: &str) -> (r: Result<EffectResult, EffectError>)
        ensures
            self.is_outcome(status, status_line(status), body@, parsed_json(body@), r),
    {
        let line = status_text(status);
        self.outcome(status, line.as_str(), body, Json::parse(body))
    }

    /// What a request comes to. The reply is the status and the body of the response
    /// or, where there was none, the reason.
    pub fn conclude(&self, reply: Result<(u16, String), String>) -> (r: Result<
        EffectResult,
        EffectError,
    >)
        ensures
            match reply {
                Ok(response) => self.is_outcome(
                    response.0,
                    status_line(response.0),
                    response.1@,
                    parsed_json(response.1@),
                    r,
                ),
                Err(detail) => r matches Err(EffectError::Http(e)) && e == detail,
            },
    {
        match reply {
            Ok((status, body)) => self.complete(status, body.as_str()),
            Err(detail) => Err(EffectError::Http(detail)),
        }
    }
}

impl Clone for WasdfxEffect {
    /// The clone has the same settings.
    fn clone(&self) -> (r: Self)
        ensures
            r == *self,
    {
        WasdfxEffect {
            url: self.url.clone(),
            api_key: self.api_key.clone(),
            server_slug: self.server_slug.clone(),
            timeout: self.timeout,
        }
    }
}

impl Effect for WasdfxEffect {
    open spec fn effect_name(&self) -> Seq<char> {
        "wasdfx"@
    }

    fn name(&self) -> (r: &str) {
        "wasdfx"
    }
}

/// The member names of an activity and of its metadata differ from one another.
pub(crate) proof fn lemma_member_names_differ()
    ensures
        "type"@ != "title"@,
        "type"@ != "content"@,
        "type"@ != "iconType"@,
        "type"@ != "serverSlug"@,
        "type"@ != "category"@,
        "type"@ != "priority"@,
        "type"@ != "metadata"@,
        "iconType"@ != "serverSlug"@,
        "iconType"@ != "category"@,
        "iconType"@ != "priority"@,
        "iconType"@ != "metadata"@,
        "content"@ != "iconType"@,
        "content"@ != "serverSlug"@,
        "content"@ != "category"@,
        "content"@ != "priority"@,
        "content"@ != "metadata"@,
        "category"@ != "priority"@,
        "category"@ != "metadata"@,
        "priority"@ != "metadata"@,
        "title"@ != "content"@,
        "title"@ != "iconType"@,
        "title"@ != "serverSlug"@,
        "title"@ != "category"@,
        "title"@ != "priority"@,
        "title"@ != "metadata"@,
        "serverSlug"@ != "category"@,
        "serverSlug"@ != "priority"@,
        "serverSlug"@ != "metadata"@,
        "synapse_source"@ != "synapse_event_type"@,
        "synapse_source"@ != "synapse_correlation_id"@,
        "synapse_source"@ != "original_payload"@,
        "synapse_event_type"@ != "synapse_correlation_id"@,
        "synapse_event_type"@ != "original_payload"@,
        "synapse_correlation_id"@ != "original_payload"@,
{
    reveal_strlit("type");
    reveal_strlit("title");
    reveal_strlit("content");
    reveal_strlit("iconType");
    reveal_strlit("serverSlug");
    reveal_strlit("category");
    reveal_strlit("priority");
    reveal_strlit("metadata");
    reveal_strlit("synapse_source");
    reveal_strlit("synapse_event_type");
    reveal_strlit("synapse_correlation_id");
    reveal_strlit("original_payload");
    assert("type"@.len() == 4);
    assert("title"@.len() == 5);
    assert("content"@.len() == 7);
    assert("iconType"@.len() == 8);
    assert("serverSlug"@.len() == 10);
    assert("category"@.len() == 8);
    assert("priority"@.len() == 8);
    assert("metadata"@.len() == 8);
    assert("synapse_source"@.len() == 14);
    assert("synapse_event_type"@.len() == 18);
    assert("synapse_correlation_id"@.len() == 22);
    assert("original_payload"@.len() == 16);
    assert("type"@[0] == 't');
    assert("title"@[0] == 't');
    assert("content"@[0] == 'c');
    assert("iconType"@[0] == 'i');
    assert("serverSlug"@[0] == 's');
    assert("category"@[0] == 'c');
    assert("priority"@[0] == 'p');
    assert("metadata"@[0] == 'm');
}

/// Every activity can be traced back to its event: its metadata hold the source,
/// the type, the correlation id and the payload as they came.
pub proof fn lemma_activity_is_traceable(effect: WasdfxEffect, event: EventView)
    ensures
        effect.activity(event).get("metadata"@) matches Some(metadata) && metadata.get(
            "synapse_source"@,
        ) == Some(JsonView::Text(event.source)) && metadata.get("synapse_event_type"@) == Some(
            JsonView::Text(event.event_type),
        ) && metadata.get("synapse_correlation_id"@) == Some(
            JsonView::optional_text(event.correlation_id),
        ) && metadata.get("original_payload"@) == Some(event.payload),
{
    lemma_member_names_differ();
}

/// The type and the icon of an activity go by the event type alone.
pub proof fn lemma_activity_type_goes_by_event_type(effect: WasdfxEffect, event: EventView)
    ensures
        effect.activity(event).text_at("type"@) == Some(activity_type(event.event_type)),
        effect.activity(event).text_at("iconType"@) == Some(icon_type(event.event_type)),
        effect.activity(event).text_at("title"@) == Some(
            title_of(event.event_type, event.payload),
        ),
{
    lemma_member_names_differ();
}

/// A payload that names a server overrides the configured one, whatever that is:
/// `serverSlug` first, then `server_slug`.
pub proof fn lemma_payload_overrides_server(
    effect: WasdfxEffect,
    event: EventView,
    slug: Seq<char>,
)
    requires
        event.payload.text_at("serverSlug"@) == Some(slug) || (event.payload.get("serverSlug"@)
            is None && event.payload.text_at("server_slug"@) == Some(slug)),
    ensures
        effect.activity(event).text_at("serverSlug"@) == Some(slug),
{
    lemma_member_names_differ();
}

/// The configured server stands where the payload names none.
pub proof fn lemma_configured_server_is_the_fallback(effect: WasdfxEffect, event: EventView)
    requires
        event.payload.get("serverSlug"@) is None,
        event.payload.get("server_slug"@) is None,
    ensures
        effect.activity(event).get("serverSlug"@) == Some(
            JsonView::optional_text(text_option(effect.server_slug)),
        ),
{
    lemma_member_names_differ();
}

} // verus!
