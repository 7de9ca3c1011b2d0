use std::sync::Arc;
use std::time::Duration;
use synapse::effects::http::{is_client_error, is_server_error, is_success, json_body};
use synapse::effects::wasdfx::{
    content_from, format_content, format_title, map_activity_type, map_icon_type,
};
use synapse::effects::webhook::{NextStep, Progress, Reply};
use synapse::effects::{
    BuiltinEffect, Effect, EffectError, EffectRegistry, EffectResult, LogEffect, WasdfxEffect,
    WebhookEffect,
};
use synapse::event::Event;
use synapse::json::Json;

fn texts(members: &[(&str, &str)]) -> Json {
    let mut json = Json::object();
    for (key, value) in members {
        json = json.with(key, Json::text(value));
    }
    json
}

// Log

#[test]
fn test_log_effect() {
    let effect = LogEffect::new();
    let event = Event::new(
        "test",
        "user.created",
        Json::object().with("user_id", Json::integer(123)),
    );

    let result = effect.execute(&event).unwrap();
    assert_eq!(result.effect_name, "log");
    assert!(result.message.contains("test"));
    assert!(result.message.contains("user.created"));
}

#[test]
fn test_log_effect_with_prefix() {
    let effect = LogEffect::with_prefix("audit");
    let event = Event::new("admin", "user.deleted", Json::object());

    let result = effect.execute(&event).unwrap();
    assert!(result.message.contains("audit"));
}

#[test]
fn log_lines_and_reports() {
    let event = Event::new("admin", "user.deleted", Json::object());
    let effect = LogEffect::default();
    assert_eq!(effect.log_line(&event), "[event] Processed: admin/user.deleted");
    let result = effect.clone().execute(&event).unwrap();
    assert_eq!(
        result.message,
        "Logged event admin/user.deleted with prefix 'event'"
    );
    assert!(result.metadata.is_none());
}

// Registry, results and errors

struct TestEffect;

impl Effect for TestEffect {
    fn name(&self) -> &str {
        "test"
    }
}

#[test]
fn test_registry() {
    let mut registry = EffectRegistry::new();
    registry.register(Arc::new(TestEffect));

    assert!(registry.get("test").is_some());
    assert!(registry.get("nonexistent").is_none());
    assert_eq!(registry.list(), vec!["test"]);
}

#[test]
fn registering_a_name_again_replaces_its_effect() {
    let mut registry = EffectRegistry::default();
    registry.register(Arc::new(BuiltinEffect::Log(LogEffect::with_prefix("one"))));
    registry.register(Arc::new(BuiltinEffect::Webhook(WebhookEffect::new("http://a"))));
    registry.register(Arc::new(BuiltinEffect::Log(LogEffect::with_prefix("two"))));
    assert_eq!(registry.list(), vec!["log", "webhook"]);
    match &*registry.get("log").unwrap() {
        BuiltinEffect::Log(log) => assert_eq!(log.prefix, "two"),
        _ => unreachable!(),
    }
}

#[test]
fn test_effect_result() {
    let result = EffectResult::success("test", "Done");
    assert_eq!(result.effect_name, "test");
    assert_eq!(result.message, "Done");
    assert!(result.metadata.is_none());

    let result_with_meta = EffectResult::with_metadata(
        "test",
        "Done",
        Json::object().with("count", Json::integer(42)),
    );
    assert!(result_with_meta.metadata.is_some());
}

#[test]
fn effect_errors_tell_what_went_wrong() {
    assert_eq!(
        EffectError::Timeout(1500).message(),
        "effect timed out after 1500ms"
    );
    assert_eq!(
        EffectError::Http("refused".to_string()).message(),
        "HTTP error: refused"
    );
    assert_eq!(
        EffectError::Serialization("eof".to_string()).message(),
        "serialization error: eof"
    );
    assert_eq!(
        EffectError::Failed("broken".to_string()).message(),
        "effect failed: broken"
    );
}

#[test]
fn builtin_effects_have_names() {
    assert_eq!(BuiltinEffect::Log(LogEffect::new()).name(), "log");
    assert_eq!(BuiltinEffect::Webhook(WebhookEffect::new("u")).name(), "webhook");
    assert_eq!(BuiltinEffect::Wasdfx(WasdfxEffect::new("u")).name(), "wasdfx");
}

#[test]
fn statuses_fall_into_classes() {
    assert!(is_success(200) && is_success(299) && !is_success(300) && !is_success(199));
    assert!(is_client_error(400) && is_client_error(499) && !is_client_error(500));
    assert!(is_server_error(500) && is_server_error(599) && !is_server_error(600));
}

#[test]
fn bodies_that_are_no_text_hold_no_json() {
    assert_eq!(json_body("ä".as_bytes().to_vec()), "ä");
    assert_eq!(json_body(vec![0x22, 0xff, 0x22]), "");
    assert_eq!(json_body(Vec::new()), "");
}

// WASDFX

#[test]
fn test_map_activity_type() {
    assert_eq!(map_activity_type("game.achievement"), "ACHIEVEMENT_UNLOCKED");
    assert_eq!(map_activity_type("player.joined"), "PLAYER_JOINED");
    assert_eq!(map_activity_type("player.left"), "PLAYER_LEFT");
    assert_eq!(map_activity_type("system.alert"), "SERVER_ANNOUNCEMENT");
    assert_eq!(map_activity_type("unknown.event"), "SERVER_ANNOUNCEMENT");
}

#[test]
fn test_map_icon_type() {
    assert_eq!(map_icon_type("game.achievement"), "achievement");
    assert_eq!(map_icon_type("player.joined"), "success");
    assert_eq!(map_icon_type("player.left"), "info");
    assert_eq!(map_icon_type("system.alert"), "warning");
}

#[test]
fn every_row_of_the_mapping() {
    let rows = vec![
        ("game.achievement", "ACHIEVEMENT_UNLOCKED", "achievement"),
        ("player.achievement", "ACHIEVEMENT_UNLOCKED", "achievement"),
        ("player.joined", "PLAYER_JOINED", "success"),
        ("player.left", "PLAYER_LEFT", "info"),
        ("game.milestone", "MILESTONE_REACHED", "achievement"),
        ("system.alert", "SERVER_ANNOUNCEMENT", "warning"),
        ("system.announcement", "SERVER_ANNOUNCEMENT", "info"),
        ("game.start", "SERVER_ANNOUNCEMENT", "info"),
        ("", "SERVER_ANNOUNCEMENT", "info"),
    ];
    for (event_type, activity, icon) in rows {
        assert_eq!(map_activity_type(event_type), activity);
        assert_eq!(map_icon_type(event_type), icon);
    }
}

#[test]
fn test_format_title() {
    let payload = texts(&[("player", "Steve"), ("achievement", "Diamonds")]);
    assert_eq!(
        format_title("game.achievement", &payload),
        "Steve unlocked an achievement!"
    );

    let payload = texts(&[("player", "Alex")]);
    assert_eq!(format_title("player.joined", &payload), "Alex joined the server");
}

#[test]
fn titles_without_a_player_and_in_title_case() {
    let empty = Json::object();
    assert_eq!(
        format_title("player.achievement", &empty),
        "Someone unlocked an achievement!"
    );
    assert_eq!(format_title("player.joined", &empty), "A player joined the server");
    assert_eq!(format_title("player.left", &empty), "A player left the server");
    assert_eq!(format_title("game.start", &empty), "Game Start");
    assert_eq!(format_title("system.alert", &empty), "System Alert");
    assert_eq!(format_title("system.announcement", &empty), "System Announcement");
    assert_eq!(format_title("a..b.", &empty), "A  B ");
    assert_eq!(format_title("éa.ßb", &empty), "Éa SSb");
    assert_eq!(format_title("", &empty), "");
}

#[test]
fn test_format_content() {
    let payload = texts(&[("player", "Steve"), ("achievement", "Diamonds")]);
    assert_eq!(
        format_content("game.achievement", &payload),
        "**Steve** unlocked **Diamonds**!"
    );
}

#[test]
fn contents_of_other_events() {
    let empty = Json::object();
    assert_eq!(
        format_content("game.achievement", &empty),
        "**Someone** unlocked **an achievement**!"
    );
    let joined = texts(&[("player", "Alex"), ("server", "haumcraft")]);
    assert_eq!(
        format_content("player.joined", &joined),
        "**Alex** has joined **haumcraft**"
    );
    assert_eq!(
        format_content("player.joined", &empty),
        "**A player** has joined **the server**"
    );
    assert_eq!(
        format_content("player.left", &joined),
        "**Alex** has left the server"
    );
    let message = texts(&[("message", "maintenance")]);
    assert_eq!(format_content("system.alert", &message), "maintenance");
    let other = Json::object().with("level", Json::integer(3));
    assert_eq!(format_content("system.alert", &other), "{\n  \"level\": 3\n}");
    assert_eq!(content_from("system.alert", &other, "as text"), "as text");
}

#[test]
fn test_transform_event() {
    let effect = WasdfxEffect::new("http://localhost:4000/api/v1/events/emit")
        .with_api_key("test-key")
        .with_server_slug("haumcraft-season-vi");

    let event = Event::new(
        "minecraft",
        "game.achievement",
        texts(&[("player", "Steve"), ("achievement", "Diamonds")]),
    );

    let result = effect.transform_event(&event);

    assert_eq!(result.text_at("type"), Some("ACHIEVEMENT_UNLOCKED"));
    assert_eq!(result.text_at("iconType"), Some("achievement"));
    assert_eq!(result.text_at("serverSlug"), Some("haumcraft-season-vi"));
    assert!(result.text_at("title").unwrap().contains("Steve"));
}

#[test]
fn test_transform_event_with_payload_server_slug() {
    let effect = WasdfxEffect::new("http://localhost:4000/api/v1/events/emit")
        .with_api_key("test-key")
        .with_server_slug("default-server");

    let event = Event::new(
        "valheim",
        "player.joined",
        texts(&[("player", "Viking"), ("serverSlug", "valhalla-server")]),
    );

    let result = effect.transform_event(&event);
    assert_eq!(result.text_at("serverSlug"), Some("valhalla-server"));
}

#[test]
fn test_transform_event_with_snake_case_server_slug() {
    let effect = WasdfxEffect::new("http://localhost:4000/api/v1/events/emit")
        .with_api_key("test-key")
        .with_server_slug("default-server");

    let event = Event::new(
        "satisfactory",
        "player.joined",
        texts(&[("player", "Engineer"), ("server_slug", "ficsit-factory")]),
    );

    let result = effect.transform_event(&event);
    assert_eq!(result.text_at("serverSlug"), Some("ficsit-factory"));
}

#[test]
fn activities_in_full() {
    let effect = WasdfxEffect::new("http://localhost:4000/api/v1/events/emit");
    let mut event = Event::new("minecraft", "player.left", texts(&[("player", "Steve")]));
    event.correlation_id = Some("abc".to_string());
    assert_eq!(
        effect.transform_event(&event).to_compact(),
        "{\"category\":\"game\",\"content\":\"**Steve** has left the server\",\
         \"iconType\":\"info\",\"metadata\":{\"original_payload\":{\"player\":\"Steve\"},\
         \"synapse_correlation_id\":\"abc\",\"synapse_event_type\":\"player.left\",\
         \"synapse_source\":\"minecraft\"},\"priority\":0,\"serverSlug\":null,\
         \"title\":\"Steve left the server\",\"type\":\"PLAYER_LEFT\"}"
    );
}

#[test]
fn server_slug_that_is_no_text_is_passed_over() {
    let effect = WasdfxEffect::new("u").with_server_slug("configured");
    let payload = Json::object()
        .with("serverSlug", Json::integer(1))
        .with("server_slug", Json::text("other"));
    let event = Event::new("s", "t", payload);
    assert_eq!(
        effect.transform_event(&event).text_at("serverSlug"),
        Some("configured")
    );
}

#[test]
fn wasdfx_requests() {
    let effect = WasdfxEffect::new("http://host/emit")
        .with_api_key("key")
        .with_timeout(Duration::from_secs(3));
    let event = Event::new("s", "player.left", Json::object());
    let request = effect.request(&event);
    assert_eq!(request.url, "http://host/emit");
    assert_eq!(request.timeout, Duration::from_secs(3));
    assert_eq!(
        request.headers,
        vec![
            ("Content-Type".to_string(), "application/json".to_string()),
            ("X-API-Key".to_string(), "key".to_string()),
        ]
    );
    assert_eq!(request.body, effect.transform_event(&event).to_compact());
    assert_eq!(WasdfxEffect::new("u").timeout, Duration::from_secs(10));
}

#[test]
fn wasdfx_responses() {
    let effect = WasdfxEffect::new("http://host/emit");
    let result = effect.complete(201, "{\"success\":true}").unwrap();
    assert_eq!(result.effect_name, "wasdfx");
    assert_eq!(result.message, "Posted to WASDFX (201 Created)");
    assert_eq!(
        result.metadata.unwrap().to_compact(),
        "{\"response\":{\"success\":true},\"status\":201,\"url\":\"http://host/emit\"}"
    );

    let result = effect.complete(200, "no json").unwrap();
    assert_eq!(
        result.metadata.unwrap().to_compact(),
        "{\"response\":{},\"status\":200,\"url\":\"http://host/emit\"}"
    );

    let error = effect.complete(401, "bad key").unwrap_err();
    assert_eq!(
        error.message(),
        "effect failed: WASDFX returned status 401 Unauthorized: bad key"
    );
    assert!(effect.outcome(500, "line", "body", None).is_err());
}

#[test]
fn wasdfx_requests_come_to_a_conclusion() {
    let effect = WasdfxEffect::new("http://host/emit");
    let result = effect.conclude(Ok((201, "{}".to_string()))).unwrap();
    assert_eq!(result.message, "Posted to WASDFX (201 Created)");
    match effect.conclude(Err("refused".to_string())) {
        Err(EffectError::Http(detail)) => assert_eq!(detail, "refused"),
        _ => unreachable!(),
    }
    assert_eq!(
        effect.conclude(Ok((500, "down".to_string()))).unwrap_err().message(),
        "effect failed: WASDFX returned status 500 Internal Server Error: down"
    );
}

// Webhook

#[test]
fn test_webhook_builder() {
    let effect = WebhookEffect::new("https://example.com/webhook")
        .with_timeout(Duration::from_secs(10))
        .with_retries(3);

    assert_eq!(effect.url, "https://example.com/webhook");
    assert_eq!(effect.timeout, Duration::from_secs(10));
    assert_eq!(effect.retries, 3);
}

#[test]
fn webhook_defaults() {
    let effect = WebhookEffect::new("https://example.com/webhook");
    assert_eq!(effect.timeout, Duration::from_secs(30));
    assert_eq!(effect.retries, 1);
    assert!(!effect.discord_format);
    assert!(effect.with_discord_format().discord_format);
}

#[test]
fn webhook_requests() {
    let effect = WebhookEffect::new("https://example.com/webhook");
    let event = Event::new("minecraft", "player.left", texts(&[("player", "Steve")]));
    let request = effect.request(&event);
    assert_eq!(request.url, "https://example.com/webhook");
    assert_eq!(request.timeout, Duration::from_secs(30));
    assert_eq!(
        request.body,
        "{\"eventType\":\"player.left\",\"payload\":{\"player\":\"Steve\"},\"source\":\"minecraft\"}"
    );
}

#[test]
fn server_errors_are_retried_until_the_retries_are_used_up() {
    let effect = WebhookEffect::new("u").with_retries(2);
    let mut attempts = effect.first_attempt();
    let mut sent = 0;
    let error = loop {
        sent += 1;
        match effect.after_reply(attempts, Reply::Status(503)) {
            NextStep::Retry(next) => attempts = next,
            NextStep::GiveUp(error) => break error,
            NextStep::Settled(_) => unreachable!(),
        }
    };
    assert_eq!(sent, 3);
    assert_eq!(
        error.message(),
        "effect failed: Server error: 503 Service Unavailable"
    );
}

#[test]
fn client_errors_and_successes_settle_a_delivery() {
    let effect = WebhookEffect::new("u");
    for status in [200, 204, 400, 404, 429] {
        match effect.after_reply(effect.first_attempt(), Reply::Status(status)) {
            NextStep::Settled(code) => assert_eq!(code, status),
            _ => unreachable!(),
        }
    }
}

#[test]
fn missing_responses_are_retried() {
    let effect = WebhookEffect::new("u").with_retries(1);
    let reply = || Reply::Error("refused".to_string());
    let attempts = match effect.after_reply(effect.first_attempt(), reply()) {
        NextStep::Retry(next) => next,
        _ => unreachable!(),
    };
    assert_eq!(attempts.made, 1);
    match effect.after_reply(attempts, reply()) {
        NextStep::GiveUp(error) => assert_eq!(error.message(), "HTTP error: refused"),
        _ => unreachable!(),
    }
}

#[test]
fn redirects_are_given_up_on_without_a_reason() {
    let effect = WebhookEffect::new("u").with_retries(0);
    match effect.next_step(effect.first_attempt(), Reply::Status(302), "302 Found") {
        NextStep::GiveUp(error) => assert_eq!(error.message(), "effect failed: Unknown error"),
        _ => unreachable!(),
    }
}

#[test]
fn webhook_outcomes() {
    let effect = WebhookEffect::new("https://example.com/webhook");
    let result = effect.complete(204).unwrap();
    assert_eq!(
        result.message,
        "Webhook delivered to https://example.com/webhook (204 No Content)"
    );
    assert_eq!(
        result.metadata.unwrap().to_compact(),
        "{\"status\":204,\"url\":\"https://example.com/webhook\"}"
    );
    assert_eq!(
        effect.complete(404).unwrap_err().message(),
        "effect failed: Webhook returned status 404 Not Found"
    );
    assert!(effect.outcome(200, "fine").unwrap().message.ends_with("(fine)"));
}

fn delivered(effect: &WebhookEffect, replies: Vec<Reply>) -> Result<EffectResult, EffectError> {
    let mut attempts = effect.first_attempt();
    for reply in replies {
        match effect.conclude(effect.after_reply(attempts, reply)) {
            Progress::Again(next) => attempts = next,
            Progress::Done(result) => return result,
        }
    }
    unreachable!()
}

#[test]
fn deliveries_return_what_the_attempts_came_to() {
    let effect = WebhookEffect::new("u").with_retries(1);
    let error = || Reply::Error("refused".to_string());
    let message = |replies| delivered(&effect, replies).unwrap_err().message();

    let result = delivered(&effect, vec![Reply::Status(500), Reply::Status(200)]).unwrap();
    assert_eq!(result.message, "Webhook delivered to u (200 OK)");
    assert_eq!(
        message(vec![error(), Reply::Status(403)]),
        "effect failed: Webhook returned status 403 Forbidden"
    );
    assert_eq!(message(vec![Reply::Status(500), error()]), "HTTP error: refused");
    assert_eq!(message(vec![error(), Reply::Status(302)]), "HTTP error: refused");
    assert_eq!(
        message(vec![error(), Reply::Status(502)]),
        "effect failed: Server error: 502 Bad Gateway"
    );
    assert_eq!(
        message(vec![Reply::Status(302), Reply::Status(304)]),
        "effect failed: Unknown error"
    );
}
