use std::time::Duration;
use synapse::config::{
    config_path, default_format, default_log_prefix, default_retries, default_timeout_ms,
    substitute_env_vars, ConfigError, LogEffectConfig, SynapseConfig, WebhookEffectConfig,
};
use synapse::effects::BuiltinEffect;
use synapse::event::Event;
use synapse::json::Json;
use synapse::table::Table;

fn variables(entries: &[(&str, &str)]) -> Table<String> {
    let mut vars = Table::new();
    for (name, value) in entries {
        vars.insert(name, value.to_string());
    }
    vars
}

fn webhook(url: &str, format: &str) -> WebhookEffectConfig {
    WebhookEffectConfig {
        url: url.to_string(),
        timeout_ms: default_timeout_ms(),
        retries: default_retries(),
        format: format.to_string(),
    }
}

fn references(names: &[&str]) -> Vec<String> {
    names.iter().map(|name| name.to_string()).collect()
}

// Placeholders

#[test]
fn test_env_var_substitution() {
    let vars = variables(&[("TEST_VAR", "substituted_value")]);
    let content = "url = \"${TEST_VAR}\"";
    let result = substitute_env_vars(content, &vars);
    assert_eq!(result, "url = \"substituted_value\"");
}

#[test]
fn test_env_var_not_set() {
    let content = "url = \"${NONEXISTENT_VAR}\"";
    let result = substitute_env_vars(content, &Table::new());
    assert_eq!(result, "url = \"${NONEXISTENT_VAR}\"");
}

#[test]
fn placeholders_of_every_shape() {
    let vars = variables(&[("A", "1"), ("_b2", "two"), ("C", "${A}"), ("E", "")]);
    assert_eq!(substitute_env_vars("${A}${_b2}-${A}", &vars), "1two-1");
    assert_eq!(substitute_env_vars("${C}", &vars), "${A}");
    assert_eq!(substitute_env_vars("x${E}y", &vars), "xy");
    assert_eq!(substitute_env_vars("${X}${A}", &vars), "${X}1");
    assert_eq!(substitute_env_vars("${2A} $A {A} ${A", &vars), "${2A} $A {A} ${A");
    assert_eq!(substitute_env_vars("${${A}}", &vars), "${1}");
    assert_eq!(substitute_env_vars("é${A}ß", &vars), "é1ß");
    assert_eq!(substitute_env_vars("", &vars), "");
}

// Defaults

#[test]
fn test_default_config() {
    let config = SynapseConfig::default();
    assert_eq!(config.server.port, 3000);
    assert_eq!(config.redis.url, "redis://localhost:6379");
    assert_eq!(config.worker.consumer_group, "synapse_workers");
}

#[test]
fn defaults_of_effects() {
    assert_eq!(default_log_prefix(), "synapse");
    assert_eq!(default_timeout_ms(), 10000);
    assert_eq!(default_retries(), 2);
    assert_eq!(default_format(), "json");
    assert_eq!(config_path(None), "config/synapse.toml");
    assert_eq!(config_path(Some("other.toml")), "other.toml");
}

// Validation

#[test]
fn test_validation_invalid_url() {
    let mut config = SynapseConfig::default();
    config.effects.webhook.insert("bad", webhook("not-a-url", &default_format()));
    let result = config.validate();
    assert!(result.is_err());
}

#[test]
fn test_validation_invalid_format() {
    let mut config = SynapseConfig::default();
    config.effects.webhook.insert("bad", webhook("https://example.com", "invalid"));
    let result = config.validate();
    assert!(result.is_err());
}

fn problem(config: &SynapseConfig) -> String {
    match config.validate() {
        Ok(()) => "none".to_string(),
        Err(error) => error.message(),
    }
}

#[test]
fn problems_are_told() {
    let mut config = SynapseConfig::default();
    assert_eq!(problem(&config), "none");
    config.effects.webhook.insert("ok", webhook("https://example.com", "discord"));
    config.effects.webhook.insert("open", webhook("http://${HOST}", "json"));
    assert_eq!(problem(&config), "none");

    let mut empty = config.clone();
    empty.effects.webhook.insert("w", webhook("", "json"));
    assert_eq!(problem(&empty), "Validation error: Webhook 'w' has empty URL");

    let mut ftp = config.clone();
    ftp.effects.webhook.insert("w", webhook("ftp://example.com", "xml"));
    assert_eq!(
        problem(&ftp),
        "Validation error: Webhook 'w' URL must start with http:// or https://"
    );

    config.effects.webhook.insert("w", webhook("http://example.com", "xml"));
    assert_eq!(
        problem(&config),
        "Validation error: Webhook 'w' format must be 'json' or 'discord'"
    );
}

#[test]
fn config_errors_tell_what_went_wrong() {
    let detail = || "x".to_string();
    assert_eq!(
        ConfigError::ReadError(detail()).message(),
        "Failed to read config file: x"
    );
    assert_eq!(ConfigError::ParseError(detail()).message(), "Failed to parse TOML: x");
    assert_eq!(ConfigError::ValidationError(detail()).message(), "Validation error: x");
    assert_eq!(ConfigError::MissingField(detail()).message(), "Missing required field: x");
}

// Routes

fn routed_config() -> SynapseConfig {
    let mut config = SynapseConfig::default();
    config.effects.log.insert("game", LogEffectConfig { prefix: "game".to_string() });
    config.effects.webhook.insert("discord", webhook("https://discord.com/api", "discord"));
    config.effects.webhook.insert("open", webhook("https://${HOST}", "json"));
    config.routes.insert("user.created", references(&["log", "log:missing", "mail:x", "mail"]));
    config.routes.insert(
        "game.*",
        references(&["log:game", "webhook:discord", "webhook:open", "webhook:none"]),
    );
    config
}

#[test]
fn references_to_effects() {
    let config = routed_config();
    assert!(config.effect_exists("log"));
    assert!(config.effect_exists("log:game"));
    assert!(config.effect_exists("webhook:discord"));
    assert!(config.effect_exists("webhook:open"));
    assert!(!config.effect_exists("log:"));
    assert!(!config.effect_exists("log:missing"));
    assert!(!config.effect_exists("webhook:game"));
    assert!(!config.effect_exists("mail:x"));
    assert!(!config.effect_exists("webhook"));
    assert!(!config.effect_exists(""));
    assert_eq!(config.route_patterns(), vec!["user.created", "game.*"]);
    let undefined = config.undefined_references();
    let undefined: Vec<(&str, &str)> =
        undefined.iter().map(|(p, r)| (p.as_str(), r.as_str())).collect();
    assert_eq!(
        undefined,
        vec![
            ("user.created", "log:missing"),
            ("user.created", "mail:x"),
            ("user.created", "mail"),
            ("game.*", "webhook:none"),
        ]
    );
}

fn triggered(config: &SynapseConfig, event_type: &str) -> Vec<String> {
    let router = config.build_router();
    let event = Event::new("test", event_type, Json::object());
    let mut dispatch = router.dispatch(&event);
    let mut out = Vec::new();
    while let Some(effect) = dispatch.next_effect() {
        out.push(match &*effect {
            BuiltinEffect::Log(log) => log.prefix.clone(),
            BuiltinEffect::Webhook(webhook) => {
                assert_eq!(webhook.timeout, Duration::from_millis(10000));
                assert_eq!(webhook.retries, 2);
                format!("{} {}", webhook.url, webhook.discord_format)
            }
            BuiltinEffect::Wasdfx(_) => unreachable!(),
        });
        dispatch = match dispatch.record(Ok(synapse::EffectResult::success("test", "done"))) {
            Ok(next) => next,
            Err(_) => unreachable!(),
        };
    }
    out
}

#[test]
fn routers_are_built_from_routes() {
    let config = routed_config();
    assert_eq!(config.build_router().handler_count(), 2);
    assert_eq!(triggered(&config, "user.created"), vec!["event"]);
    assert_eq!(
        triggered(&config, "game.started"),
        vec!["game", "https://discord.com/api true"]
    );
    assert_eq!(triggered(&config, "other"), vec!["unhandled"]);
}

#[test]
fn catch_all_routes_leave_no_default() {
    let mut config = routed_config();
    config.routes.insert("*", references(&["log:game"]));
    assert_eq!(triggered(&config, "other"), vec!["game"]);
    config.routes.insert("*", references(&["log:missing"]));
    assert_eq!(triggered(&config, "other"), vec!["unhandled"]);
}
