use std::sync::Arc;
use synapse::effects::{Effect, EffectError, EffectResult, LogEffect};
use synapse::event::Event;
use synapse::json::Json;
use synapse::router::{is_wildcard_pattern, matches_pattern, DispatchResult, Router, RouterError};

fn test_event(event_type: &str) -> Event {
    Event::new("test", event_type, Json::object().with("test", Json::Bool(true)))
}

fn run(router: &Router<LogEffect>, event: &Event) -> DispatchResult {
    let mut dispatch = router.dispatch(event);
    while let Some(effect) = dispatch.next_effect() {
        let outcome = effect.execute(event);
        dispatch = match dispatch.record(outcome) {
            Ok(next) => next,
            Err(error) => panic!("{}", error.message()),
        };
    }
    dispatch.finish()
}

// Pattern matching

#[test]
fn test_matches_pattern_exact() {
    assert!(matches_pattern("user.created", "user.created"));
    assert!(!matches_pattern("user.updated", "user.created"));
}

#[test]
fn test_matches_pattern_wildcard() {
    assert!(matches_pattern("game.started", "game.*"));
    assert!(matches_pattern("game.ended", "game.*"));
    assert!(matches_pattern("game.achievement", "game.*"));
    assert!(!matches_pattern("user.created", "game.*"));
    assert!(!matches_pattern("games.list", "game.*"));
}

#[test]
fn test_matches_pattern_catch_all() {
    assert!(matches_pattern("anything", "*"));
    assert!(matches_pattern("user.created", "*"));
    assert!(matches_pattern("game.achievement", "*"));
    assert!(matches_pattern("", "*"));
}

#[test]
fn test_is_wildcard_pattern() {
    assert!(is_wildcard_pattern("game.*"));
    assert!(is_wildcard_pattern("*"));
    assert!(!is_wildcard_pattern("user.created"));
    assert!(!is_wildcard_pattern("exact.match"));
}

#[test]
fn prefix_pattern_needs_the_dot() {
    assert!(!matches_pattern("game", "game.*"));
    assert!(matches_pattern("game.", "game.*"));
    assert!(matches_pattern("a.b.c", "a.*"));
    assert!(matches_pattern("a.b.c", "a.b.*"));
    assert!(!matches_pattern("a.c", "a.b.*"));
    assert!(matches_pattern("x*y", "x*y"));
    assert!(!matches_pattern("xzy", "x*y"));
    assert!(!matches_pattern("game.started", "game*"));
    assert!(matches_pattern("", ""));
}

// Registration

#[test]
fn test_router_registration() {
    let mut router = Router::new();

    router.on("user.created", Arc::new(LogEffect::new()));
    router.on("user.created", Arc::new(LogEffect::with_prefix("audit")));
    router.on("game.start", Arc::new(LogEffect::new()));

    assert!(router.has_handlers("user.created"));
    assert!(router.has_handlers("game.start"));
    assert!(!router.has_handlers("unknown"));
    assert_eq!(router.handler_count(), 2);
}

#[test]
fn test_router_wildcard_registration() {
    let mut router = Router::new();

    router.on("game.*", Arc::new(LogEffect::with_prefix("game")));
    router.on("*", Arc::new(LogEffect::with_prefix("catch-all")));

    assert!(router.has_handlers("game.started"));
    assert!(router.has_handlers("game.ended"));
    assert!(router.has_handlers("anything"));
    assert_eq!(router.handler_count(), 2);
}

#[test]
fn event_types_list_exact_types_before_patterns() {
    let mut router = Router::new();
    router.on("game.*", Arc::new(LogEffect::new()));
    router.on("user.created", Arc::new(LogEffect::new()));
    router.on("user.created", Arc::new(LogEffect::new()));
    assert_eq!(router.event_types(), vec!["user.created", "game.*"]);
}

#[test]
fn default_router_is_empty() {
    let router: Router<LogEffect> = Router::default();
    assert_eq!(router.handler_count(), 0);
    assert!(!router.has_handlers("anything"));
}

// Dispatch

#[test]
fn test_dispatch_with_handlers() {
    let mut router = Router::new();
    router.on("test.event", Arc::new(LogEffect::new()));

    let event = test_event("test.event");
    let result = run(&router, &event);

    assert!(result.is_success());
    assert_eq!(result.effects_executed, 1);
    assert_eq!(result.results.len(), 1);
    assert_eq!(result.matched_patterns, vec!["test.event"]);
}

#[test]
fn test_dispatch_no_handlers() {
    let router: Router<LogEffect> = Router::new();
    let event = test_event("unknown.event");

    let result = run(&router, &event);

    assert!(result.is_success());
    assert_eq!(result.effects_executed, 0);
    assert!(result.matched_patterns.is_empty());
}

#[test]
fn test_dispatch_with_default() {
    let mut router = Router::new();
    router.set_default(Arc::new(LogEffect::with_prefix("default")));

    let event = test_event("unknown.event");
    let result = run(&router, &event);

    assert!(result.is_success());
    assert_eq!(result.effects_executed, 1);
    assert_eq!(result.matched_patterns, vec!["default"]);
}

#[test]
fn test_multiple_handlers() {
    let mut router = Router::new();
    router.on("multi.event", Arc::new(LogEffect::new()));
    router.on("multi.event", Arc::new(LogEffect::with_prefix("second")));
    router.on("multi.event", Arc::new(LogEffect::with_prefix("third")));

    let event = test_event("multi.event");
    let result = run(&router, &event);

    assert!(result.is_success());
    assert_eq!(result.effects_executed, 3);
    assert_eq!(result.results.len(), 3);
}

#[test]
fn test_dispatch_wildcard_pattern() {
    let mut router = Router::new();
    router.on("game.*", Arc::new(LogEffect::with_prefix("game")));

    let event = test_event("game.achievement");
    let result = run(&router, &event);

    assert!(result.is_success());
    assert_eq!(result.effects_executed, 1);
    assert_eq!(result.matched_patterns, vec!["game.*"]);
}

#[test]
fn test_dispatch_catch_all() {
    let mut router = Router::new();
    router.on("*", Arc::new(LogEffect::with_prefix("catch-all")));

    let event = test_event("random.event");
    let result = run(&router, &event);

    assert!(result.is_success());
    assert_eq!(result.effects_executed, 1);
    assert_eq!(result.matched_patterns, vec!["*"]);
}

#[test]
fn test_dispatch_exact_and_wildcard() {
    let mut router = Router::new();
    router.on("game.started", Arc::new(LogEffect::with_prefix("exact")));
    router.on("game.*", Arc::new(LogEffect::with_prefix("wildcard")));

    let event = test_event("game.started");
    let result = run(&router, &event);

    assert!(result.is_success());
    // Both exact and wildcard should match
    assert_eq!(result.effects_executed, 2);
    assert!(result
        .matched_patterns
        .contains(&"game.started".to_string()));
    assert!(result.matched_patterns.contains(&"game.*".to_string()));
}

#[test]
fn test_dispatch_multiple_wildcards() {
    let mut router = Router::new();
    router.on("game.*", Arc::new(LogEffect::with_prefix("game")));
    router.on("*", Arc::new(LogEffect::with_prefix("catch-all")));

    let event = test_event("game.achievement");
    let result = run(&router, &event);

    assert!(result.is_success());
    // Both wildcards should match
    assert_eq!(result.effects_executed, 2);
    assert!(result.matched_patterns.contains(&"game.*".to_string()));
    assert!(result.matched_patterns.contains(&"*".to_string()));
}

#[test]
fn test_wildcard_priority_over_default() {
    let mut router = Router::new();
    router.on("*", Arc::new(LogEffect::with_prefix("catch-all")));
    router.set_default(Arc::new(LogEffect::with_prefix("default")));

    let event = test_event("random.event");
    let result = run(&router, &event);

    assert!(result.is_success());
    // Catch-all pattern should take priority over default handler
    assert_eq!(result.effects_executed, 1);
    assert_eq!(result.matched_patterns, vec!["*"]);
}

#[test]
fn exact_handlers_run_before_earlier_wildcards() {
    let mut router = Router::new();
    router.on("*", Arc::new(LogEffect::with_prefix("all")));
    router.on("game.*", Arc::new(LogEffect::with_prefix("game")));
    router.on("game.started", Arc::new(LogEffect::with_prefix("exact")));

    let event = test_event("game.started");
    let result = run(&router, &event);
    let messages: Vec<&str> = result.results.iter().map(|r| r.message.as_str()).collect();

    assert_eq!(
        messages,
        vec![
            "Logged event test/game.started with prefix 'exact'",
            "Logged event test/game.started with prefix 'all'",
            "Logged event test/game.started with prefix 'game'",
        ]
    );
    assert_eq!(result.matched_patterns, vec!["game.started", "*", "game.*"]);
    assert_eq!(result.event_type, "game.started");
}

#[test]
fn registration_leaves_other_types_alone() {
    let mut router = Router::new();
    router.on("a.b", Arc::new(LogEffect::with_prefix("one")));
    let event = test_event("a.b");
    let before = run(&router, &event).matched_patterns;
    router.on("c.*", Arc::new(LogEffect::with_prefix("two")));
    assert_eq!(run(&router, &event).matched_patterns, before);
}

#[test]
fn failures_are_collected() {
    let mut router = Router::new();
    router.on("x", Arc::new(LogEffect::with_prefix("one")));
    router.on("x", Arc::new(LogEffect::with_prefix("two")));
    router.on("x", Arc::new(LogEffect::with_prefix("three")));
    let event = test_event("x");

    let mut dispatch = router.dispatch(&event);
    let mut turn = 0;
    while dispatch.next_effect().is_some() {
        let outcome = if turn == 1 {
            Err(EffectError::Failed("broken".to_string()))
        } else {
            Ok(EffectResult::success("log", "fine"))
        };
        turn += 1;
        dispatch = match dispatch.record(outcome) {
            Ok(next) => next,
            Err(_) => unreachable!(),
        };
    }
    let result = dispatch.finish();

    assert!(!result.is_success());
    assert_eq!(result.failure_count(), 1);
    assert_eq!(result.effects_executed, 3);
    assert_eq!(result.results.len(), 2);
    assert_eq!(
        result.errors[0].message(),
        "effect 'log' failed: effect failed: broken"
    );
}

#[test]
fn fail_fast_ends_at_the_first_failure() {
    let mut router = Router::new().with_fail_fast();
    router.on("x", Arc::new(LogEffect::new()));
    router.on("x", Arc::new(LogEffect::new()));
    let event = test_event("x");

    let dispatch = router.dispatch(&event);
    let error = match dispatch.record(Err(EffectError::Timeout(50))) {
        Ok(_) => unreachable!(),
        Err(error) => error,
    };
    assert_eq!(
        error.message(),
        "effect 'log' failed: effect timed out after 50ms"
    );
    assert!(matches!(
        error,
        RouterError::EffectFailed { source: EffectError::Timeout(50), .. }
    ));
}

#[test]
fn several_failures_are_counted_in_the_message() {
    let failure = || RouterError::EffectFailed {
        effect_name: "log".to_string(),
        source: EffectError::Failed("broken".to_string()),
    };
    let error = RouterError::MultipleFailures(vec![failure(), failure()]);
    assert_eq!(error.message(), "2 effects failed during dispatch");
}

#[test]
fn effects_are_called_by_name() {
    assert_eq!(LogEffect::new().name(), "log");
}
