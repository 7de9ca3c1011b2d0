use std::time::Duration;
use synapse::event::Event;
use synapse::json::Json;
use synapse::router::{DispatchResult, RouterError};
use synapse::server::{
    api_key, authorize, correlation_id, emit_command, emit_event, emit_response, format_uptime,
    health_check, listen_address, Metrics,
};
use synapse::shutdown::ShutdownSignal;
use synapse::table::Table;
use synapse::worker::{
    ack_command, build_router, entry_step, get_consumer_group, get_str_field, get_worker_name,
    group_command, group_exists, is_idle_read, make_event, next_action, parse_event, read_command,
    Batch, EntryStep, FieldValue, Handling, LoopAction, LoopEvent, WorkerStats,
};
use synapse::{EffectError, DEFAULT_CONSUMER_GROUP, EVENT_STREAM_NAME};

fn is_uuid(text: &str) -> bool {
    let variant = text.as_bytes().get(19).copied().unwrap_or_default();
    uuid::Uuid::parse_str(text).map(|id| id.get_version_num() == 4).unwrap_or(false)
        && text.len() == 36
        && b"89ab".contains(&variant)
}

fn bulk(entries: &[(&str, &[u8])]) -> Table<FieldValue> {
    let mut fields = Table::new();
    for (name, bytes) in entries {
        fields.insert(name, FieldValue::BulkString(bytes.to_vec()));
    }
    fields
}

// Server

#[test]
fn requests_need_the_key() {
    let path = "/api/v1/events";
    assert_eq!(authorize(path, Some("Bearer dev-key"), "dev-key"), Ok(()));
    assert_eq!(authorize(path, Some("Bearer other"), "dev-key"), Err(401));
    assert_eq!(authorize(path, Some("bearer dev-key"), "dev-key"), Err(401));
    assert_eq!(authorize(path, Some("Bearer dev-key "), "dev-key"), Err(401));
    assert_eq!(authorize(path, Some("dev-key"), "dev-key"), Err(401));
    assert_eq!(authorize(path, Some("Bearer "), ""), Ok(()));
    assert_eq!(authorize(path, Some("Bearer"), ""), Err(401));
    assert_eq!(authorize(path, None, "dev-key"), Err(401));
    assert_eq!(authorize("/health", None, "dev-key"), Ok(()));
    assert_eq!(authorize("/metrics", Some("Bearer x"), "dev-key"), Ok(()));
    assert_eq!(authorize("/health/", None, "dev-key"), Err(401));
}

#[test]
fn settings_of_the_server() {
    assert_eq!(api_key(None), "dev-key");
    assert_eq!(api_key(Some("secret")), "secret");
    assert_eq!(listen_address(None), "0.0.0.0:3000");
    assert_eq!(listen_address(Some("8080")), "0.0.0.0:8080");
}

#[test]
fn health_of_the_server() {
    assert_eq!(
        health_check(true).unwrap().to_compact(),
        "{\"redis\":\"connected\",\"status\":\"ok\"}"
    );
    assert_eq!(health_check(false).unwrap_err(), 500);
}

#[test]
fn uptimes_for_readers() {
    assert_eq!(format_uptime(0), "0s");
    assert_eq!(format_uptime(59), "59s");
    assert_eq!(format_uptime(60), "1m 0s");
    assert_eq!(format_uptime(3599), "59m 59s");
    assert_eq!(format_uptime(3600), "1h 0m 0s");
    assert_eq!(format_uptime(90061), "25h 1m 1s");
}

#[test]
fn metrics_in_full() {
    let mut metrics = Metrics::new();
    metrics.increment_events();
    metrics.increment_events();
    assert_eq!(
        metrics.get_metrics("0.1.0", 61).to_compact(),
        "{\"events\":{\"received\":2},\"status\":\"running\",\"uptime\":\"1m 1s\",\
         \"uptime_seconds\":61,\"version\":\"0.1.0\"}"
    );
    let mut full = Metrics { events_received: u64::MAX };
    full.increment_events();
    assert_eq!(full.events_received, 0);
}

#[test]
fn correlation_ids_are_taken_over_or_made() {
    assert_eq!(correlation_id(Some("given")), "given");
    let first = correlation_id(None);
    let second = correlation_id(None);
    assert!(is_uuid(&first) && is_uuid(&second));
    assert_ne!(first, second);
}

#[test]
fn emitted_commands() {
    let event = Event::new("s", "t", Json::object().with("n", Json::integer(1)));
    assert_eq!(
        emit_command(&event, "now", "id"),
        vec![
            "XADD", EVENT_STREAM_NAME, "*", "source", "s", "eventType", "t", "payload",
            "{\"n\":1}", "timestamp", "now", "correlationId", "id",
        ]
    );
    let emission = emit_event(&event, Some("id"));
    assert_eq!(emission.correlation_id, "id");
    assert_eq!(emission.command.len(), 13);
    assert!(chrono::DateTime::parse_from_rfc3339(&emission.command[10]).is_ok());
    assert_eq!(emission.command[12], "id");
    let emission = emit_event(&event, None);
    assert!(is_uuid(&emission.correlation_id));
    assert_eq!(emission.command[12], emission.correlation_id);
}

#[test]
fn responses_to_emitted_events() {
    let (status, response) = emit_response(Some("1-0".to_string()), "id".to_string()).unwrap();
    assert_eq!(status, 202);
    assert_eq!(
        response.to_json().to_compact(),
        "{\"correlationId\":\"id\",\"id\":\"1-0\",\"status\":\"accepted\"}"
    );
    assert_eq!(emit_response(None, "id".to_string()).unwrap_err(), 500);
}

// Worker

#[test]
fn emitted_events_are_read() {
    let payload = Json::object()
        .with("text", Json::text("Grüße \"x\" \n"))
        .with("list", Json::Array(vec![Json::Null, Json::Bool(true), Json::integer(u64::MAX)]));
    let event = Event::new("minecraft", "player.joined", payload);
    let command = emit_event(&event, None).command;
    let mut fields = Table::new();
    for pair in command[3..].chunks(2) {
        fields.insert(&pair[0], FieldValue::BulkString(pair[1].as_bytes().to_vec()));
    }
    let back = parse_event(&fields).unwrap();
    assert_eq!(back.source, "minecraft");
    assert_eq!(back.event_type, "player.joined");
    assert_eq!(back.payload.to_compact(), event.payload.to_compact());
    assert_eq!(back.correlation_id, Some(command[12].clone()));
}

#[test]
fn fields_of_entries() {
    let mut fields = bulk(&[("good", "ä".as_bytes()), ("bad", &[0x61, 0xff, 0x62])]);
    fields.insert("simple", FieldValue::SimpleString("text".to_string()));
    fields.insert("other", FieldValue::Other);
    assert_eq!(get_str_field(&fields, "good"), "ä");
    assert_eq!(get_str_field(&fields, "bad"), "a\u{fffd}b");
    assert_eq!(get_str_field(&fields, "simple"), "text");
    assert_eq!(get_str_field(&fields, "other"), "unknown_format");
    assert_eq!(get_str_field(&fields, "missing"), "unknown");
}

#[test]
fn entries_without_source_or_type_are_skipped() {
    let missing = bulk(&[("source", b"s"), ("payload", b"{}")]);
    assert!(parse_event(&missing).is_none());
    assert!(matches!(entry_step(&missing), EntryStep::Skip));
    assert!(parse_event(&bulk(&[("eventType", b"t")])).is_none());
    assert!(parse_event(&bulk(&[("source", b"unknown"), ("eventType", b"t")])).is_none());
    assert!(make_event("s".to_string(), "unknown".to_string(), None, None).is_none());
}

#[test]
fn payloads_that_cannot_be_read_are_empty() {
    let fields = bulk(&[("source", b"s"), ("eventType", b"t"), ("payload", b"{oops")]);
    let event = match entry_step(&fields) {
        EntryStep::Dispatch(event) => event,
        EntryStep::Skip => unreachable!(),
    };
    assert_eq!(event.payload.to_compact(), "{}");
    assert!(event.correlation_id.is_none());
    let without = bulk(&[("source", b"s"), ("eventType", b"t")]);
    assert_eq!(parse_event(&without).unwrap().payload.to_compact(), "{}");
}

#[test]
fn routes_of_the_worker() {
    let router = build_router();
    assert_eq!(router.handler_count(), 10);
    assert_eq!(
        router.event_types(),
        vec![
            "user.created",
            "user.updated",
            "user.deleted",
            "game.started",
            "game.ended",
            "game.achievement",
            "player.joined",
            "player.left",
            "system.health",
            "system.alert",
        ]
    );
    let prefix = |event_type: &str| {
        let event = Event::new("s", event_type, Json::object());
        router.dispatch(&event).next_effect().unwrap().prefix.clone()
    };
    assert_eq!(prefix("user.deleted"), "user");
    assert_eq!(prefix("player.left"), "game");
    assert_eq!(prefix("system.alert"), "system");
    assert_eq!(prefix("anything"), "unhandled");
}

#[test]
fn names_of_workers_and_groups() {
    assert_eq!(get_worker_name(Some("w"), Some("host")), "w");
    assert_eq!(get_worker_name(None, Some("host")), "worker-host");
    let random = get_worker_name(None, None);
    assert!(random.starts_with("worker-") && is_uuid(&random[7..]));
    assert_eq!(get_consumer_group(None), DEFAULT_CONSUMER_GROUP);
    assert_eq!(get_consumer_group(Some("g")), "g");
}

#[test]
fn commands_of_the_worker() {
    assert_eq!(
        group_command("g"),
        vec!["XGROUP", "CREATE", "synapse:events", "g", "$", "MKSTREAM"]
    );
    assert_eq!(
        read_command("g", "w"),
        vec![
            "XREADGROUP", "GROUP", "g", "w", "BLOCK", "2000", "COUNT", "10", "STREAMS",
            "synapse:events", ">",
        ]
    );
    assert_eq!(ack_command("g", "1-0"), vec!["XACK", "synapse:events", "g", "1-0"]);
}

#[test]
fn errors_that_the_worker_passes_over() {
    assert!(group_exists("BUSYGROUP: Consumer Group name already exists"));
    assert!(!group_exists("NOAUTH"));
    assert!(is_idle_read("connection timed out"));
    assert!(is_idle_read("response was nil"));
    assert!(!is_idle_read("broken pipe"));
}

#[test]
fn loop_actions() {
    for handling in [Handling::Skipped, Handling::Dispatched, Handling::Failed] {
        let event = LoopEvent::Handled { id: "1-0".to_string(), handling };
        match next_action(&event, "g") {
            LoopAction::Acknowledge(command) => assert_eq!(command, ack_command("g", "1-0")),
            LoopAction::Wait(_) => unreachable!(),
        }
    }
    match next_action(&LoopEvent::NoConnection, "g") {
        LoopAction::Wait(length) => assert_eq!(length, Duration::from_secs(5)),
        LoopAction::Acknowledge(_) => unreachable!(),
    }
}

#[test]
fn every_entry_is_acknowledged_once() {
    let good = || bulk(&[("source", b"s"), ("eventType", b"t")]);
    let mut batch = Batch::new(vec![
        ("1-0".to_string(), good()),
        ("2-0".to_string(), Table::new()),
        ("3-0".to_string(), good()),
    ]);
    let mut seen = Vec::new();
    while let Some((id, step)) = batch.next_entry() {
        let id = id.to_string();
        let handling = match step {
            EntryStep::Skip => Handling::Skipped,
            EntryStep::Dispatch(event) => {
                assert_eq!(event.source, "s");
                if id == "1-0" { Handling::Dispatched } else { Handling::Failed }
            }
        };
        match batch.settle(handling, "g") {
            LoopAction::Acknowledge(command) => seen.push((command[3].clone(), handling)),
            LoopAction::Wait(_) => unreachable!(),
        }
    }
    let ids: Vec<&str> = seen.iter().map(|(id, _)| id.as_str()).collect();
    assert_eq!(ids, vec!["1-0", "2-0", "3-0"]);
    assert!(matches!(seen[1].1, Handling::Skipped));
    assert!(Batch::new(Vec::new()).next_entry().is_none());
}

#[test]
fn statistics_of_the_worker() {
    let failure = || RouterError::EffectFailed {
        effect_name: "log".to_string(),
        source: EffectError::Failed("x".to_string()),
    };
    let result = |errors| DispatchResult {
        event_type: "t".to_string(),
        matched_patterns: Vec::new(),
        effects_executed: 3,
        results: Vec::new(),
        errors,
    };
    let mut stats = WorkerStats::new();
    assert!(!stats.is_due());
    stats.record(&Ok(result(Vec::new())));
    assert_eq!((stats.events_processed, stats.events_failed), (1, 0));
    stats.record(&Ok(result(vec![failure(), failure()])));
    assert_eq!((stats.events_processed, stats.events_failed), (2, 2));
    stats.record(&Err(failure()));
    assert_eq!((stats.events_processed, stats.events_failed), (2, 3));
    let mut full = WorkerStats { events_processed: u64::MAX, events_failed: 0 };
    full.record(&Err(failure()));
    assert_eq!((full.events_processed, full.events_failed), (u64::MAX, 1));
    stats.events_processed = 100;
    assert!(stats.is_due());
    stats.events_processed = 101;
    assert!(!stats.is_due());
}

// Shutdown

#[test]
fn test_shutdown_signal_creation() {
    let signal = ShutdownSignal::new();
    assert_eq!(signal.timeout(), Duration::from_secs(30));
}

#[test]
fn test_custom_timeout() {
    let signal = ShutdownSignal::with_timeout(Duration::from_secs(60));
    assert_eq!(signal.timeout(), Duration::from_secs(60));
}

#[test]
fn shutdown_stays_triggered() {
    let mut signal = ShutdownSignal::default();
    assert!(!signal.is_shutdown());
    signal.trigger();
    assert!(signal.is_shutdown());
    signal.trigger();
    assert!(signal.is_shutdown());
    assert_eq!(signal.timeout(), Duration::from_secs(30));
}
