use synapse::dlq::{decode_entry, decode_field, DeadLetterQueue, DlqError, FailedEvent, DLQ_STREAM_NAME};
use synapse::event::{Event, StreamEvent};
use synapse::json::{Json, RESERVED_NAME};
use synapse::queue::{health_check, push_command, push_status};

fn sample() -> Event {
    Event::new("test", "test.event", Json::object().with("foo", Json::text("bar")))
}

fn fields(command: &[String]) -> Vec<(String, String)> {
    command.chunks(2).map(|pair| (pair[0].clone(), pair[1].clone())).collect()
}

#[test]
fn test_dlq_stream_name() {
    assert_eq!(DLQ_STREAM_NAME, "synapse:events:dlq");
}

#[test]
fn test_failed_event_serialization() {
    let event = Event::new("test", "test.event", Json::object().with("foo", Json::text("bar")));
    let failed = FailedEvent {
        event,
        error: "Connection timeout".to_string(),
        retry_count: 3,
        failed_at: "2025-12-11T12:00:00Z".to_string(),
        original_id: Some("1234567890-0".to_string()),
    };

    let json = failed.to_json().to_compact();
    assert!(json.contains("Connection timeout"));
    assert!(json.contains("test.event"));
}

#[test]
fn failed_events_in_full() {
    let failed = FailedEvent {
        event: sample(),
        error: "e".to_string(),
        retry_count: 3,
        failed_at: "now".to_string(),
        original_id: None,
    };
    assert_eq!(
        failed.clone().to_json().to_compact(),
        "{\"error\":\"e\",\"event\":{\"eventType\":\"test.event\",\"payload\":{\"foo\":\"bar\"},\
         \"source\":\"test\"},\"failed_at\":\"now\",\"original_id\":null,\"retry_count\":3}"
    );
    let command = DeadLetterQueue::new().add_command(&failed, "{}");
    assert_eq!(
        command,
        vec![
            "XADD", "synapse:events:dlq", "MAXLEN", "~", "10000", "*", "event", "{}", "error", "e",
            "retryCount", "3", "failedAt", "now", "originalId", "", "source", "test", "eventType",
            "test.event",
        ]
    );
}

#[test]
fn what_is_added_comes_back() {
    let dlq = DeadLetterQueue::new();
    let event = sample();
    let command = dlq.add_failed_event(&event, "timeout", 12, Some("7-0"));
    assert_eq!(command.len(), 20);
    let entry = ("1-0".to_string(), fields(&command[6..]));
    let back = dlq.get(&vec![entry]).unwrap();
    assert_eq!(back.get("event").unwrap().to_compact(), event.to_json().to_compact());
    assert_eq!(back.text_at("error"), Some("timeout"));
    assert_eq!(back.get("retryCount").unwrap().to_compact(), "12");
    assert_eq!(back.text_at("originalId"), Some("7-0"));
    assert_eq!(back.text_at("source"), Some("test"));
    assert_eq!(back.text_at("eventType"), Some("test.event"));
    let failed_at = back.text_at("failedAt").unwrap();
    assert!(failed_at.ends_with("+00:00"));
    assert!(chrono::DateTime::parse_from_rfc3339(failed_at).is_ok());
}

#[test]
fn events_with_the_reserved_name_come_back_as_text() {
    let dlq = DeadLetterQueue::new();
    let payload = Json::object().with(RESERVED_NAME, Json::text("x"));
    let command = dlq.add_failed_event(&Event::new("s", "t", payload), "e", 0, None);
    let entry = ("1-0".to_string(), fields(&command[6..]));
    let back = dlq.get(&vec![entry]).unwrap();
    assert_eq!(back.text_at("event"), Some(command[7].as_str()));
}

#[test]
fn removed_entries_are_gone() {
    let dlq = DeadLetterQueue::new();
    let mut queue: Vec<(String, Vec<(String, String)>)> = (0..3)
        .map(|n| (format!("{}-0", n), vec![("error".to_string(), format!("e{}", n))]))
        .collect();
    let mut remove = |id: &str| {
        let before = queue.len();
        queue.retain(|entry| entry.0 != id);
        (dlq.remove((before - queue.len()) as u64), queue.clone())
    };
    let (found, after) = remove("1-0");
    assert!(found);
    let ids: Vec<String> = dlq.list(&after, 10, 0).into_iter().map(|(id, _)| id).collect();
    assert_eq!(ids, vec!["0-0", "2-0"]);
    let with = |id: &str| after.iter().filter(|entry| entry.0 == id).cloned().collect();
    assert!(dlq.get(&with("1-0")).is_none());
    assert_eq!(dlq.get(&with("2-0")).unwrap().text_at("error"), Some("e2"));
    let (found, again) = remove("1-0");
    assert!(!found);
    assert_eq!(again.len(), 2);
}

#[test]
fn fields_that_cannot_be_read_are_text() {
    assert_eq!(decode_field("event", "{oops", None).as_str(), Some("{oops"));
    assert_eq!(decode_field("event", "1", Some(Json::integer(1))).to_compact(), "1");
    assert_eq!(decode_field("retryCount", "x", None).as_str(), Some("x"));
    assert_eq!(decode_field("retryCount", "+7", None).to_compact(), "7");
    assert_eq!(decode_field("retryCount", "4294967295", None).to_compact(), "4294967295");
    assert_eq!(decode_field("retryCount", "4294967296", None).as_str(), Some("4294967296"));
    assert_eq!(decode_field("retryCount", "-1", None).as_str(), Some("-1"));
    assert_eq!(decode_field("retryCount", "", None).as_str(), Some(""));
    assert_eq!(decode_field("other", "1", Some(Json::integer(1))).as_str(), Some("1"));
    let entry = vec![
        ("event".to_string(), "{oops".to_string()),
        ("retryCount".to_string(), "2".to_string()),
    ];
    assert_eq!(
        decode_entry(&entry).to_compact(),
        "{\"event\":\"{oops\",\"retryCount\":2}"
    );
}

#[test]
fn commands_for_the_dead_letter_queue() {
    let dlq = DeadLetterQueue::new();
    assert_eq!(dlq.count_command(), vec!["XLEN", "synapse:events:dlq"]);
    assert_eq!(
        dlq.list_command(10, 5),
        vec!["XRANGE", "synapse:events:dlq", "-", "+", "COUNT", "15"]
    );
    assert_eq!(dlq.remove_command("1-0"), vec!["XDEL", "synapse:events:dlq", "1-0"]);
    assert_eq!(
        dlq.get_command("1-0"),
        vec!["XRANGE", "synapse:events:dlq", "1-0", "1-0"]
    );
    assert!(dlq.remove(1));
    assert!(!dlq.remove(0));
    assert!(dlq.get(&Vec::new()).is_none());
}

#[test]
fn pages_of_the_dead_letter_queue() {
    let dlq = DeadLetterQueue::new();
    let entries: Vec<(String, Vec<(String, String)>)> = (0..5)
        .map(|n| (format!("{}-0", n), vec![("error".to_string(), format!("e{}", n))]))
        .collect();
    let ids = |count, offset| -> Vec<String> {
        dlq.list(&entries, count, offset).into_iter().map(|(id, _)| id).collect()
    };
    assert_eq!(ids(2, 1), vec!["1-0", "2-0"]);
    assert_eq!(ids(10, 3), vec!["3-0", "4-0"]);
    assert!(ids(2, 5).is_empty());
    assert!(ids(0, 0).is_empty());
    assert_eq!(dlq.list(&entries, 1, 4)[0].1.text_at("error"), Some("e4"));
}

#[test]
fn queue_errors_tell_what_went_wrong() {
    let detail = || "x".to_string();
    assert_eq!(
        DlqError::ConnectionError(detail()).message(),
        "Redis connection error: x"
    );
    assert_eq!(DlqError::RedisError(detail()).message(), "Redis command error: x");
    assert_eq!(
        DlqError::SerializationError(detail()).message(),
        "Serialization error: x"
    );
}

#[test]
fn test_event_serialize() {
    let event = Event::new(
        "minecraft",
        "player.joined",
        Json::object().with("player", Json::text("Steve")),
    );

    let json_str = event.to_json().to_compact();
    assert!(json_str.contains("minecraft"));
    assert!(json_str.contains("eventType")); // camelCase in JSON
}

#[test]
fn events_with_an_id() {
    let mut event = sample();
    event.correlation_id = Some("c".to_string());
    assert_eq!(
        event.to_json().to_compact(),
        "{\"correlationId\":\"c\",\"eventType\":\"test.event\",\"payload\":{\"foo\":\"bar\"},\
         \"source\":\"test\"}"
    );
    let entry = StreamEvent::new("1-0".to_string(), event).clone();
    assert_eq!(entry.id, "1-0");
    assert_eq!(entry.event.correlation_id.as_deref(), Some("c"));
}

#[test]
fn events_in_a_plain_list() {
    assert_eq!(
        push_command(&sample()),
        vec![
            "RPUSH",
            "synapse:events",
            "{\"eventType\":\"test.event\",\"payload\":{\"foo\":\"bar\"},\"source\":\"test\"}",
        ]
    );
    assert_eq!(push_status(true), 202);
    assert_eq!(push_status(false), 500);
    assert_eq!(
        health_check(true).unwrap().to_compact(),
        "{\"redis\":\"ok\",\"status\":\"ok\"}"
    );
    assert_eq!(health_check(false).unwrap_err(), 500);
}
