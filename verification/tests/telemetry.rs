use codechat_core::TelemetryEvent;
use codechat_core::TelemetryManager;

#[test]
fn render_is_exact() {
    let event = TelemetryEvent {
        timestamp: String::from("2024-01-01T00:00:00+00:00"),
        event_type: String::from("prompt_received"),
        details: String::from("Model: auto -> cloud_deepseek, Length: 4"),
    };
    assert_eq!(
        event.render(),
        "{\"timestamp\":\"2024-01-01T00:00:00+00:00\",\"event_type\":\"prompt_received\",\
         \"details\":\"Model: auto -> cloud_deepseek, Length: 4\"}"
    );
}

#[test]
fn log_event_appends_one_parseable_record() {
    let mut manager = TelemetryManager::new();
    manager.log_event("local_inference", "Duration: 10ms, Chars: 5");
    let entries = manager.entries();
    assert_eq!(entries.len(), 1);
    assert!(!entries[0].contains('\n'));
    let v: serde_json::Value = serde_json::from_str(&entries[0]).unwrap();
    assert_eq!(v["event_type"], "local_inference");
    assert_eq!(v["details"], "Duration: 10ms, Chars: 5");
    assert!(!v["timestamp"].as_str().unwrap().is_empty());
}

#[test]
fn event_content_cannot_break_line_framing() {
    let mut manager = TelemetryManager::new();
    manager.log_event("note\n", "first\nsecond\r\"quoted\"");
    let entries = manager.entries();
    assert_eq!(entries.len(), 1);
    assert!(!entries[0].contains('\n'));
    let v: serde_json::Value = serde_json::from_str(&entries[0]).unwrap();
    assert_eq!(v["event_type"], "note\n");
    assert_eq!(v["details"], "first\nsecond\r\"quoted\"");
}

#[test]
fn take_entries_drains_in_order() {
    let mut manager = TelemetryManager::new();
    manager.log_event("a", "1");
    manager.log_event("b", "2");
    let taken = manager.take_entries();
    assert_eq!(taken.len(), 2);
    let first: serde_json::Value = serde_json::from_str(&taken[0]).unwrap();
    let second: serde_json::Value = serde_json::from_str(&taken[1]).unwrap();
    assert_eq!(first["event_type"], "a");
    assert_eq!(second["event_type"], "b");
    assert!(manager.entries().is_empty());
}
