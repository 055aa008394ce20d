use codechat_core::DispatchError;
use codechat_core::FieldValue;
use codechat_core::Orchestrator;
use codechat_core::Payload;
use codechat_core::PayloadField;

fn url_payload(url: &str) -> Payload {
    Payload {
        fields: vec![PayloadField {
            key: String::from("url"),
            value: FieldValue::Str(String::from(url)),
        }],
    }
}

fn prompt_payload(prompt: &str) -> Payload {
    Payload {
        fields: vec![PayloadField {
            key: String::from("prompt"),
            value: FieldValue::Str(String::from(prompt)),
        }],
    }
}

#[test]
fn denied_navigate_writes_nothing() {
    let mut orch = Orchestrator::new();
    let r = orch.send_command("navigate", Some(url_payload("https://evil.com/")));
    assert!(r.is_ok());
    assert_eq!(orch.pending_count(), 0);
    let sink = orch.sink_entries();
    assert_eq!(sink.len(), 1);
    assert!(sink[0].contains("denied"));
    assert!(sink[0].contains("https://evil.com/"));
}

#[test]
fn denied_navigate_bad_scheme_writes_nothing() {
    let mut orch = Orchestrator::new();
    let r = orch.send_command("navigate", Some(url_payload("file:///etc/passwd")));
    assert!(r.is_ok());
    assert_eq!(orch.pending_count(), 0);
}

#[test]
fn allowed_navigate_writes_one_record() {
    let mut orch = Orchestrator::new();
    let r = orch.send_command("navigate", Some(url_payload("https://github.com/login")));
    assert!(r.is_ok());
    let lines = orch.take_pending();
    assert_eq!(lines.len(), 1);
    let line = &lines[0];
    assert!(line.ends_with('\n'));
    assert_eq!(line.matches('\n').count(), 1);
    let v: serde_json::Value = serde_json::from_str(line.trim_end()).unwrap();
    assert_eq!(v["action"], "navigate");
    assert_eq!(v["payload"]["url"], "https://github.com/login");
}

#[test]
fn chat_command_writes_one_record_unchanged() {
    let mut orch = Orchestrator::new();
    let r = orch.send_command("chat_chatgpt", Some(prompt_payload("hi")));
    assert!(r.is_ok());
    let lines = orch.take_pending();
    assert_eq!(lines.len(), 1);
    let v: serde_json::Value = serde_json::from_str(lines[0].trim_end()).unwrap();
    assert_eq!(v["action"], "chat_chatgpt");
    assert_eq!(v["payload"]["prompt"], "hi");
    assert!(orch.sink_entries().is_empty());
}

#[test]
fn command_without_payload_serializes_null() {
    let mut orch = Orchestrator::new();
    orch.send_command("init", None).unwrap();
    let lines = orch.take_pending();
    assert_eq!(lines.len(), 1);
    assert_eq!(lines[0].as_str(), "{\"action\":\"init\",\"payload\":null}\n");
}

#[test]
fn records_stay_whole_and_in_order() {
    let mut orch = Orchestrator::new();
    orch.send_command("init", None).unwrap();
    orch.send_command("chat_deepseek", Some(prompt_payload("first"))).unwrap();
    orch.send_command("chat_kimi", Some(prompt_payload("second"))).unwrap();
    let lines = orch.take_pending();
    assert_eq!(lines.len(), 3);
    for line in &lines {
        // Each record is contiguous: one line, terminated by its own newline.
        assert!(line.ends_with('\n'));
        assert_eq!(line.matches('\n').count(), 1);
    }
    // The byte stream the writer produces splits back into the same records.
    let stream: String = lines.concat();
    let split: Vec<&str> = stream.split_terminator('\n').collect();
    assert_eq!(split.len(), 3);
    let first: serde_json::Value = serde_json::from_str(split[1]).unwrap();
    assert_eq!(first["payload"]["prompt"], "first");
    let second: serde_json::Value = serde_json::from_str(split[2]).unwrap();
    assert_eq!(second["payload"]["prompt"], "second");
    assert_eq!(orch.pending_count(), 0);
}

#[test]
fn payload_with_newlines_and_quotes_stays_one_line() {
    let mut orch = Orchestrator::new();
    let tricky = "line1\nline2\t\"quoted\" back\\slash\r\u{1}";
    orch.send_command("chat_glm", Some(prompt_payload(tricky))).unwrap();
    let lines = orch.take_pending();
    assert_eq!(lines.len(), 1);
    assert_eq!(lines[0].matches('\n').count(), 1);
    assert!(lines[0].ends_with('\n'));
    let v: serde_json::Value = serde_json::from_str(lines[0].trim_end()).unwrap();
    assert_eq!(v["payload"]["prompt"].as_str().unwrap(), tricky);
}

#[test]
fn scalar_payload_values_round_trip() {
    let mut orch = Orchestrator::new();
    let payload = Payload {
        fields: vec![
            PayloadField { key: String::from("a"), value: FieldValue::Null },
            PayloadField { key: String::from("b"), value: FieldValue::Bool(true) },
            PayloadField { key: String::from("c"), value: FieldValue::Bool(false) },
            PayloadField { key: String::from("d"), value: FieldValue::Str(String::from("x")) },
        ],
    };
    orch.send_command("init", Some(payload)).unwrap();
    let lines = orch.take_pending();
    let v: serde_json::Value = serde_json::from_str(lines[0].trim_end()).unwrap();
    assert!(v["payload"]["a"].is_null());
    assert_eq!(v["payload"]["b"], true);
    assert_eq!(v["payload"]["c"], false);
    assert_eq!(v["payload"]["d"], "x");
}

#[test]
fn unavailable_worker_refuses_and_queues_nothing() {
    let mut orch = Orchestrator::new();
    orch.mark_worker_unavailable();
    let r = orch.send_command("chat_chatgpt", Some(prompt_payload("hi")));
    assert!(matches!(r, Err(DispatchError::WorkerUnavailable)));
    assert_eq!(orch.pending_count(), 0);
    orch.mark_worker_restarted();
    assert!(orch.send_command("chat_chatgpt", Some(prompt_payload("hi"))).is_ok());
    assert_eq!(orch.pending_count(), 1);
}

#[test]
fn navigate_without_url_field_is_sent() {
    let mut orch = Orchestrator::new();
    orch.send_command("navigate", Some(prompt_payload("not a url field"))).unwrap();
    assert_eq!(orch.pending_count(), 1);
}

#[test]
fn navigate_with_non_string_url_is_sent() {
    let mut orch = Orchestrator::new();
    let payload = Payload {
        fields: vec![PayloadField { key: String::from("url"), value: FieldValue::Bool(true) }],
    };
    orch.send_command("navigate", Some(payload)).unwrap();
    assert_eq!(orch.pending_count(), 1);
    assert!(orch.sink_entries().is_empty());
}

#[test]
fn worker_output_goes_to_sink() {
    let mut orch = Orchestrator::new();
    orch.note_worker_line(String::from("ready"));
    orch.note_worker_line(String::from("navigated"));
    let sink = orch.sink_entries();
    assert_eq!(sink.len(), 2);
    assert_eq!(sink[0], "ready");
    assert_eq!(sink[1], "navigated");
    assert_eq!(orch.pending_count(), 0);
}
