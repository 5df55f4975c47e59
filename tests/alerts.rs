use hanode::alerts::{alert_message, generate_message, join_messages, Alert, Notification};
use hanode::node::{greeting, ServerOpts};
use hanode::payload::{PayloadBuffer, PayloadError, MAX_PAYLOAD_BYTES};

fn pairs(items: &[(&str, &str)]) -> Vec<(String, String)> {
    items.iter().map(|(k, v)| (k.to_string(), v.to_string())).collect()
}

fn alert(labels: &[(&str, &str)], annotations: &[(&str, &str)]) -> Alert {
    Alert {
        status: "firing".to_string(),
        labels: pairs(labels),
        annotations: pairs(annotations),
        starts_at: String::new(),
        ends_at: String::new(),
        generator_url: String::new(),
    }
}

fn notification(alerts: Vec<Alert>) -> Notification {
    Notification {
        receiver: "hook".to_string(),
        status: "firing".to_string(),
        alerts,
        group_labels: vec![],
        common_labels: vec![],
        common_annotations: vec![],
        external_url: String::new(),
        version: "4".to_string(),
    }
}

#[test]
fn no_alerts_no_message() {
    assert!(generate_message(&notification(vec![])).is_none());
}

#[test]
fn one_alert_message_is_quoted() {
    let n = notification(vec![alert(
        &[("service", "db"), ("instance", "h:9100"), ("severity", "critical")],
        &[("summary", "disk \"full\"")],
    )]);
    assert_eq!(
        generate_message(&n).unwrap(),
        "Services: \"db\"\nInstance: \"h:9100\"\nSeverity: \"critical\"\n----------\n\"disk \\\"full\\\"\"\n"
    );
}

#[test]
fn missing_labels_use_stand_ins() {
    let n = notification(vec![alert(&[], &[]), alert(&[("service", "web")], &[])]);
    let first = "Services: \"Unknown service\"\nInstance: \"Unknown instance\"\nSeverity: \"Unknown severity\"\n----------\n\"Empty summary\"\n";
    let second = "Services: \"web\"\nInstance: \"Unknown instance\"\nSeverity: \"Unknown severity\"\n----------\n\"Empty summary\"\n";
    assert_eq!(generate_message(&n).unwrap(), format!("{}\n{}", first, second));
}

#[test]
fn alert_message_layout() {
    assert_eq!(alert_message("a", "b", "c", "d"), "Services: a\nInstance: b\nSeverity: c\n----------\nd\n");
}

#[test]
fn join_messages_cases() {
    assert!(join_messages(&vec![]).is_none());
    assert_eq!(join_messages(&vec!["x".to_string()]).unwrap(), "x");
    assert_eq!(join_messages(&vec!["x".to_string(), "y".to_string(), "z".to_string()]).unwrap(), "x\ny\nz");
}

#[test]
fn payload_limit() {
    let mut p = PayloadBuffer::new();
    assert_eq!(p.push(&vec![1u8; MAX_PAYLOAD_BYTES - 1]), Ok(()));
    assert_eq!(p.push(&[2u8]), Ok(()));
    assert_eq!(p.as_slice().len(), MAX_PAYLOAD_BYTES);
    assert_eq!(p.push(&[3u8]), Err(PayloadError::Overflow));
    assert_eq!(p.as_slice().len(), MAX_PAYLOAD_BYTES);
    let mut q = PayloadBuffer::new();
    assert_eq!(q.push(&vec![0u8; MAX_PAYLOAD_BYTES + 1]), Err(PayloadError::Overflow));
    assert!(q.as_slice().is_empty());
}

#[test]
fn server_opts_defaults() {
    let d = ServerOpts::from_args(None, None);
    assert_eq!(d.host, "127.0.0.1");
    assert_eq!(d.port, 8080);
    let g = ServerOpts::from_args(Some(3001), Some("0.0.0.0".to_string()));
    assert_eq!(g.host, "0.0.0.0");
    assert_eq!(g.port, 3001);
}

#[test]
fn greeting_text() {
    assert_eq!(greeting("bob"), "Hello bob!");
}
