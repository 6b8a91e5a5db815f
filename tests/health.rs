use dashboard::health::{health_from_probe, health_targets, ProbeOutcome};

#[test]
fn unreachable_endpoint_gives_full_result() {
    let h = health_from_probe(
        "Spliit",
        "https://spliit.example/api/health",
        1_700_000_000_000,
        8001,
        ProbeOutcome::Failed { error: "error sending request: connection refused".to_string() },
    );
    assert!(!h.is_up);
    assert_eq!(h.status_code, None);
    assert_eq!(h.latency_ms, Some(8001));
    assert_eq!(h.error.as_deref(), Some("error sending request: connection refused"));
    assert_eq!(h.checked_at_ms, 1_700_000_000_000);
}

#[test]
fn failure_without_text_still_has_message() {
    let h = health_from_probe("a", "u", 0, 3, ProbeOutcome::Failed { error: String::new() });
    assert_eq!(h.error.as_deref(), Some("request failed"));
}

#[test]
fn success_and_error_statuses() {
    let ok = health_from_probe("a", "u", 5, 12, ProbeOutcome::Responded { status: 204 });
    assert!(ok.is_up);
    assert_eq!(ok.status_code, Some(204));
    assert_eq!(ok.error, None);
    let down = health_from_probe("a", "u", 5, 12, ProbeOutcome::Responded { status: 503 });
    assert!(!down.is_up);
    assert_eq!(down.status_code, Some(503));
}

#[test]
fn four_targets() {
    let t = health_targets();
    assert_eq!(t.len(), 4);
    assert_eq!(t[0].0, "Trisolaris");
    assert_eq!(t[3].1, "https://portal.zewotherm.com/up");
}
