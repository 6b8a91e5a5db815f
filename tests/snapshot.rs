use dashboard::error::{ErrorKind, SourceError};
use dashboard::health::{health_from_probe, ProbeOutcome};
use dashboard::snapshot::{greet, SlotUpdate, Snapshot};

#[test]
fn fresh_snapshot_holds_placeholders() {
    let snap = Snapshot::new();
    let e = snap.get_spotify_track().as_ref().err().unwrap();
    assert_eq!(e.kind, ErrorKind::Pending);
    assert_eq!(e.message, "Loading Spotify data...");
    assert_eq!(snap.get_ram_usage().as_ref().err().unwrap().kind, ErrorKind::Pending);
    assert_eq!(snap.get_cpu_usage().as_ref().err().unwrap().kind, ErrorKind::Pending);
    assert_eq!(snap.get_docker_containers().as_ref().err().unwrap().kind, ErrorKind::Pending);
    assert_eq!(snap.get_jira_tickets().as_ref().err().unwrap().message, "Loading Jira tickets...");
    assert_eq!(snap.get_service_health().as_ref().err().unwrap().kind, ErrorKind::Pending);
    assert_eq!(snap.get_sentry_issues().as_ref().err().unwrap().kind, ErrorKind::Pending);
}

#[test]
fn store_replaces_one_slot_whole() {
    let mut snap = Snapshot::new();
    let h = health_from_probe("a", "u", 1, 2, ProbeOutcome::Responded { status: 200 });
    snap.store(SlotUpdate::Health(Ok(vec![h])));
    let read = snap.get_service_health().as_ref().ok().unwrap();
    assert_eq!(read.len(), 1);
    assert!(read[0].is_up);
    assert_eq!(read[0].latency_ms, Some(2));
    assert_eq!(snap.get_jira_tickets().as_ref().err().unwrap().kind, ErrorKind::Pending);
    snap.store(SlotUpdate::Health(Err(SourceError::new(ErrorKind::NetworkFailure, "down".to_string()))));
    assert_eq!(snap.get_service_health().as_ref().err().unwrap().message, "down");
}

#[test]
fn greeting_echo() {
    assert_eq!(greet("Ada"), "Hello, Ada! You've been greeted from Rust!");
}
