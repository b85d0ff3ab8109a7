use mcp_probe::replay::{
    replay_initialize_body, replay_start, replay_step, replay_transport_step, replay_trigger_body,
    HttpReply, ReplayAction, ReplayEvent, ReplayStage,
};
use mcp_probe::report::ProbeStepStatus;
use mcp_probe::transport::TransportType;

fn ok(session: Option<&str>) -> ReplayEvent {
    ReplayEvent::Http(Ok(HttpReply {
        status: 200,
        status_text: "200 OK".to_string(),
        session_header: session.map(|s| s.to_string()),
    }))
}

#[test]
fn replay_run_follows_every_stage() {
    let s = replay_start();
    let (s, steps, action) = replay_step(s, ok(Some(" sess-1 ")));
    assert!(matches!(action, ReplayAction::OpenStream));
    assert_eq!(steps[0].name, "replay.init");
    assert_eq!(s.session_id.as_deref(), Some("sess-1"));
    let (s, _, action) = replay_step(s, ok(None));
    assert!(matches!(action, ReplayAction::Trigger));
    let (s, steps, action) = replay_step(
        s,
        ReplayEvent::Http(Ok(HttpReply { status: 500, status_text: "500 Internal Server Error".to_string(), session_header: None })),
    );
    assert!(matches!(action, ReplayAction::AwaitCapture));
    assert_eq!(steps[0].status, ProbeStepStatus::Error);
    assert_eq!(steps[0].detail.as_deref(), Some("HTTP 500 Internal Server Error"));
    let (s, _, action) = replay_step(s, ReplayEvent::Read(Ok(Some("5/abc".to_string()))));
    assert!(matches!(action, ReplayAction::Close));
    assert_eq!(s.last_event_id.as_deref(), Some("4/abc"));
    let (s, _, action) = replay_step(s, ReplayEvent::Http(Err("closed".to_string())));
    assert!(matches!(action, ReplayAction::Resume));
    let (s, steps, action) = replay_step(s, ok(None));
    assert!(matches!(action, ReplayAction::ReadReplay));
    assert!(steps.is_empty());
    let (s, steps, action) = replay_step(s, ReplayEvent::Read(Ok(Some("5/abc".to_string()))));
    assert!(matches!(action, ReplayAction::Finish));
    assert!(s.stage == ReplayStage::Done);
    assert_eq!(steps[0].name, "replay.resume");
    assert_eq!(steps[0].status, ProbeStepStatus::Passed);
}

#[test]
fn replay_run_stops_on_failures() {
    let (s, steps, action) = replay_step(replay_start(), ok(Some("  ")));
    assert!(matches!(action, ReplayAction::Finish));
    assert!(s.stage == ReplayStage::Done);
    assert_eq!(steps[0].detail.as_deref(), Some("Missing Mcp-Session-Id header."));

    let (s, _, _) = replay_step(replay_start(), ok(Some("s")));
    let (s, _, _) = replay_step(s, ok(None));
    let (s, _, _) = replay_step(s, ok(None));
    let (_, steps, action) = replay_step(s, ReplayEvent::Read(Err("timeout".to_string())));
    assert!(matches!(action, ReplayAction::Finish));
    assert_eq!(steps.len(), 2);
    assert_eq!(steps[1].detail.as_deref(), Some("No event id captured from SSE stream."));

    let (s, _, _) = replay_step(replay_start(), ok(Some("s")));
    let (s, _, _) = replay_step(s, ok(None));
    let (s, _, _) = replay_step(s, ok(None));
    let (_, steps, _) = replay_step(s, ReplayEvent::Read(Ok(Some("abc".to_string()))));
    assert_eq!(steps[0].detail.as_deref(), Some("Unexpected event id format: abc"));
}

#[test]
fn replay_requests_and_transport() {
    assert_eq!(
        replay_initialize_body("2025-06-18"),
        "{\"id\":1,\"jsonrpc\":\"2.0\",\"method\":\"initialize\",\"params\":{\"capabilities\":{},\"clientInfo\":{\"name\":\"mcp-probe\",\"version\":\"0.1\"},\"protocolVersion\":\"2025-06-18\"}}"
    );
    assert_eq!(
        replay_trigger_body(),
        "{\"id\":2,\"jsonrpc\":\"2.0\",\"method\":\"tools/list\",\"params\":{}}"
    );
    assert!(replay_transport_step(Some(TransportType::StreamableHttp)).is_none());
    assert!(replay_transport_step(None).is_none());
    let s = replay_transport_step(Some(TransportType::Sse)).unwrap();
    assert_eq!(s.detail.as_deref(), Some("Replay probe only supports streamable-http transport."));
}
