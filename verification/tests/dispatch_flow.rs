use hermes::dispatch::Dispatcher;
use hermes::dispatch::WaitOutcome;
use hermes::errors::IpcError;
use hermes::ipc::health_check_request;
use hermes::ipc::IPCEvent;
use hermes::ipc::IPCResponse;

fn resp(task_id: &str, event: IPCEvent) -> IPCResponse {
    IPCResponse { task_id: task_id.to_string(), event, data: serde_json::Value::Null }
}

#[test]
fn test_send_fails_fast_when_not_running() {
    let mut d = Dispatcher::new();
    let req = health_check_request("h1");
    assert!(matches!(d.send(&req), Err(IpcError::NotRunning)));
}

#[test]
fn test_responses_delivered_in_parse_order() {
    let mut d = Dispatcher::new();
    d.mark_started();
    let req = health_check_request("x");
    d.send(&req).unwrap();

    assert!(d.route(resp("x", IPCEvent::Progress)));
    assert!(d.route(resp("x", IPCEvent::Done)));

    // An unrecognized id is dropped without disrupting the rest.
    assert!(!d.route(resp("stranger", IPCEvent::Done)));

    let first = d.pop_response("x").expect("first buffered response");
    assert_eq!(first.event, IPCEvent::Progress);
    let second = d.pop_response("x").expect("second buffered response");
    assert_eq!(second.event, IPCEvent::Done);
    assert!(d.pop_response("x").is_none());
}

#[test]
fn test_wait_skips_progress_and_returns_terminal() {
    let mut d = Dispatcher::new();
    d.mark_started();
    let req = health_check_request("j");
    d.send(&req).unwrap();
    d.route(resp("j", IPCEvent::Progress));
    d.route(resp("j", IPCEvent::Progress));
    d.route(resp("j", IPCEvent::Done));

    match d.resolve_wait("j") {
        WaitOutcome::Resolved(r) => {
            assert_eq!(r.event, IPCEvent::Done);
            assert_eq!(r.task_id, "j");
        }
        WaitOutcome::NotYet => panic!("terminal response was buffered"),
    }
    // The correlation entry is gone afterwards.
    assert!(!d.route(resp("j", IPCEvent::Done)));
}

#[test]
fn test_wait_without_terminal_keeps_entry() {
    let mut d = Dispatcher::new();
    d.mark_started();
    let req = health_check_request("j2");
    d.send(&req).unwrap();
    d.route(resp("j2", IPCEvent::Progress));

    assert!(matches!(d.resolve_wait("j2"), WaitOutcome::NotYet));
    // Still registered: a later response is delivered.
    assert!(d.route(resp("j2", IPCEvent::Done)));
    assert!(matches!(d.resolve_wait("j2"), WaitOutcome::Resolved(_)));
}

#[test]
fn test_timed_out_caller_removes_its_entry() {
    let mut d = Dispatcher::new();
    d.mark_started();
    let req = health_check_request("slow");
    d.send(&req).unwrap();
    assert!(matches!(d.resolve_wait("slow"), WaitOutcome::NotYet));
    // The caller gives up: explicit cleanup removes the entry.
    d.remove_pending("slow");
    assert!(!d.route(resp("slow", IPCEvent::Done)));
}

#[test]
fn test_health_check_answered_verbatim() {
    let mut d = Dispatcher::new();
    d.mark_started();
    let req = health_check_request("a");
    let line = d.send(&req).unwrap();
    assert_eq!(line, r#"{"task_id":"a","action":"health_check","params":{}}"#);

    let answer = IPCResponse::from_json_line(
        r#"{"task_id":"a","event":"health_ok","data":{"version":"1.0"}}"#,
    )
    .unwrap();
    assert!(d.route(answer));
    match d.resolve_wait("a") {
        WaitOutcome::Resolved(r) => {
            assert_eq!(r.task_id, "a");
            assert_eq!(r.event, IPCEvent::HealthOk);
            assert_eq!(r.data_string("version"), Some("1.0".to_string()));
        }
        WaitOutcome::NotYet => panic!("health answer was routed"),
    }
}

#[test]
fn test_stream_close_fails_sends_until_restart() {
    let mut d = Dispatcher::new();
    d.mark_started();
    let req = health_check_request("mid");
    d.send(&req).unwrap();

    // The worker's output stream closes mid-task: no terminal response is
    // ever delivered, so the waiter keeps timing out rather than hanging.
    d.mark_stopped();
    assert!(matches!(d.resolve_wait("mid"), WaitOutcome::NotYet));
    assert!(matches!(d.send(&req), Err(IpcError::NotRunning)));

    // After a stop and start cycle, sends flow again.
    d.mark_started();
    assert!(d.send(&req).is_ok());
}

#[test]
fn test_send_replaces_stale_entry() {
    let mut d = Dispatcher::new();
    d.mark_started();
    let req = health_check_request("r");
    d.send(&req).unwrap();
    d.route(resp("r", IPCEvent::Progress));
    // A fresh send for the same id starts from an empty buffer.
    d.send(&req).unwrap();
    assert!(d.pop_response("r").is_none());
}
