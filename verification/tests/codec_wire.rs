use hermes::ipc::download_request;
use hermes::ipc::get_formats_request;
use hermes::ipc::health_check_request;
use hermes::ipc::playlist_request;
use hermes::ipc::search_request;
use hermes::ipc::IPCEvent;
use hermes::ipc::IPCResponse;

#[test]
fn test_request_serialization() {
    let req = search_request("task-1", "lo-fi beats", 5);
    let json = req.to_json_line();
    assert!(json.contains("youtube_search"));
    assert!(json.contains("lo-fi beats"));
}

#[test]
fn test_response_deserialization() {
    let json = r#"{"task_id":"t1","event":"progress","data":{"percent":42,"speed":"1.2MB/s"}}"#;
    let resp = IPCResponse::from_json_line(json).unwrap();
    assert_eq!(resp.task_id, "t1");
    assert_eq!(resp.event, IPCEvent::Progress);
    assert_eq!(resp.progress_percent(), Some(42));
}

#[test]
fn test_error_response() {
    let json = r#"{"task_id":"t2","event":"error","data":{"message":"Video private","error_code":"VIDEO_PRIVATE"}}"#;
    let resp = IPCResponse::from_json_line(json).unwrap();
    assert!(resp.is_error());
    assert_eq!(resp.error_message(), Some("Video private".to_string()));
    assert_eq!(resp.error_code(), Some("VIDEO_PRIVATE".to_string()));
}

#[test]
fn test_health_check_line_exact() {
    let line = health_check_request("a").to_json_line();
    assert_eq!(line, r#"{"task_id":"a","action":"health_check","params":{}}"#);
}

#[test]
fn test_download_request_line_exact() {
    let line = download_request("t9", "https://youtu.be/abc12345678", true, "/tmp/out").to_json_line();
    assert_eq!(
        line,
        r#"{"task_id":"t9","action":"youtube_dl","url":"https://youtu.be/abc12345678","params":{"extract_audio":true,"audio_format":"mp3","audio_quality":"192","output_dir":"/tmp/out"}}"#
    );
}

#[test]
fn test_playlist_request_line_exact() {
    let line = playlist_request("p1", "https://example.invalid/list", "/data").to_json_line();
    assert_eq!(
        line,
        r#"{"task_id":"p1","action":"playlist","url":"https://example.invalid/list","params":{"extract_audio":true,"audio_format":"mp3","output_dir":"/data","archive_max_size_mb":100}}"#
    );
}

#[test]
fn test_formats_request_line_exact() {
    let line = get_formats_request("f1", "u", "video").to_json_line();
    assert_eq!(
        line,
        r#"{"task_id":"f1","action":"get_formats","url":"u","params":{"mode":"video"}}"#
    );
}

#[test]
fn test_json_escaping_in_request() {
    let req = search_request("id\"with\\quirks", "a \"quoted\" query\n", 1);
    let line = req.to_json_line();
    assert_eq!(
        line,
        "{\"task_id\":\"id\\\"with\\\\quirks\",\"action\":\"youtube_search\",\"params\":{\"query\":\"a \\\"quoted\\\" query\\u000a\",\"limit\":1}}"
    );
    // The escaped line is valid JSON and round-trips through a parser.
    let v: serde_json::Value = serde_json::from_str(&line).unwrap();
    assert_eq!(v.get("task_id").and_then(|t| t.as_str()), Some("id\"with\\quirks"));
    assert_eq!(
        v.get("params").and_then(|p| p.get("query")).and_then(|q| q.as_str()),
        Some("a \"quoted\" query\n")
    );
}

#[test]
fn test_event_token_round_trip() {
    let events = [
        IPCEvent::Progress,
        IPCEvent::Done,
        IPCEvent::Error,
        IPCEvent::SearchResults,
        IPCEvent::VideoInfo,
        IPCEvent::FormatList,
        IPCEvent::HealthOk,
        IPCEvent::CacheStats,
        IPCEvent::CacheCleanupDone,
        IPCEvent::Retry,
    ];
    for e in events {
        assert_eq!(IPCEvent::from_token(e.token()), Some(e));
    }
    assert_eq!(IPCEvent::from_token("nonsense"), None);
}

#[test]
fn test_malformed_lines_are_rejected() {
    assert!(IPCResponse::from_json_line("not json at all").is_err());
    assert!(IPCResponse::from_json_line(r#"{"event":"done","data":{}}"#).is_err());
    assert!(IPCResponse::from_json_line(r#"{"task_id":"x","event":"warp","data":{}}"#).is_err());
    // A missing data member parses as an empty bag.
    let resp = IPCResponse::from_json_line(r#"{"task_id":"x","event":"done"}"#).unwrap();
    assert!(resp.is_done());
    assert_eq!(resp.progress_percent(), None);
}

#[test]
fn test_percent_is_clamped() {
    let resp = IPCResponse::from_json_line(
        r#"{"task_id":"t","event":"progress","data":{"percent":400}}"#,
    )
    .unwrap();
    assert_eq!(resp.progress_percent(), Some(100));
}

#[test]
fn test_parse_format_options_skips_incomplete_entries() {
    let vals: Vec<serde_json::Value> = vec![
        serde_json::from_str(r#"{"format_id":"22","label":"720p"}"#).unwrap(),
        serde_json::from_str(r#"{"label":"no id"}"#).unwrap(),
        serde_json::from_str(r#"{"format_id":"140","label":"audio","extract_audio":true,"audio_format":"m4a","audio_quality":"128"}"#).unwrap(),
        serde_json::from_str(r#"{"format_id":7,"label":"bad id type"}"#).unwrap(),
    ];
    let opts = hermes::sessions::parse_format_options(&vals);
    assert_eq!(opts.len(), 2);
    assert_eq!(opts[0].format_id, "22");
    assert_eq!(opts[0].label, "720p");
    assert!(!opts[0].extract_audio);
    assert_eq!(opts[0].audio_format, None);
    assert_eq!(opts[1].format_id, "140");
    assert!(opts[1].extract_audio);
    assert_eq!(opts[1].audio_format.as_deref(), Some("m4a"));
    assert_eq!(opts[1].audio_quality.as_deref(), Some("128"));
}
