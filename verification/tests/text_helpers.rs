use hermes::callbacks::decode_callback;
use hermes::callbacks::encode_callback;
use hermes::callbacks::encode_cancel;
use hermes::callbacks::encode_playlist_confirm;
use hermes::callbacks::encode_playlist_format;
use hermes::callbacks::encode_playlist_limit;
use hermes::callbacks::encode_search_callback;
use hermes::callbacks::encode_search_format_callback;
use hermes::callbacks::DownloadMode;
use hermes::callbacks::PlaylistChoice;
use hermes::commands::extract_single_video_url;
use hermes::commands::is_radio_mix;
use hermes::commands::progress_bar;
use hermes::commands::should_edit_progress;
use hermes::commands::task_output_dir;
use hermes::commands::telegram_error_message;
use hermes::commands::truncate_label;
use hermes::errors::classify_worker_error;
use hermes::errors::WorkerError;
use hermes::models::default_download_type;
use hermes::models::TaskStatus;
use hermes::models::TaskType;
use hermes::util::i64_to_string;
use hermes::util::parse_u64;
use hermes::util::parse_usize;
use hermes::util::u64_to_string;

#[test]
fn test_download_mode_tokens() {
    assert_eq!(DownloadMode::Video.as_str(), "video");
    assert_eq!(DownloadMode::Audio.as_str(), "audio");
    assert_eq!(DownloadMode::Video.callback_prefix(), "dv");
    assert_eq!(DownloadMode::Audio.callback_prefix(), "da");
    assert_eq!(DownloadMode::from_prefix("dv"), Some(DownloadMode::Video));
    assert_eq!(DownloadMode::from_prefix("da"), Some(DownloadMode::Audio));
    assert_eq!(DownloadMode::from_prefix("zz"), None);
}

#[test]
fn test_encode_and_decode_quality_callback() {
    let data = encode_callback(&DownloadMode::Video, "a3f2b1", 2);
    assert_eq!(data, "dv:a3f2b1:2");
    let (tag, key, index) = decode_callback(&data).expect("well-formed callback");
    assert_eq!(tag, "dv");
    assert_eq!(key, "a3f2b1");
    assert_eq!(index, 2);
}

#[test]
fn test_encode_and_decode_cancel_callback() {
    let data = encode_cancel("a3f2b1");
    assert_eq!(data, "cx:a3f2b1");
    let (tag, key, index) = decode_callback(&data).expect("cancel decodes");
    assert_eq!(tag, "cx");
    assert_eq!(key, "a3f2b1");
    assert_eq!(index, usize::MAX);
}

#[test]
fn test_decode_rejects_malformed_callbacks() {
    assert!(decode_callback("no colons").is_none());
    assert!(decode_callback("ab:key").is_none());
    assert!(decode_callback("a:b:c:d").is_none());
    assert!(decode_callback("dv:key:notanumber").is_none());
    assert!(decode_callback("dv:key:").is_none());
}

#[test]
fn test_other_callback_encodings() {
    assert_eq!(encode_search_callback("abc123", 4), "sr:abc123:4");
    assert_eq!(encode_search_format_callback("abc123", 4, true), "sf:abc123:4:a");
    assert_eq!(encode_search_format_callback("abc123", 4, false), "sf:abc123:4:v");
    assert_eq!(encode_playlist_confirm("k8", PlaylistChoice::Playlist), "pc:k8:p");
    assert_eq!(encode_playlist_confirm("k8", PlaylistChoice::Single), "pc:k8:s");
    assert_eq!(encode_playlist_confirm("k8", PlaylistChoice::Cancel), "pc:k8:x");
    assert_eq!(encode_playlist_limit("k8", 0), "pl:k8:0");
    assert_eq!(encode_playlist_limit("k8", 25), "pl:k8:25");
    assert_eq!(encode_playlist_format("k8", true), "pf:k8:a");
    assert_eq!(encode_playlist_format("k8", false), "pf:k8:v");
}

#[test]
fn test_number_rendering() {
    assert_eq!(u64_to_string(0), "0");
    assert_eq!(u64_to_string(907), "907");
    assert_eq!(u64_to_string(u64::MAX), "18446744073709551615");
    assert_eq!(i64_to_string(-1001234567890), "-1001234567890");
    assert_eq!(i64_to_string(42), "42");
    assert_eq!(i64_to_string(i64::MIN), "-9223372036854775808");
}

#[test]
fn test_number_parsing() {
    assert_eq!(parse_u64("0"), Some(0));
    assert_eq!(parse_u64("18446744073709551615"), Some(u64::MAX));
    assert_eq!(parse_u64("18446744073709551616"), None);
    assert_eq!(parse_u64(""), None);
    assert_eq!(parse_u64("12a"), None);
    assert_eq!(parse_u64("-3"), None);
    assert_eq!(parse_usize("123"), Some(123));
}

#[test]
fn test_progress_bar_shape() {
    assert_eq!(progress_bar(0), "[                    ]");
    assert_eq!(progress_bar(50), "[==========          ]");
    assert_eq!(progress_bar(100), "[====================]");
}

#[test]
fn test_progress_edit_throttle() {
    assert!(should_edit_progress(3, 10, 15));
    assert!(!should_edit_progress(2, 10, 15));
    assert!(!should_edit_progress(10, 10, 14));
    assert!(should_edit_progress(10, 15, 10));
    assert!(should_edit_progress(3, -1, 4));
}

#[test]
fn test_extract_single_video_url() {
    assert_eq!(
        extract_single_video_url("https://www.youtube.com/watch?v=dQw4w9WgXcQ&list=PLx"),
        "https://www.youtube.com/watch?v=dQw4w9WgXcQ"
    );
    assert_eq!(
        extract_single_video_url("https://youtu.be/dQw4w9WgXcQ?list=PLx"),
        "https://youtu.be/dQw4w9WgXcQ"
    );
    assert_eq!(extract_single_video_url("https://example.com/other"), "https://example.com/other");
}

#[test]
fn test_radio_mix_detection() {
    assert!(is_radio_mix("https://www.youtube.com/watch?v=abc&list=RDabc"));
    assert!(is_radio_mix("https://music.youtube.com/watch?list=RDx"));
    assert!(!is_radio_mix("https://www.youtube.com/playlist?list=PLx"));
}

#[test]
fn test_task_output_dir_layout() {
    assert_eq!(task_output_dir("/downloads", 12345, "task-9"), "/downloads/12345/task-9");
    assert_eq!(task_output_dir("/d", -1001, "t"), "/d/-1001/t");
}

#[test]
fn test_telegram_error_classification() {
    assert!(telegram_error_message("Bad Request: chat not found").starts_with("I don't have access"));
    assert!(telegram_error_message("message to copy not found").starts_with("Message not found"));
    assert!(telegram_error_message("Forbidden: bot was kicked from the chat").starts_with("I'm not a member"));
    assert_eq!(telegram_error_message("boom"), "Failed to forward: boom");
}

#[test]
fn test_truncate_label_behavior() {
    assert_eq!(truncate_label("short", 50), "short");
    let long = "x".repeat(60);
    let cut = truncate_label(&long, 50);
    assert_eq!(cut.chars().count(), 50);
    assert!(cut.ends_with('\u{2026}'));
}

#[test]
fn test_worker_error_classification() {
    assert!(matches!(
        classify_worker_error("NETWORK_TIMEOUT", "m", false, 60),
        WorkerError::NetworkTimeout
    ));
    assert!(matches!(
        classify_worker_error("SERVICE_UNAVAILABLE", "m", false, 60),
        WorkerError::NetworkTimeout
    ));
    assert!(matches!(
        classify_worker_error("RATE_LIMITED", "m", false, 120),
        WorkerError::RateLimited { retry_after_secs: 120 }
    ));
    assert!(matches!(
        classify_worker_error("REQUIRE_AUTH", "m", false, 60),
        WorkerError::AuthRequired
    ));
    assert!(matches!(
        classify_worker_error("VIDEO_PRIVATE", "gone", false, 60),
        WorkerError::VideoUnavailable(m) if m == "gone"
    ));
    assert!(matches!(
        classify_worker_error("SOMETHING_ELSE", "m", true, 60),
        WorkerError::Remote { code, retriable: true, .. } if code == "SOMETHING_ELSE"
    ));
}

#[test]
fn test_worker_error_retriability() {
    assert!(WorkerError::NetworkTimeout.is_retriable());
    assert!(WorkerError::RateLimited { retry_after_secs: 5 }.is_retriable());
    assert!(WorkerError::Remote {
        code: "X".into(),
        message: "m".into(),
        retriable: true
    }
    .is_retriable());
    assert!(!WorkerError::Remote {
        code: "X".into(),
        message: "m".into(),
        retriable: false
    }
    .is_retriable());
    assert!(!WorkerError::AuthRequired.is_retriable());
    assert!(!WorkerError::VideoUnavailable("m".into()).is_retriable());
    assert!(!WorkerError::Unknown("m".into()).is_retriable());
}

#[test]
fn test_from_ipc_data_classifies_by_code() {
    let data: serde_json::Value = serde_json::from_str(
        r#"{"error_code":"RATE_LIMITED","message":"slow down","retry_after":30}"#,
    )
    .unwrap();
    assert!(matches!(
        WorkerError::from_ipc_data(&data),
        WorkerError::RateLimited { retry_after_secs: 30 }
    ));
    let empty: serde_json::Value = serde_json::from_str("{}").unwrap();
    assert!(matches!(
        WorkerError::from_ipc_data(&empty),
        WorkerError::Remote { code, retriable: false, .. } if code == "UNKNOWN"
    ));
}

#[test]
fn test_model_tokens() {
    assert_eq!(TaskStatus::Queued.as_str(), "queued");
    assert_eq!(TaskStatus::Error.as_str(), "error");
    assert_eq!(TaskType::TgFile.as_str(), "tg_file");
    assert_eq!(TaskType::Search.as_str(), "search");
    assert_eq!(default_download_type(), "audio");
}
