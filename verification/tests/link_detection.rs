use hermes::links::detect_links;
use hermes::links::DetectedLink;

#[test]
fn test_youtube_video() {
    let links = detect_links("Check this out: https://www.youtube.com/watch?v=dQw4w9WgXcQ");
    assert_eq!(links.len(), 1);
    assert!(matches!(&links[0], DetectedLink::YoutubeVideo { video_id, .. } if video_id == "dQw4w9WgXcQ"));
}

#[test]
fn test_youtu_be_short_url() {
    let links = detect_links("https://youtu.be/dQw4w9WgXcQ");
    assert_eq!(links.len(), 1);
    assert!(matches!(&links[0], DetectedLink::YoutubeVideo { .. }));
}

#[test]
fn test_playlist() {
    let links = detect_links("https://www.youtube.com/playlist?list=PLrAXtmErZgOeiKm4sgNOknGvNjby9efdf");
    assert_eq!(links.len(), 1);
    assert!(links[0].is_playlist());
}

#[test]
fn test_youtube_short() {
    let links = detect_links("https://www.youtube.com/shorts/abc123def45");
    assert_eq!(links.len(), 1);
    assert!(matches!(&links[0], DetectedLink::YoutubeShort { .. }));
}

#[test]
fn test_youtube_music() {
    let links = detect_links("https://music.youtube.com/watch?v=dQw4w9WgXcQ");
    assert_eq!(links.len(), 1);
    assert!(matches!(&links[0], DetectedLink::YoutubeMusic { .. }));
}

#[test]
fn test_no_links() {
    let links = detect_links("Just a regular message with no links");
    assert!(links.is_empty());
}

#[test]
fn test_multiple_links() {
    let text = "Download https://youtu.be/abc12345678 and https://www.youtube.com/watch?v=xyz98765432";
    let links = detect_links(text);
    assert_eq!(links.len(), 2);
}

#[test]
fn test_ipc_action() {
    let video = DetectedLink::YoutubeVideo { url: "test".into(), video_id: "id".into() };
    assert_eq!(video.ipc_action(), "youtube_dl");

    let playlist = DetectedLink::YoutubePlaylist { url: "test".into(), playlist_id: "id".into() };
    assert_eq!(playlist.ipc_action(), "playlist");

    let tg = DetectedLink::TelegramFile {
        url: "test".into(), username: Some("ch".into()), channel_id: None, message_id: 1,
    };
    assert_eq!(tg.ipc_action(), "telegram_forward");
}

#[test]
fn test_telegram_public_link() {
    let links = detect_links("Check this https://t.me/somechannel/123");
    assert_eq!(links.len(), 1);
    assert!(links[0].is_supported());
    assert!(links[0].is_telegram());
    if let DetectedLink::TelegramFile { username, message_id, .. } = &links[0] {
        assert_eq!(username.as_deref(), Some("somechannel"));
        assert_eq!(*message_id, 123);
    } else {
        panic!("Expected TelegramFile");
    }
}

#[test]
fn test_telegram_private_link() {
    let links = detect_links("https://t.me/c/1234567890/456");
    assert_eq!(links.len(), 1);
    assert!(links[0].is_telegram());
    if let DetectedLink::TelegramFile { channel_id, message_id, .. } = &links[0] {
        assert_eq!(*channel_id, Some(-1001234567890));
        assert_eq!(*message_id, 456);
    } else {
        panic!("Expected TelegramFile");
    }
}

#[test]
fn test_telegram_s_prefix() {
    let links = detect_links("https://t.me/s/mychannel/789");
    assert_eq!(links.len(), 1);
    assert!(links[0].is_telegram());
    if let DetectedLink::TelegramFile { username, .. } = &links[0] {
        assert_eq!(username.as_deref(), Some("mychannel"));
    } else {
        panic!("Expected TelegramFile");
    }
}

#[test]
fn test_telegram_batch_links() {
    let text = "Download these:\nhttps://t.me/somechannel/100\nhttps://t.me/somechannel/101\nhttps://t.me/somechannel/102";
    let links = detect_links(text);
    assert_eq!(links.len(), 3);
    assert!(links.iter().all(|l| l.is_telegram()));
}

#[test]
fn test_generic_url_unsupported() {
    let links = detect_links("Download from https://example.com/file.mp4");
    assert_eq!(links.len(), 1);
    assert!(matches!(&links[0], DetectedLink::Unsupported { .. }));
}

#[test]
fn test_youtube_takes_priority_over_generic() {
    let links = detect_links("https://www.youtube.com/watch?v=dQw4w9WgXcQ");
    assert_eq!(links.len(), 1);
    assert!(links[0].is_supported());
}

#[test]
fn test_first_link_is_first_match() {
    let first = hermes::links::detect_first_link("see https://youtu.be/abc12345678 now")
        .expect("link expected");
    assert!(matches!(&first, DetectedLink::YoutubeVideo { video_id, .. } if video_id == "abc12345678"));
    assert!(hermes::links::detect_first_link("nothing here").is_none());
}

#[test]
fn test_video_id_deduplicated_across_kinds() {
    let text = "https://music.youtube.com/watch?v=dQw4w9WgXcQ and https://www.youtube.com/watch?v=dQw4w9WgXcQ";
    let links = detect_links(text);
    assert_eq!(links.len(), 1);
    assert!(matches!(&links[0], DetectedLink::YoutubeMusic { .. }));
}
