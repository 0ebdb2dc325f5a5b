use hermes::sessions::CallbackStateStore;
use hermes::sessions::FormatOption;
use hermes::sessions::PendingSelection;
use hermes::sessions::PlaylistPending;
use hermes::sessions::PlaylistStateStore;
use hermes::sessions::SearchPending;
use hermes::sessions::SearchResultItem;
use hermes::sessions::SearchStateStore;

fn selection(chat: i64) -> PendingSelection {
    PendingSelection {
        chat_id: chat,
        url: "https://youtu.be/abc12345678".to_string(),
        message_id: 10,
        formats: vec![FormatOption {
            format_id: "22".to_string(),
            label: "720p".to_string(),
            extract_audio: false,
            audio_format: None,
            audio_quality: None,
        }],
        title: "A title".to_string(),
    }
}

#[test]
fn test_take_consumes_once() {
    let mut store = CallbackStateStore::new();
    store.store("k1".to_string(), selection(5), 100);
    let got = store.take("k1").expect("stored selection");
    assert_eq!(got.chat_id, 5);
    assert_eq!(got.url, "https://youtu.be/abc12345678");
    assert_eq!(got.formats.len(), 1);
    // The second take finds nothing: replays after use fail closed.
    assert!(store.take("k1").is_none());
}

#[test]
fn test_peek_returns_identical_payload_repeatedly() {
    let mut store = SearchStateStore::new();
    store.store(
        "s1".to_string(),
        SearchPending {
            results: vec![
                SearchResultItem { url: "u1".to_string(), title: "t1".to_string() },
                SearchResultItem { url: "u2".to_string(), title: "t2".to_string() },
            ],
        },
        100,
    );
    for _ in 0..3 {
        let p = store.peek("s1").expect("still stored");
        assert_eq!(p.results.len(), 2);
        assert_eq!(p.results[0].url, "u1");
        assert_eq!(p.results[1].title, "t2");
    }
    // Until the TTL sweep removes it.
    store.cleanup_expired(300, 500);
    assert!(store.peek("s1").is_none());
}

#[test]
fn test_ttl_sweep_removes_only_old_entries() {
    // The sweep evicts by age alone, across all three store kinds.
    let mut cb = CallbackStateStore::new();
    cb.store("old".to_string(), selection(1), 100);
    cb.store("young".to_string(), selection(2), 450);
    cb.cleanup_expired(300, 500);
    assert!(cb.take("old").is_none());
    assert!(cb.take("young").is_some());

    let mut se = SearchStateStore::new();
    se.store("old".to_string(), SearchPending { results: vec![] }, 100);
    se.store("young".to_string(), SearchPending { results: vec![] }, 450);
    se.cleanup_expired(300, 500);
    assert!(se.peek("old").is_none());
    assert!(se.peek("young").is_some());

    let mut pl = PlaylistStateStore::new();
    pl.store(
        "old".to_string(),
        PlaylistPending {
            chat_id: 1,
            url: "u".to_string(),
            message_id: 1,
            is_single: false,
            limit: None,
        },
        100,
    );
    pl.store(
        "young".to_string(),
        PlaylistPending {
            chat_id: 2,
            url: "u".to_string(),
            message_id: 2,
            is_single: false,
            limit: None,
        },
        450,
    );
    pl.cleanup_expired(300, 500);
    assert!(pl.get("old").is_none());
    assert!(pl.get("young").is_some());
}

#[test]
fn test_sweep_boundary_is_exclusive() {
    // An entry exactly as old as the TTL is removed; one second younger
    // survives.
    let mut store = CallbackStateStore::new();
    store.store("edge".to_string(), selection(1), 200);
    store.store("inside".to_string(), selection(2), 201);
    store.cleanup_expired(300, 500);
    assert!(store.take("edge").is_none());
    assert!(store.take("inside").is_some());
}

#[test]
fn test_playlist_staged_mutation() {
    let mut store = PlaylistStateStore::new();
    store.store(
        "p1".to_string(),
        PlaylistPending {
            chat_id: 9,
            url: "https://www.youtube.com/playlist?list=PLx".to_string(),
            message_id: 44,
            is_single: false,
            limit: None,
        },
        100,
    );
    // scope tap, then limit tap
    assert!(store.set_single("p1", true));
    assert!(store.set_limit("p1", Some(25)));
    {
        let p = store.get("p1").expect("still stored");
        assert!(p.is_single);
        assert_eq!(p.limit, Some(25));
        assert_eq!(p.chat_id, 9);
        assert_eq!(p.message_id, 44);
    }
    // Mutation kept the original stamp: a sweep by the first stamp's age
    // still removes the entry.
    let mut swept = PlaylistStateStore::new();
    swept.store(
        "p2".to_string(),
        PlaylistPending {
            chat_id: 1,
            url: "u".to_string(),
            message_id: 1,
            is_single: false,
            limit: None,
        },
        100,
    );
    swept.set_limit("p2", Some(10));
    swept.cleanup_expired(300, 500);
    assert!(swept.get("p2").is_none());

    // The final retrieval consumes the flow.
    let done = store.take("p1").expect("flow present");
    assert!(done.is_single);
    assert!(store.take("p1").is_none());
    // Mutating an unknown key changes nothing.
    assert!(!store.set_single("p1", false));
}

#[test]
fn test_store_replaces_same_key() {
    let mut store = SearchStateStore::new();
    store.store(
        "k".to_string(),
        SearchPending { results: vec![SearchResultItem { url: "a".into(), title: "a".into() }] },
        100,
    );
    store.store(
        "k".to_string(),
        SearchPending { results: vec![SearchResultItem { url: "b".into(), title: "b".into() }] },
        200,
    );
    let p = store.peek("k").expect("stored");
    assert_eq!(p.results[0].url, "b");
}
