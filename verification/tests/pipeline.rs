use tgfeed::app::{App, BackfillStep, FeedLookup, SyncAction};
use tgfeed::db::DbService;
use tgfeed::models::File;
use tgfeed::relay::{Relay, SendOutcome};
use tgfeed::telegram::parsers::{FileInfo, FormattedText, RawMessageContent};
use tgfeed::telegram::{
    normalize_update, ChatKind, NewUpdate, RawChat, RawMessage, RawUpdate, TelegramService,
};

fn app() -> App {
    App::new(TelegramService::new("h".to_string(), 1, "+1".to_string()), DbService::new())
}

fn text(runs: &[&str]) -> FormattedText {
    FormattedText { runs: runs.iter().map(|s| s.to_string()).collect() }
}

fn file_event(remote_id: &str, remote_file: i32, local_path: Option<&str>) -> NewUpdate {
    NewUpdate::File(File {
        local_path: local_path.map(|s| s.to_string()),
        remote_file,
        remote_id: remote_id.to_string(),
        telegram_post_id: 0,
    })
}

fn probe(remote_id: &str) -> File {
    File { local_path: None, remote_file: 0, remote_id: remote_id.to_string(), telegram_post_id: 0 }
}

#[test]
fn relay_with_capacity_one_drops_the_second_send() {
    let mut relay = Relay::new(1);
    let first = relay.send(file_event("A", 1, None));
    let second = relay.send(file_event("B", 2, None));
    assert_eq!(first, SendOutcome::Accepted);
    // nothing was drained in between, so the second send must signal a drop
    assert_eq!(second, SendOutcome::Dropped);
    // the accepted event is still delivered
    match relay.recv() {
        Some(NewUpdate::File(f)) => assert_eq!(f.remote_id, "A"),
        _ => panic!("the first event must survive"),
    }
    assert!(relay.recv().is_none());
}

#[test]
fn relay_preserves_delivery_order() {
    let mut relay = Relay::new(3);
    for (rid, handle) in [("A", 1), ("B", 2), ("C", 3)] {
        assert_eq!(relay.send(file_event(rid, handle, None)), SendOutcome::Accepted);
    }
    let mut seen = Vec::new();
    while let Some(NewUpdate::File(f)) = relay.recv() {
        seen.push(f.remote_id);
    }
    assert_eq!(seen, vec!["A", "B", "C"]);
}

#[test]
fn a_new_file_event_is_stored_and_its_download_requested() {
    let mut app = app();
    let act = app.handle_update(file_event("IMG", 7, None));
    assert!(matches!(act, Some(SyncAction::RequestDownload(7))));
    let stored = app.db.get_file(&probe("IMG")).unwrap();
    assert_eq!(stored.local_path, None);
}

#[test]
fn the_path_transition_raises_the_ready_signal_once() {
    let mut app = app();
    app.handle_update(file_event("IMG", 7, None));
    let act = app.handle_update(file_event("IMG", 8, Some("/tmp/a.jpg")));
    match act {
        Some(SyncAction::FileReady(rid)) => assert_eq!(rid, "IMG"),
        _ => panic!("the absent-to-present transition must signal readiness"),
    }
    // re-delivering the same completed event changes nothing and stays silent
    let act = app.handle_update(file_event("IMG", 8, Some("/tmp/a.jpg")));
    assert!(act.is_none());
    let stored = app.db.get_file(&probe("IMG")).unwrap();
    assert_eq!(stored.local_path, Some("/tmp/a.jpg".to_string()));
    assert_eq!(stored.remote_file, 8);
}

#[test]
fn a_merge_never_loses_the_local_path() {
    let mut app = app();
    app.handle_update(file_event("IMG", 7, None));
    app.handle_update(file_event("IMG", 8, Some("/tmp/a.jpg")));
    // a later event without a path (a fresh session's handle refresh) keeps it
    app.handle_update(file_event("IMG", 9, None));
    let stored = app.db.get_file(&probe("IMG")).unwrap();
    assert_eq!(stored.local_path, Some("/tmp/a.jpg".to_string()));
    assert_eq!(stored.remote_file, 9);
}

#[test]
fn events_for_other_identifiers_never_disturb_a_record() {
    let mut app = app();
    app.handle_update(file_event("IMG", 7, None));
    // traffic for other identifiers arrives interleaved
    app.handle_update(file_event("OTHER", 1, Some("/tmp/o")));
    app.handle_update(file_event("IMG", 8, Some("/tmp/a.jpg")));
    app.handle_update(file_event("THIRD", 2, None));
    app.handle_update(file_event("IMG", 9, None));
    let stored = app.db.get_file(&probe("IMG")).unwrap();
    assert_eq!(stored.local_path, Some("/tmp/a.jpg".to_string()));
    let other = app.db.get_file(&probe("OTHER")).unwrap();
    assert_eq!(other.local_path, Some("/tmp/o".to_string()));
    let third = app.db.get_file(&probe("THIRD")).unwrap();
    assert_eq!(third.local_path, None);
}

#[test]
fn redelivered_post_events_persist_once() {
    let mut app = app();
    let post_event = || {
        NewUpdate::Post(tgfeed::models::Post {
            title: None,
            link: String::new(),
            telegram_id: 10,
            pub_date: 1,
            content: "hello".to_string(),
            chat_id: 500,
        })
    };
    for _ in 0..4 {
        let act = app.handle_update(post_event());
        assert!(act.is_none());
    }
    assert_eq!(app.db.get_channel_post_ids(500, 100), vec![10]);
}

#[test]
fn channel_events_upsert_by_handle() {
    let mut app = app();
    app.handle_update(NewUpdate::Channel(tgfeed::models::NewChannel {
        title: "T1".to_string(),
        telegram_id: 500,
        username: "handle".to_string(),
    }));
    app.handle_update(NewUpdate::Channel(tgfeed::models::NewChannel {
        title: "T2".to_string(),
        telegram_id: 500,
        username: "handle".to_string(),
    }));
    let stored = app.db.get_channel("handle").unwrap();
    assert_eq!(stored.title, "T2");
}

#[test]
fn backfill_search_miss_is_terminal() {
    let app = app();
    assert!(matches!(app.backfill_on_search("handle", None), BackfillStep::ChannelNotFound));
    // a chat under another handle or of another kind is a miss too
    let wrong_handle = RawChat {
        id: 1,
        title: "T".to_string(),
        username: "other".to_string(),
        kind: ChatKind::Supergroup { is_channel: true },
    };
    assert!(matches!(
        app.backfill_on_search("handle", Some(wrong_handle)),
        BackfillStep::ChannelNotFound
    ));
    let not_a_channel = RawChat {
        id: 1,
        title: "T".to_string(),
        username: "handle".to_string(),
        kind: ChatKind::BasicGroup,
    };
    assert!(matches!(
        app.backfill_on_search("handle", Some(not_a_channel)),
        BackfillStep::ChannelNotFound
    ));
}

#[test]
fn backfill_persists_good_messages_and_skips_the_bad_one() {
    let mut app = app();
    let chat = RawChat {
        id: 500,
        title: "T".to_string(),
        username: "handle".to_string(),
        kind: ChatKind::Supergroup { is_channel: true },
    };
    let channel = match app.backfill_on_search("handle", Some(chat)) {
        BackfillStep::FetchHistory(c) => c,
        BackfillStep::ChannelNotFound => panic!("the search matched"),
    };
    let history = vec![
        RawMessage {
            id: 1,
            chat_id: 500,
            date: 100,
            content: RawMessageContent::Text { text: text(&["one"]) },
        },
        RawMessage { id: 2, chat_id: 500, date: 101, content: RawMessageContent::Other },
        RawMessage {
            id: 3,
            chat_id: 500,
            date: 102,
            content: RawMessageContent::Text { text: text(&["three"]) },
        },
    ];
    let downloads = app.backfill_on_history(channel, &history);
    assert!(downloads.is_empty());
    assert_eq!(app.db.get_channel_post_ids(500, 100), vec![1, 3]);
    assert!(app.db.get_channel("handle").is_some());
}

#[test]
fn backfill_returns_the_embedded_image_downloads() {
    let mut app = app();
    let channel = tgfeed::models::NewChannel {
        title: "T".to_string(),
        telegram_id: 500,
        username: "handle".to_string(),
    };
    let history = vec![RawMessage {
        id: 1,
        chat_id: 500,
        date: 100,
        content: RawMessageContent::Photo {
            caption: text(&["pic"]),
            image: FileInfo { local_path: String::new(), id: 77, unique_id: "IMG".to_string() },
        },
    }];
    let downloads = app.backfill_on_history(channel, &history);
    assert_eq!(downloads, vec![77]);
}

#[test]
fn redownload_sweep_lists_files_without_a_path() {
    let mut app = app();
    app.handle_update(file_event("A", 1, None));
    app.handle_update(file_event("B", 2, Some("/tmp/b")));
    app.handle_update(file_event("C", 3, None));
    assert_eq!(app.synchronize_files(), vec![1, 3]);
}

#[test]
fn catalog_sweep_upserts_every_channel() {
    let mut app = app();
    app.synchronize_channels(vec![
        tgfeed::models::NewChannel {
            title: "A".to_string(),
            telegram_id: 1,
            username: "a".to_string(),
        },
        tgfeed::models::NewChannel {
            title: "B".to_string(),
            telegram_id: 2,
            username: "b".to_string(),
        },
    ]);
    assert!(app.db.get_channel("a").is_some());
    assert!(app.db.get_channel("b").is_some());
}

#[test]
fn feed_lookup_asks_for_a_search_only_when_unknown() {
    let mut app = app();
    assert!(matches!(app.get_posts_or_search("handle"), FeedLookup::NeedSearch));
    app.handle_update(NewUpdate::Channel(tgfeed::models::NewChannel {
        title: "T".to_string(),
        telegram_id: 500,
        username: "handle".to_string(),
    }));
    match app.get_posts_or_search("handle") {
        FeedLookup::Found(channel, posts) => {
            assert_eq!(channel.title(), "T");
            assert!(posts.is_empty());
        }
        FeedLookup::NeedSearch => panic!("the channel is known now"),
    }
}

#[test]
fn live_stream_scenario_end_to_end() {
    // incoming stream: a channel post with one embedded image, then the
    // completed download of that image
    let mut app = app();
    let post_update = RawUpdate::NewMessage {
        message: RawMessage {
            id: 10,
            chat_id: 500,
            date: 1600000000,
            content: RawMessageContent::Photo {
                caption: text(&["hello"]),
                image: FileInfo { local_path: String::new(), id: 77, unique_id: "IMG1".to_string() },
            },
        },
        is_channel_post: true,
    };
    let mut relay = Relay::new(20);
    for event in normalize_update(&post_update) {
        assert_eq!(relay.send(event), SendOutcome::Accepted);
    }
    let mut download_requested = false;
    while let Some(event) = relay.recv() {
        if let Some(SyncAction::RequestDownload(handle)) = app.handle_update(event) {
            assert_eq!(handle, 77);
            download_requested = true;
        }
    }
    assert!(download_requested);

    // after the first update: the post is persisted, the file has no path yet
    assert_eq!(app.db.get_channel_post_ids(500, 100), vec![10]);
    let stored = app.db.get_file(&probe("IMG1")).unwrap();
    assert_eq!(stored.local_path, None);

    let done_update = RawUpdate::File {
        file: FileInfo { local_path: "/tmp/a.jpg".to_string(), id: 77, unique_id: "IMG1".to_string() },
        downloading_completed: true,
    };
    let mut became_ready = false;
    for event in normalize_update(&done_update) {
        if let Some(SyncAction::FileReady(rid)) = app.handle_update(event) {
            assert_eq!(rid, "IMG1");
            became_ready = true;
        }
    }
    assert!(became_ready);
    let stored = app.db.get_file(&probe("IMG1")).unwrap();
    assert_eq!(stored.local_path, Some("/tmp/a.jpg".to_string()));
}
