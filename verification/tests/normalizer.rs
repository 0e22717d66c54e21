use tgfeed::telegram::parsers::{
    parse_message_content, plain_text, FileInfo, FormattedText, RawMessageContent,
};
use tgfeed::telegram::{
    filter_channels, history_to_posts, is_channel, new_file, normalize_update, search_match,
    ChatKind, NewUpdate, RawChat, RawMessage, RawUpdate,
};

fn text(runs: &[&str]) -> FormattedText {
    FormattedText { runs: runs.iter().map(|s| s.to_string()).collect() }
}

fn image(id: i32, unique_id: &str, local_path: &str) -> FileInfo {
    FileInfo { local_path: local_path.to_string(), id, unique_id: unique_id.to_string() }
}

#[test]
fn plain_text_concatenates_runs() {
    assert_eq!(plain_text(&text(&["hel", "lo ", "world"])), "hello world");
    assert_eq!(plain_text(&text(&[])), "");
}

#[test]
fn new_file_drops_an_empty_path() {
    let f = new_file(&image(7, "UID", ""), 42);
    assert_eq!(f.local_path, None);
    assert_eq!(f.remote_file, 7);
    assert_eq!(f.remote_id, "UID");
    assert_eq!(f.telegram_post_id, 42);
    let g = new_file(&image(7, "UID", "/tmp/x"), 42);
    assert_eq!(g.local_path, Some("/tmp/x".to_string()));
}

#[test]
fn parse_recognizes_media_kinds_without_downloading_them() {
    for content in [
        RawMessageContent::Document { caption: text(&["doc"]) },
        RawMessageContent::Audio { caption: text(&["doc"]) },
        RawMessageContent::Video { caption: text(&["doc"]) },
        RawMessageContent::Animation { caption: text(&["doc"]) },
    ] {
        let (body, file) = parse_message_content(&content, 1).unwrap();
        assert_eq!(body, "doc");
        assert!(file.is_none());
    }
}

#[test]
fn parse_extracts_the_image_of_a_photo() {
    let content = RawMessageContent::Photo {
        caption: text(&["pic"]),
        image: image(9, "IMG", ""),
    };
    let (body, file) = parse_message_content(&content, 5).unwrap();
    assert_eq!(body, "pic");
    let file = file.unwrap();
    assert_eq!(file.remote_file, 9);
    assert_eq!(file.remote_id, "IMG");
    assert_eq!(file.telegram_post_id, 5);
}

#[test]
fn parse_discards_unsupported_content() {
    assert!(parse_message_content(&RawMessageContent::Other, 1).is_none());
}

#[test]
fn channel_post_normalizes_to_one_post_event() {
    let update = RawUpdate::NewMessage {
        message: RawMessage {
            id: 10,
            chat_id: 500,
            date: 1600000000,
            content: RawMessageContent::Text { text: text(&["hello"]) },
        },
        is_channel_post: true,
    };
    let events = normalize_update(&update);
    assert_eq!(events.len(), 1);
    match &events[0] {
        NewUpdate::Post(p) => {
            assert_eq!(p.telegram_id, 10);
            assert_eq!(p.chat_id, 500);
            assert_eq!(p.pub_date, 1600000000);
            assert_eq!(p.content, "hello");
            assert_eq!(p.title, None);
        }
        _ => panic!("expected a post event"),
    }
}

#[test]
fn photo_post_emits_the_file_event_before_the_post() {
    let update = RawUpdate::NewMessage {
        message: RawMessage {
            id: 10,
            chat_id: 500,
            date: 1,
            content: RawMessageContent::Photo {
                caption: text(&["hello"]),
                image: image(77, "IMG1", ""),
            },
        },
        is_channel_post: true,
    };
    let events = normalize_update(&update);
    assert_eq!(events.len(), 2);
    match &events[0] {
        NewUpdate::File(f) => {
            assert_eq!(f.remote_id, "IMG1");
            assert_eq!(f.local_path, None);
            assert_eq!(f.telegram_post_id, 10);
        }
        _ => panic!("the file event must come first"),
    }
    assert!(matches!(&events[1], NewUpdate::Post(_)));
}

#[test]
fn non_channel_messages_are_discarded() {
    let update = RawUpdate::NewMessage {
        message: RawMessage {
            id: 10,
            chat_id: 500,
            date: 1,
            content: RawMessageContent::Text { text: text(&["hello"]) },
        },
        is_channel_post: false,
    };
    assert!(normalize_update(&update).is_empty());
}

#[test]
fn completed_download_normalizes_to_one_file_event() {
    let update = RawUpdate::File {
        file: image(77, "IMG1", "/tmp/a.jpg"),
        downloading_completed: true,
    };
    let events = normalize_update(&update);
    assert_eq!(events.len(), 1);
    match &events[0] {
        NewUpdate::File(f) => {
            assert_eq!(f.local_path, Some("/tmp/a.jpg".to_string()));
            assert_eq!(f.remote_id, "IMG1");
        }
        _ => panic!("expected a file event"),
    }
}

#[test]
fn incomplete_download_is_discarded() {
    let update = RawUpdate::File { file: image(77, "IMG1", ""), downloading_completed: false };
    assert!(normalize_update(&update).is_empty());
}

#[test]
fn out_of_scope_updates_are_discarded() {
    for update in [
        RawUpdate::ChatPhoto,
        RawUpdate::ChatTitle,
        RawUpdate::MessageContent,
        RawUpdate::NewChat,
        RawUpdate::Poll,
        RawUpdate::Other,
    ] {
        assert!(normalize_update(&update).is_empty());
    }
}

fn chat(id: i64, title: &str, username: &str, kind: ChatKind) -> RawChat {
    RawChat { id, title: title.to_string(), username: username.to_string(), kind }
}

#[test]
fn only_supergroup_channels_count_as_channels() {
    assert!(is_channel(&chat(1, "t", "u", ChatKind::Supergroup { is_channel: true })));
    assert!(!is_channel(&chat(1, "t", "u", ChatKind::Supergroup { is_channel: false })));
    assert!(!is_channel(&chat(1, "t", "u", ChatKind::Private)));
    assert!(!is_channel(&chat(1, "t", "u", ChatKind::BasicGroup)));
    assert!(!is_channel(&chat(1, "t", "u", ChatKind::Secret)));
    assert!(!is_channel(&chat(1, "t", "u", ChatKind::Unknown)));
}

#[test]
fn search_accepts_only_an_exact_channel_match() {
    let found = search_match(
        "rustnews",
        Some(chat(42, "Rust News", "rustnews", ChatKind::Supergroup { is_channel: true })),
    )
    .unwrap();
    assert_eq!(found.username, "rustnews");
    assert_eq!(found.telegram_id, 42);
    assert_eq!(found.title, "Rust News");

    // a fuzzy match under another handle is rejected
    assert!(search_match(
        "rustnews",
        Some(chat(42, "Rust News", "rust_news_2", ChatKind::Supergroup { is_channel: true })),
    )
    .is_none());
    // a non-channel chat is rejected
    assert!(search_match("rustnews", Some(chat(42, "Rust News", "rustnews", ChatKind::Private)))
        .is_none());
    assert!(search_match("rustnews", None).is_none());
}

#[test]
fn catalog_filter_keeps_channels_only() {
    let chats = vec![
        chat(1, "A", "a", ChatKind::Supergroup { is_channel: true }),
        chat(2, "B", "b", ChatKind::Private),
        chat(3, "C", "c", ChatKind::Supergroup { is_channel: true }),
        chat(4, "D", "d", ChatKind::Supergroup { is_channel: false }),
    ];
    let channels = filter_channels(&chats);
    assert_eq!(channels.len(), 2);
    assert_eq!(channels[0].username, "a");
    assert_eq!(channels[1].username, "c");
}

#[test]
fn history_normalization_skips_a_bad_message() {
    let messages = vec![
        RawMessage {
            id: 1,
            chat_id: 9,
            date: 100,
            content: RawMessageContent::Text { text: text(&["one"]) },
        },
        RawMessage { id: 2, chat_id: 9, date: 101, content: RawMessageContent::Other },
        RawMessage {
            id: 3,
            chat_id: 9,
            date: 102,
            content: RawMessageContent::Photo {
                caption: text(&["three"]),
                image: image(5, "H3", ""),
            },
        },
    ];
    let (posts, files) = history_to_posts(9, &messages);
    assert_eq!(posts.len(), 2);
    assert_eq!(posts[0].telegram_id, 1);
    assert_eq!(posts[0].content, "one");
    assert_eq!(posts[1].telegram_id, 3);
    assert_eq!(posts[1].content, "three");
    assert_eq!(files.len(), 1);
    assert_eq!(files[0].remote_id, "H3");
}
