use tgfeed::db::models::{i32_dec, i64_dec, to_feed_post, u64_dec};
use tgfeed::db::DbService;
use tgfeed::models::{File, NewChannel, Post};

fn channel(title: &str, username: &str, telegram_id: i64) -> NewChannel {
    NewChannel { title: title.to_string(), telegram_id, username: username.to_string() }
}

fn post(telegram_id: i64, chat_id: i64, content: &str) -> Post {
    Post {
        title: None,
        link: String::new(),
        telegram_id,
        pub_date: 1600000000,
        content: content.to_string(),
        chat_id,
    }
}

fn probe(remote_id: &str) -> File {
    File { local_path: None, remote_file: 0, remote_id: remote_id.to_string(), telegram_post_id: 0 }
}

#[test]
fn save_channel_inserts_then_updates_in_place() {
    let mut db = DbService::new();
    db.save_channel(channel("Rust News", "rustnews", 42));
    let stored = db.get_channel("rustnews").unwrap();
    assert_eq!(stored.title, "Rust News");
    assert_eq!(stored.telegram_id, 42);
    let first_id = stored.id;

    // re-ingesting the handle updates title and backend id in place
    db.save_channel(channel("Rust News Daily", "rustnews", 43));
    let stored = db.get_channel("rustnews").unwrap();
    assert_eq!(stored.title, "Rust News Daily");
    assert_eq!(stored.telegram_id, 43);
    assert_eq!(stored.id, first_id);

    assert!(db.get_channel("other").is_none());
}

#[test]
fn duplicate_posts_are_stored_once() {
    let mut db = DbService::new();
    db.save_channel_posts(vec![post(10, 500, "hello")]);
    db.save_channel_posts(vec![post(10, 500, "hello")]);
    db.save_channel_posts(vec![post(10, 500, "hello"), post(11, 500, "next")]);
    let ids = db.get_channel_post_ids(500, 100);
    assert_eq!(ids, vec![10, 11]);
}

#[test]
fn same_message_id_in_another_channel_is_a_different_post() {
    let mut db = DbService::new();
    db.save_channel_posts(vec![post(10, 500, "a"), post(10, 501, "b")]);
    assert_eq!(db.get_channel_post_ids(500, 100), vec![10]);
    assert_eq!(db.get_channel_post_ids(501, 100), vec![10]);
}

#[test]
fn post_id_listing_respects_the_limit() {
    let mut db = DbService::new();
    let posts: Vec<Post> = (1..=5).map(|i| post(i, 500, "x")).collect();
    db.save_channel_posts(posts);
    assert_eq!(db.get_channel_post_ids(500, 3), vec![1, 2, 3]);
    assert_eq!(db.get_channel_post_ids(500, 0), Vec::<i64>::new());
}

#[test]
fn file_upsert_keys_on_the_stable_remote_id() {
    let mut db = DbService::new();
    db.save_file(&File {
        local_path: None,
        remote_file: 7,
        remote_id: "IMG".to_string(),
        telegram_post_id: 10,
    });
    // a later session may use another transient handle for the same file
    db.save_file(&File {
        local_path: Some("/tmp/a.jpg".to_string()),
        remote_file: 99,
        remote_id: "IMG".to_string(),
        telegram_post_id: 10,
    });
    let stored = db.get_file(&probe("IMG")).unwrap();
    assert_eq!(stored.remote_file, 99);
    assert_eq!(stored.local_path, Some("/tmp/a.jpg".to_string()));
    assert!(db.get_file(&probe("OTHER")).is_none());
}

#[test]
fn not_loaded_files_are_those_without_a_local_path() {
    let mut db = DbService::new();
    db.save_file(&File {
        local_path: None,
        remote_file: 1,
        remote_id: "A".to_string(),
        telegram_post_id: 0,
    });
    db.save_file(&File {
        local_path: Some("/tmp/b".to_string()),
        remote_file: 2,
        remote_id: "B".to_string(),
        telegram_post_id: 0,
    });
    db.save_file(&File {
        local_path: None,
        remote_file: 3,
        remote_id: "C".to_string(),
        telegram_post_id: 0,
    });
    let missing = db.get_not_loaded_files();
    let ids: Vec<&str> = missing.iter().map(|f| f.remote_id.as_str()).collect();
    assert_eq!(ids, vec!["A", "C"]);
}

#[test]
fn post_file_associations_come_back_per_post() {
    let mut db = DbService::new();
    db.save_post_files(10, vec![1, 2]);
    db.save_post_files(11, vec![3]);
    db.save_post_files(10, vec![4]);
    let lists = db.get_files_for_posts(&vec![10, 11, 12]);
    assert_eq!(lists, vec![vec![1, 2, 4], vec![3], vec![]]);
}

#[test]
fn channel_feed_query_returns_channel_posts_and_files() {
    let mut db = DbService::new();
    db.save_channel(channel("T", "handle", 500));
    db.save_channel_posts(vec![post(10, 500, "a"), post(11, 501, "b"), post(12, 500, "c")]);
    db.save_post_files(10, vec![7]);
    let (ch, posts, files) = db.get_channel_posts("handle").unwrap();
    assert_eq!(ch.telegram_id, 500);
    let ids: Vec<i64> = posts.iter().map(|p| p.telegram_id).collect();
    assert_eq!(ids, vec![10, 12]);
    assert_eq!(files, vec![vec![7], vec![]]);
    assert!(db.get_channel_posts("nobody").is_none());
}

#[test]
fn channel_feed_query_caps_at_twenty_five_posts() {
    let mut db = DbService::new();
    db.save_channel(channel("T", "handle", 500));
    let posts: Vec<Post> = (1..=30).map(|i| post(i, 500, "x")).collect();
    db.save_channel_posts(posts);
    let (_, posts, _) = db.get_channel_posts("handle").unwrap();
    assert_eq!(posts.len(), 25);
    assert_eq!(posts[0].telegram_id, 1);
    assert_eq!(posts[24].telegram_id, 25);
}

#[test]
fn decimal_rendering_is_exact() {
    assert_eq!(u64_dec(0), "0");
    assert_eq!(u64_dec(7), "7");
    assert_eq!(u64_dec(10), "10");
    assert_eq!(u64_dec(12345), "12345");
    assert_eq!(i64_dec(-1), "-1");
    assert_eq!(i64_dec(1600000000), "1600000000");
    assert_eq!(i64_dec(i64::MAX), "9223372036854775807");
    assert_eq!(i64_dec(i64::MIN), "-9223372036854775808");
    assert_eq!(i32_dec(-42), "-42");
}

#[test]
fn feed_post_rendering_fills_guid_and_date() {
    let p = post(10, 500, "hello");
    let feed = to_feed_post(&p);
    assert_eq!(feed.guid(), "10");
    assert_eq!(feed.pub_date(), "1600000000");
    assert_eq!(feed.content(), "hello");
    assert_eq!(feed.channel_id(), 500);
    assert_eq!(feed.title(), &None);
    assert_eq!(feed.link(), "");
}
