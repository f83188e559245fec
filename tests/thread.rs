use gihun::message::{ChannelType, Message, Source, TweetRecord};
use gihun::thread::{ThreadBuilder, MAX_THREAD_LEN};

fn tweet(id: &str, parent: Option<&str>) -> TweetRecord {
    TweetRecord {
        id: Some(id.to_string()),
        text: Some(format!("text {}", id)),
        username: Some("someone".to_string()),
        user_id: Some("u1".to_string()),
        conversation_id: Some("c1".to_string()),
        in_reply_to_status_id: parent.map(|p| p.to_string()),
        time_parsed: Some(1_700_000_000),
    }
}

fn ids(thread: &[TweetRecord]) -> Vec<String> {
    thread.iter().map(|t| t.id.clone().unwrap()).collect()
}

/// Walks a chain where post `i` replies to post `i - 1`, fetching from `chain`.
fn walk_chain(n: usize) -> (Vec<TweetRecord>, usize) {
    let mut store: Vec<TweetRecord> = Vec::new();
    for i in 0..n {
        let parent = if i == 0 { None } else { Some(format!("{}", i - 1)) };
        store.push(tweet(&format!("{}", i), parent.as_deref()));
    }
    let leaf = store.pop().unwrap();
    let mut b = ThreadBuilder::start(leaf);
    let mut fetches = 0;
    while let Some(pid) = b.parent_to_fetch() {
        fetches += 1;
        let idx: usize = pid.parse().unwrap();
        let grand = if idx == 0 { None } else { Some(format!("{}", idx - 1)) };
        b.receive_parent(Some(tweet(&pid, grand.as_deref())));
    }
    (b.finish(), fetches)
}

#[test]
fn lone_post_is_its_own_thread() {
    let t = tweet("42", None);
    let b = ThreadBuilder::start(t);
    assert!(b.parent_to_fetch().is_none());
    let thread = b.finish();
    assert_eq!(ids(&thread), vec!["42".to_string()]);
}

#[test]
fn short_chain_comes_back_whole_in_order() {
    let (thread, fetches) = walk_chain(4);
    assert_eq!(ids(&thread), vec!["0", "1", "2", "3"]);
    assert_eq!(fetches, 3);
}

#[test]
fn chain_of_exactly_the_bound() {
    let (thread, _) = walk_chain(10);
    assert_eq!(thread.len(), 10);
    assert_eq!(ids(&thread)[0], "0");
    assert_eq!(ids(&thread)[9], "9");
}

#[test]
fn long_chain_keeps_the_ten_newest() {
    let (thread, fetches) = walk_chain(15);
    assert_eq!(thread.len(), MAX_THREAD_LEN);
    let expected: Vec<String> = (5..15).map(|i| format!("{}", i)).collect();
    assert_eq!(ids(&thread), expected);
    assert_eq!(fetches, 9);
}

#[test]
fn failed_fetch_stops_the_walk() {
    // chain 0 <- 1 <- ... <- 7; the fetch at hop 2 fails
    let mut b = ThreadBuilder::start(tweet("7", Some("6")));
    let mut hop = 0;
    let mut fetches = 0;
    while let Some(pid) = b.parent_to_fetch() {
        fetches += 1;
        if hop == 2 {
            b.receive_parent(None);
        } else {
            let idx: usize = pid.parse().unwrap();
            b.receive_parent(Some(tweet(&pid, Some(&format!("{}", idx - 1)))));
        }
        hop += 1;
    }
    assert_eq!(fetches, 3);
    let thread = b.finish();
    assert_eq!(thread.len(), 3);
    assert_eq!(ids(&thread), vec!["5", "6", "7"]);
}

#[test]
fn failed_first_fetch_keeps_the_leaf() {
    let mut b = ThreadBuilder::start(tweet("9", Some("8")));
    assert_eq!(b.parent_to_fetch(), Some("8".to_string()));
    b.receive_parent(None);
    assert!(b.parent_to_fetch().is_none());
    assert_eq!(ids(&b.finish()), vec!["9"]);
}

#[test]
fn message_from_full_tweet() {
    let m = Message::from_tweet(tweet("77", Some("76")));
    assert_eq!(m.id, "77");
    assert_eq!(m.source_id, "77");
    assert!(m.source == Source::Twitter);
    assert!(m.channel_type == ChannelType::Text);
    assert_eq!(m.channel_id, "c1");
    assert_eq!(m.account_id, "u1");
    assert_eq!(m.role, "user");
    assert_eq!(m.content, "text 77");
    assert_eq!(m.created_at, 1_700_000_000);
}

#[test]
fn message_from_empty_tweet() {
    let t = TweetRecord {
        id: None,
        text: None,
        username: None,
        user_id: None,
        conversation_id: None,
        in_reply_to_status_id: None,
        time_parsed: None,
    };
    let m = Message::from_tweet(t);
    assert_eq!(m.id, "");
    assert_eq!(m.content, "");
    assert_eq!(m.channel_id, "");
    assert_eq!(m.role, "user");
    assert_eq!(m.created_at, 0);
}
