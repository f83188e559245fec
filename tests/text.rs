use gihun::galadriel::GaladrielClient;
use gihun::text::{mentioned_names, reply_chunks, split_chunks, strip_quotes, trim_text, MAX_TWEET_LENGTH};

#[test]
fn mentions_keep_trailing_punctuation() {
    let m = mentioned_names("hello @Alice and @bob!");
    assert_eq!(m, vec!["Alice".to_string(), "bob!".to_string()]);
}

#[test]
fn mentions_are_kept_once() {
    let m = mentioned_names("@a @b @a @b @c");
    assert_eq!(m, vec!["a".to_string(), "b".to_string(), "c".to_string()]);
}

#[test]
fn mentions_of_text_without_any() {
    assert!(mentioned_names("no handles here").is_empty());
    assert!(mentioned_names("").is_empty());
    assert!(mentioned_names("mail a@b.c").is_empty());
}

#[test]
fn mentions_split_on_any_white_space() {
    let m = mentioned_names("\t@one\n@two  @\u{3000}@three");
    assert_eq!(m, vec!["one".to_string(), "two".to_string(), "".to_string(), "three".to_string()]);
}

#[test]
fn chunks_of_three_hundred_characters() {
    let s: String = std::iter::repeat('x').take(300).collect();
    let c = split_chunks(&s, MAX_TWEET_LENGTH);
    assert_eq!(c.len(), 2);
    assert_eq!(c[0].chars().count(), 280);
    assert_eq!(c[1].chars().count(), 20);
}

#[test]
fn chunks_count_characters_not_bytes() {
    let s: String = std::iter::repeat('é').take(281).collect();
    let c = split_chunks(&s, 280);
    assert_eq!(c.len(), 2);
    assert_eq!(c[1], "é");
}

#[test]
fn chunks_of_empty_and_exact_text() {
    assert!(split_chunks("", 280).is_empty());
    let s: String = std::iter::repeat('a').take(560).collect();
    let c = split_chunks(&s, 280);
    assert_eq!(c.len(), 2);
    assert_eq!(c[1].len(), 280);
    assert_eq!(split_chunks("abcdefg", 3), vec!["abc", "def", "g"]);
}

#[test]
fn reply_chunks_trim_first() {
    let c = reply_chunks("  hello there \n");
    assert_eq!(c, vec!["hello there".to_string()]);
    assert!(reply_chunks(" \t\n").is_empty());
}

#[test]
fn trim_and_strip() {
    assert_eq!(trim_text("\u{a0} a b \r\n"), "a b");
    assert_eq!(strip_quotes("\"\"http://x/y.png\""), "http://x/y.png");
    assert_eq!(strip_quotes("no quotes"), "no quotes");
}

#[test]
fn galadriel_headers_and_url() {
    let c = GaladrielClient::new("k123".to_string());
    assert_eq!(c.authorization(), "Bearer k123");
    assert_eq!(GaladrielClient::image_url_from_body("\"https://img/a.png\""), "https://img/a.png");
}
