use vstd::prelude::*;
use vstd::string::StringExecFns;

verus! {

/// A post as the social platform reports it; every field may be absent.
pub struct TweetRecord {
    pub id: Option<String>,
    pub text: Option<String>,
    pub username: Option<String>,
    pub user_id: Option<String>,
    pub conversation_id: Option<String>,
    pub in_reply_to_status_id: Option<String>,
    /// Creation time in seconds since the Unix epoch.
    pub time_parsed: Option<i64>,
}

/// Where a stored message came from.
#[derive(Clone, Copy, Debug, PartialEq, Eq, Structural)]
pub enum Source {
    Twitter,
    Discord,
    Telegram,
}

/// The kind of channel a message was posted in.
#[derive(Clone, Copy, Debug, PartialEq, Eq, Structural)]
pub enum ChannelType {
    Text,
    Voice,
}

/// A content item as it is kept in the knowledge store.
pub struct Message {
    pub id: String,
    pub source: Source,
    pub source_id: String,
    pub channel_type: ChannelType,
    pub channel_id: String,
    pub account_id: String,
    pub role: String,
    pub content: String,
    /// Seconds since the Unix epoch.
    pub created_at: i64,
}

/// The text held by an optional field, empty where it is absent.
pub open spec fn text_or_empty(o: Option<String>) -> Seq<char> {
    match o {
        Some(s) => s@,
        None => Seq::empty(),
    }
}

pub fn string_or_empty(o: Option<String>) -> (r: String)
    ensures
        r@ == text_or_empty(o),
{
    match o {
        Some(s) => s,
        None => String::new(),
    }
}

pub fn copy_or_empty(o: &Option<String>) -> (r: String)
    ensures
        r@ == text_or_empty(*o),
{
    match o {
        Some(s) => s.clone(),
        None => String::new(),
    }
}

impl Message {
    /// Records a platform post as a user message of a text channel.
    pub fn from_tweet(tweet: TweetRecord) -> (r: Message)
        ensures
            r.id@ == text_or_empty(tweet.id),
            r.source_id@ == text_or_empty(tweet.id),
            r.source == Source::Twitter,
            r.channel_type == ChannelType::Text,
            r.channel_id@ == text_or_empty(tweet.conversation_id),
            r.account_id@ == text_or_empty(tweet.user_id),
            r.role@ == seq!['u', 's', 'e', 'r'],
            r.content@ == text_or_empty(tweet.text),
            r.created_at == match tweet.time_parsed {
                Some(t) => t,
                None => 0,
            },
    {
        let id = copy_or_empty(&tweet.id);
        let source_id = string_or_empty(tweet.id);
        let role = String::from_str("user");
        proof {
            reveal_strlit("user");
        }
        let created_at: i64 = match tweet.time_parsed {
            Some(t) => t,
            None => 0,
        };
        Message {
            id,
            source: Source::Twitter,
            source_id,
            channel_type: ChannelType::Text,
            channel_id: string_or_empty(tweet.conversation_id),
            account_id: string_or_empty(tweet.user_id),
            role,
            content: string_or_empty(tweet.text),
            created_at,
        }
    }
}

} // verus!
