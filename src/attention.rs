use vstd::prelude::*;
use crate::message::{copy_or_empty, text_or_empty, ChannelType, Source, TweetRecord};
use crate::text::{is_mention, mentioned_names};

verus! {

/// The decision on whether to answer a post.
#[derive(Clone, Copy, Debug, PartialEq, Eq, Structural)]
pub enum AttentionCommand {
    Respond,
    /// Not relevant enough to answer.
    Ignore,
    /// Written by the bot itself.
    SelfAuthored,
}

/// What the reply decision is made from.
pub struct AttentionContext {
    pub message_content: String,
    /// The handles mentioned in the post, each once, in order of first appearance.
    pub mentioned_names: Vec<String>,
    /// The conversation, oldest first, as (id, text) pairs.
    pub history: Vec<(String, String)>,
    pub channel_type: ChannelType,
    pub source: Source,
}

/// What a post's author name becomes when letters are folded to lower case.
pub uninterp spec fn lower_of(s: Seq<char>) -> Seq<char>;

/// Relies on `str::to_lowercase`: the result depends on the characters alone.
#[verifier::external_body]
fn lowercase(s: &str) -> (r: String)
    ensures
        r@ == lower_of(s@),
{
    s.to_lowercase()
}

/// Whether two names, already folded to lower case, are the same.
pub fn same_folded(a: &String, b: &String) -> (r: bool)
    ensures
        r == (a@ == b@),
{
    a.eq(b)
}

/// Whether `author` names the bot `bot`, ignoring case. An absent author
/// counts as the empty name.
pub open spec fn is_self_spec(bot: Seq<char>, author: Option<String>) -> bool {
    lower_of(bot) == lower_of(text_or_empty(author))
}

pub fn is_self_authored(bot: &str, author: &Option<String>) -> (r: bool)
    ensures
        r == is_self_spec(bot@, *author),
{
    let a = copy_or_empty(author);
    let lb = lowercase(bot);
    let la = lowercase(a.as_str());
    same_folded(&lb, &la)
}

/// The (id, text) pairs of a thread, each absent field as the empty string.
pub fn thread_history(thread: &Vec<TweetRecord>) -> (r: Vec<(String, String)>)
    ensures
        r@.len() == thread@.len(),
        forall|k: int|
            0 <= k < r@.len() ==> (#[trigger] r@[k]).0@ == text_or_empty(thread@[k].id) && r@[k].1@
                == text_or_empty(thread@[k].text),
{
    let mut out: Vec<(String, String)> = Vec::new();
    let mut i: usize = 0;
    while i < thread.len()
        invariant
            i <= thread@.len(),
            out@.len() == i,
            forall|k: int|
                0 <= k < i ==> (#[trigger] out@[k]).0@ == text_or_empty(thread@[k].id) && out@[k].1@
                    == text_or_empty(thread@[k].text),
        decreases thread@.len() - i,
    {
        let t = &thread[i];
        out.push((copy_or_empty(&t.id), copy_or_empty(&t.text)));
        i = i + 1;
    }
    out
}

/// Whether `c` is the context of a reply decision on `tweet` within `thread`.
pub open spec fn is_context_for(
    c: AttentionContext,
    tweet: TweetRecord,
    thread: Seq<TweetRecord>,
) -> bool {
    &&& c.message_content@ == text_or_empty(tweet.text)
    &&& forall|k: int|
        0 <= k < c.mentioned_names@.len() ==> is_mention(
            text_or_empty(tweet.text),
            #[trigger] c.mentioned_names@[k]@,
        )
    &&& forall|m: Seq<char>|
        #[trigger] is_mention(text_or_empty(tweet.text), m) ==> exists|k: int|
            0 <= k < c.mentioned_names@.len() && #[trigger] c.mentioned_names@[k]@ == m
    &&& forall|x: int, y: int|
        0 <= x < y < c.mentioned_names@.len() ==> c.mentioned_names@[x]@ != c.mentioned_names@[y]@
    &&& c.history@.len() == thread.len()
    &&& forall|k: int|
        0 <= k < thread.len() ==> (#[trigger] c.history@[k]).0@ == text_or_empty(thread[k].id)
            && c.history@[k].1@ == text_or_empty(thread[k].text)
    &&& c.channel_type == ChannelType::Text
    &&& c.source == Source::Twitter
}

/// The next step on a post that mentions the bot.
pub enum ReplyPlan {
    /// The post is the bot's own: no decision is asked for.
    Skip(AttentionCommand),
    /// Ask the reply decision, with this context.
    Consult(AttentionContext),
}

/// Decides what to do with a post that mentions the bot. The test on the
/// author comes first, so the bot's own posts never reach the reply decision.
pub fn plan_reply(bot: &str, tweet: &TweetRecord, thread: &Vec<TweetRecord>) -> (r: ReplyPlan)
    ensures
        is_self_spec(bot@, tweet.username) <==> r is Skip,
        r matches ReplyPlan::Skip(cmd) ==> cmd == AttentionCommand::SelfAuthored,
        r matches ReplyPlan::Consult(c) ==> is_context_for(c, *tweet, thread@),
{
    if is_self_authored(bot, &tweet.username) {
        return ReplyPlan::Skip(AttentionCommand::SelfAuthored);
    }
    let content = copy_or_empty(&tweet.text);
    let ghost content_view = content@;
    let names = mentioned_names(content.as_str());
    let history = thread_history(thread);
    let c = AttentionContext {
        message_content: content,
        mentioned_names: names,
        history,
        channel_type: ChannelType::Text,
        source: Source::Twitter,
    };
    assert forall|m: Seq<char>| is_mention(text_or_empty(tweet.text), m) implies exists|k: int|
        0 <= k < c.mentioned_names@.len() && #[trigger] c.mentioned_names@[k]@ == m by {
        assert(is_mention(content_view, m));
        let k = choose|k: int| 0 <= k < names@.len() && #[trigger] names@[k]@ == m;
        assert(c.mentioned_names@[k]@ == m);
    }
    ReplyPlan::Consult(c)
}

} // verus!
