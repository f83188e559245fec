use vstd::prelude::*;
use vstd::string::StringExecFns;
use crate::text::{chunk_spec, reply_chunks, trim_spec, MAX_TWEET_LENGTH};
use crate::schedule::Reaction;

verus! {

/// What a generation request is for.
#[derive(Clone, Copy, Debug, PartialEq, Eq, Structural)]
pub enum Intent {
    NewPost,
    Reply,
    Quote,
}

/// How many retrieved knowledge snippets a request draws on.
pub const SNIPPET_COUNT: usize = 4;

pub const TIME_PREFIX: &'static str = "Current time: ";

pub const LENGTH_RULE: &'static str = "Please keep your responses concise and under 280 characters.";

pub const TONE_RULE: &'static str = "Respond naturally and conversationally in 1-2 short sentences. Avoid flowery language and excessive punctuation.";

pub const POST_RULE: &'static str = "Use the provided documents to draw inspiration from lines that you would say.";

pub const REPLY_RULE: &'static str = "If the tweet contains images, read it and incorporate them into your response.";

pub const QUOTE_RULE: &'static str = "Write a natural reply to the quoted tweet in 1-2 short sentences. Use the provided documents to find similar lines that you would say. Keep it conversational and relevant.";

pub const POST_PROMPT: &'static str = "Share brief thoughts or observation in one or two short sentences.";

/// A request to the language model: the persona, context lines in order, how
/// many knowledge snippets to retrieve for the prompt, and the prompt itself.
pub struct GenerationRequest {
    pub persona: String,
    pub context: Vec<String>,
    pub snippet_count: usize,
    pub prompt: String,
}

/// The context line that only requests of `intent` carry.
pub open spec fn intent_rule(intent: Intent) -> Seq<char> {
    match intent {
        Intent::NewPost => POST_RULE@,
        Intent::Reply => REPLY_RULE@,
        Intent::Quote => QUOTE_RULE@,
    }
}

/// Whether `r` is the request of `intent` for `persona` at `time_label`, on
/// the post text `trigger` (unused for a new post).
pub open spec fn is_request_for(
    r: GenerationRequest,
    intent: Intent,
    persona: Seq<char>,
    time_label: Seq<char>,
    trigger: Seq<char>,
) -> bool {
    &&& r.persona@ == persona
    &&& r.context@.len() == 4
    &&& r.context@[0]@ == TIME_PREFIX@ + time_label
    &&& r.context@[1]@ == LENGTH_RULE@
    &&& r.context@[2]@ == TONE_RULE@
    &&& r.context@[3]@ == intent_rule(intent)
    &&& r.snippet_count == SNIPPET_COUNT
    &&& r.prompt@ == if intent == Intent::NewPost {
        POST_PROMPT@
    } else {
        trigger
    }
}

fn intent_line(intent: Intent) -> (r: String)
    ensures
        r@ == intent_rule(intent),
{
    match intent {
        Intent::NewPost => String::from_str(POST_RULE),
        Intent::Reply => String::from_str(REPLY_RULE),
        Intent::Quote => String::from_str(QUOTE_RULE),
    }
}

/// Builds the generation request of `intent`.
pub fn assemble(intent: Intent, persona: &str, time_label: &str, trigger: &str) -> (r:
    GenerationRequest)
    ensures
        is_request_for(r, intent, persona@, time_label@, trigger@),
{
    let mut context: Vec<String> = Vec::new();
    context.push(String::from_str(TIME_PREFIX).concat(time_label));
    context.push(String::from_str(LENGTH_RULE));
    context.push(String::from_str(TONE_RULE));
    context.push(intent_line(intent));
    let prompt = match intent {
        Intent::NewPost => String::from_str(POST_PROMPT),
        _ => String::from_str(trigger),
    };
    GenerationRequest {
        persona: String::from_str(persona),
        context,
        snippet_count: SNIPPET_COUNT,
        prompt,
    }
}

/// Relies on chrono's `Local::now()` and `format`: the local time as text.
#[verifier::external_body]
fn current_time_label() -> (r: String) {
    chrono::Local::now().format("%I:%M:%S %p, %Y-%m-%d").to_string()
}

/// Builds the generation request of `intent` at the current local time.
pub fn assemble_now(intent: Intent, persona: &str, trigger: &str) -> (r: GenerationRequest)
    ensures
        exists|t: Seq<char>| is_request_for(r, intent, persona@, t, trigger@),
{
    let label = current_time_label();
    assemble(intent, persona, label.as_str(), trigger)
}

/// An outward action on the platform.
pub enum Dispatch {
    Nothing,
    Post(String),
    Reply { text: String, to: String },
    Quote { text: String, target: String },
    Retweet(String),
    Like(String),
}

/// The text that a generated output posts: its first post-sized piece once trimmed.
pub open spec fn posted_text(generated: Seq<char>) -> Seq<char> {
    chunk_spec(trim_spec(generated, false), MAX_TWEET_LENGTH as int, 0)
}

/// What to send once the model answered `generated` (`None`: generation
/// failed) to a request of `intent` about the post `target`. A failed or
/// blank generation sends nothing.
pub fn dispatch_generated(intent: Intent, generated: Option<String>, target: &str) -> (r: Dispatch)
    ensures
        (generated is None || trim_spec(generated->0@, false).len() == 0) <==> r is Nothing,
        r matches Dispatch::Post(t) ==> intent == Intent::NewPost && t@ == posted_text(
            generated->0@,
        ),
        r matches Dispatch::Reply { text, to } ==> intent == Intent::Reply && text@ == posted_text(
            generated->0@,
        ) && to@ == target@,
        r matches Dispatch::Quote { text, target: t } ==> intent == Intent::Quote && text@
            == posted_text(generated->0@) && t@ == target@,
        !(r is Retweet) && !(r is Like),
        generated is Some && trim_spec(generated->0@, false).len() > 0 ==> match intent {
            Intent::NewPost => r is Post,
            Intent::Reply => r is Reply,
            Intent::Quote => r is Quote,
        },
{
    let g = match generated {
        Some(g) => g,
        None => {
            return Dispatch::Nothing;
        },
    };
    let mut chunks = reply_chunks(g.as_str());
    if chunks.len() == 0 {
        return Dispatch::Nothing;
    }
    proof {
        assert(chunks@.len() * MAX_TWEET_LENGTH >= 1);
    }
    let first = chunks.swap_remove(0);
    match intent {
        Intent::NewPost => Dispatch::Post(first),
        Intent::Reply => Dispatch::Reply { text: first, to: String::from_str(target) },
        Intent::Quote => Dispatch::Quote { text: first, target: String::from_str(target) },
    }
}

/// The next step on a timeline post once the decision on `reaction` was `approved`.
pub enum Step {
    Nothing,
    Send(Dispatch),
    /// Generate with this request, then dispatch as a quote of the post.
    Generate(GenerationRequest),
}

/// Decides what to do with the timeline post `target`, whose text is `text`.
pub fn react(
    reaction: Reaction,
    approved: bool,
    target: &str,
    text: &str,
    persona: &str,
    time_label: &str,
) -> (r: Step)
    ensures
        !approved <==> r is Nothing,
        r matches Step::Send(d) ==> match reaction {
            Reaction::Retweet => d matches Dispatch::Retweet(t) && t@ == target@,
            Reaction::Like => d matches Dispatch::Like(t) && t@ == target@,
            Reaction::Quote => false,
        },
        r matches Step::Generate(q) ==> reaction == Reaction::Quote && is_request_for(
            q,
            Intent::Quote,
            persona@,
            time_label@,
            text@,
        ),
        approved ==> (r is Generate <==> reaction == Reaction::Quote),
{
    if !approved {
        return Step::Nothing;
    }
    match reaction {
        Reaction::Quote => Step::Generate(assemble(Intent::Quote, persona, time_label, text)),
        Reaction::Retweet => Step::Send(Dispatch::Retweet(String::from_str(target))),
        Reaction::Like => Step::Send(Dispatch::Like(String::from_str(target))),
    }
}

} // verus!
