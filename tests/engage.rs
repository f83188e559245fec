use gihun::attention::{is_self_authored, plan_reply, AttentionCommand, ReplyPlan};
use gihun::message::{ChannelType, Source, TweetRecord};
use gihun::prompt::{
    assemble, dispatch_generated, react, Dispatch, Intent, Step, LENGTH_RULE, POST_PROMPT, QUOTE_RULE,
    REPLY_RULE, SNIPPET_COUNT, TONE_RULE,
};
use gihun::schedule::{
    draw_action, draw_reaction, item_pause_secs, round_pause_secs, select_action, select_reaction, Action,
    Reaction,
};

fn post(id: &str, user: &str, text: &str) -> TweetRecord {
    TweetRecord {
        id: Some(id.to_string()),
        text: Some(text.to_string()),
        username: Some(user.to_string()),
        user_id: None,
        conversation_id: None,
        in_reply_to_status_id: None,
        time_parsed: None,
    }
}

#[test]
fn own_posts_never_reach_the_reply_decision() {
    let t = post("1", "GiHun_Bot", "@someone hi");
    match plan_reply("gihun_bot", &t, &vec![]) {
        ReplyPlan::Skip(cmd) => assert!(cmd == AttentionCommand::SelfAuthored),
        ReplyPlan::Consult(_) => panic!("own post was put to the reply decision"),
    }
    assert!(is_self_authored("BOT", &Some("bot".to_string())));
    assert!(!is_self_authored("bot", &Some("other".to_string())));
    assert!(!is_self_authored("bot", &None));
}

#[test]
fn other_posts_get_a_context() {
    let parent = post("1", "alice", "first");
    let t = post("2", "alice", "hey @gihun_bot look");
    let thread = vec![parent, post("2", "alice", "hey @gihun_bot look")];
    match plan_reply("gihun_bot", &t, &thread) {
        ReplyPlan::Consult(c) => {
            assert_eq!(c.message_content, "hey @gihun_bot look");
            assert_eq!(c.mentioned_names, vec!["gihun_bot".to_string()]);
            assert_eq!(
                c.history,
                vec![("1".to_string(), "first".to_string()), ("2".to_string(), "hey @gihun_bot look".to_string())]
            );
            assert!(c.channel_type == ChannelType::Text);
            assert!(c.source == Source::Twitter);
        }
        ReplyPlan::Skip(_) => panic!("skipped another author"),
    }
}

#[test]
fn action_draws_split_evenly() {
    let mut post_new = 0;
    let mut timeline = 0;
    for d in 0..=3u64 {
        match select_action(d) {
            Action::PostNew => post_new += 1,
            Action::ProcessTimeline => timeline += 1,
        }
    }
    assert_eq!((post_new, timeline), (2, 2));
    assert!(select_action(0) == Action::PostNew);
    assert!(select_action(1) == Action::PostNew);
    assert!(select_action(2) == Action::ProcessTimeline);
    assert!(select_action(3) == Action::ProcessTimeline);
    assert!(select_reaction(0) == Reaction::Quote);
    assert!(select_reaction(1) == Reaction::Quote);
    assert!(select_reaction(2) == Reaction::Retweet);
    assert!(select_reaction(3) == Reaction::Like);
}

#[test]
fn simulated_draws_match_the_split() {
    let n = 40_000;
    let mut post_new = 0;
    let mut quote = 0;
    let mut retweet = 0;
    let mut like = 0;
    for _ in 0..n {
        if draw_action() == Action::PostNew {
            post_new += 1;
        }
        match draw_reaction() {
            Reaction::Quote => quote += 1,
            Reaction::Retweet => retweet += 1,
            Reaction::Like => like += 1,
        }
    }
    let share = |k: i32| k as f64 / n as f64;
    assert!((share(post_new) - 0.5).abs() < 0.02);
    assert!((share(quote) - 0.5).abs() < 0.02);
    assert!((share(retweet) - 0.25).abs() < 0.02);
    assert!((share(like) - 0.25).abs() < 0.02);
}

#[test]
fn pauses_stay_in_range() {
    for _ in 0..1000 {
        let a = item_pause_secs();
        assert!((60..=180).contains(&a));
        let b = round_pause_secs();
        assert!((900..=3600).contains(&b));
    }
}

#[test]
fn quote_request_and_dispatch() {
    let step = react(Reaction::Quote, true, "555", "a great day", "You are Gi-hun.", "10:00:00 AM, 2024-01-01");
    let req = match step {
        Step::Generate(r) => r,
        _ => panic!("quote must generate"),
    };
    assert_eq!(req.persona, "You are Gi-hun.");
    assert_eq!(req.context[0], "Current time: 10:00:00 AM, 2024-01-01");
    assert_eq!(req.context[1], LENGTH_RULE);
    assert_eq!(req.context[2], TONE_RULE);
    assert_eq!(req.context[3], QUOTE_RULE);
    assert_eq!(req.context.len(), 4);
    assert!(req.snippet_count <= 4);
    assert_eq!(req.snippet_count, SNIPPET_COUNT);
    assert_eq!(req.prompt, "a great day");
    match dispatch_generated(Intent::Quote, Some(" Indeed. ".to_string()), "555") {
        Dispatch::Quote { text, target } => {
            assert_eq!(text, "Indeed.");
            assert_eq!(target, "555");
        }
        _ => panic!("expected a quote"),
    }
}

#[test]
fn declined_and_simple_reactions() {
    assert!(matches!(react(Reaction::Quote, false, "1", "t", "p", "now"), Step::Nothing));
    assert!(matches!(react(Reaction::Like, false, "1", "t", "p", "now"), Step::Nothing));
    match react(Reaction::Like, true, "12", "t", "p", "now") {
        Step::Send(Dispatch::Like(id)) => assert_eq!(id, "12"),
        _ => panic!("expected a like"),
    }
    match react(Reaction::Retweet, true, "13", "t", "p", "now") {
        Step::Send(Dispatch::Retweet(id)) => assert_eq!(id, "13"),
        _ => panic!("expected a retweet"),
    }
}

#[test]
fn post_and_reply_requests() {
    let p = assemble(Intent::NewPost, "persona", "noon", "ignored");
    assert_eq!(p.prompt, POST_PROMPT);
    assert_eq!(p.context[0], "Current time: noon");
    let r = assemble(Intent::Reply, "persona", "noon", "what do you think?");
    assert_eq!(r.prompt, "what do you think?");
    assert_eq!(r.context[3], REPLY_RULE);
}

#[test]
fn failed_or_blank_generation_sends_nothing() {
    assert!(matches!(dispatch_generated(Intent::NewPost, None, ""), Dispatch::Nothing));
    assert!(matches!(dispatch_generated(Intent::Reply, Some("  \n".to_string()), "1"), Dispatch::Nothing));
    let long: String = std::iter::repeat('z').take(300).collect();
    match dispatch_generated(Intent::NewPost, Some(long), "") {
        Dispatch::Post(t) => assert_eq!(t.chars().count(), 280),
        _ => panic!("expected a post"),
    }
    match dispatch_generated(Intent::Reply, Some("sure".to_string()), "9") {
        Dispatch::Reply { text, to } => {
            assert_eq!(text, "sure");
            assert_eq!(to, "9");
        }
        _ => panic!("expected a reply"),
    }
}
