use vstd::prelude::*;
use rand::Rng;

verus! {

/// What one round of the scheduler does.
#[derive(Clone, Copy, Debug, PartialEq, Eq, Structural)]
pub enum Action {
    PostNew,
    ProcessTimeline,
}

/// How the scheduler engages with one timeline post.
#[derive(Clone, Copy, Debug, PartialEq, Eq, Structural)]
pub enum Reaction {
    Quote,
    Retweet,
    Like,
}

/// The largest selector draw; draws are uniform over `0..=MAX_DRAW`.
pub const MAX_DRAW: u64 = 3;

/// How many timeline posts one round fetches.
pub const TIMELINE_FETCH: u64 = 5;

/// Bounds, in seconds, of the pause after each timeline post.
pub const ITEM_PAUSE_MIN_SECS: u64 = 60;

pub const ITEM_PAUSE_MAX_SECS: u64 = 180;

/// Bounds, in seconds, of the pause between two rounds.
pub const ROUND_PAUSE_MIN_SECS: u64 = 900;

pub const ROUND_PAUSE_MAX_SECS: u64 = 3600;

/// Draws 0 and 1 post something new; 2 and 3 go through the timeline.
pub open spec fn action_for(draw: u64) -> Action {
    if draw <= 1 {
        Action::PostNew
    } else {
        Action::ProcessTimeline
    }
}

/// Draws 0 and 1 quote the post, 2 retweets it, 3 likes it.
pub open spec fn reaction_for(draw: u64) -> Reaction {
    if draw <= 1 {
        Reaction::Quote
    } else if draw == 2 {
        Reaction::Retweet
    } else {
        Reaction::Like
    }
}

pub fn select_action(draw: u64) -> (r: Action)
    requires
        draw <= MAX_DRAW,
    ensures
        r == action_for(draw),
{
    if draw <= 1 {
        Action::PostNew
    } else {
        Action::ProcessTimeline
    }
}

pub fn select_reaction(draw: u64) -> (r: Reaction)
    requires
        draw <= MAX_DRAW,
    ensures
        r == reaction_for(draw),
{
    if draw <= 1 {
        Reaction::Quote
    } else if draw == 2 {
        Reaction::Retweet
    } else {
        Reaction::Like
    }
}

/// Relies on rand's `thread_rng().gen_range(min..=max)`: a value in the closed
/// range, which must not be empty.
#[verifier::external_body]
fn random_number(min: u64, max: u64) -> (r: u64)
    requires
        min <= max,
    ensures
        min <= r <= max,
{
    rand::thread_rng().gen_range(min..=max)
}

/// Picks the action of a new round by a uniform draw.
pub fn draw_action() -> (r: Action)
    ensures
        exists|d: u64| d <= MAX_DRAW && r == action_for(d),
{
    let d = random_number(0, MAX_DRAW);
    select_action(d)
}

/// Picks the reaction to one timeline post by a uniform draw.
pub fn draw_reaction() -> (r: Reaction)
    ensures
        exists|d: u64| d <= MAX_DRAW && r == reaction_for(d),
{
    let d = random_number(0, MAX_DRAW);
    select_reaction(d)
}

/// Seconds to wait after handling one timeline post.
pub fn item_pause_secs() -> (r: u64)
    ensures
        ITEM_PAUSE_MIN_SECS <= r <= ITEM_PAUSE_MAX_SECS,
{
    random_number(ITEM_PAUSE_MIN_SECS, ITEM_PAUSE_MAX_SECS)
}

/// Seconds to wait between two rounds.
pub fn round_pause_secs() -> (r: u64)
    ensures
        ROUND_PAUSE_MIN_SECS <= r <= ROUND_PAUSE_MAX_SECS,
{
    random_number(ROUND_PAUSE_MIN_SECS, ROUND_PAUSE_MAX_SECS)
}

/// The draws, among the equally likely `0..=MAX_DRAW`, that lead to `a`.
pub open spec fn draws_for_action(a: Action) -> Set<u64> {
    Set::new(|d: u64| d <= MAX_DRAW && action_for(d) == a)
}

/// The draws, among the equally likely `0..=MAX_DRAW`, that lead to `r`.
pub open spec fn draws_for_reaction(r: Reaction) -> Set<u64> {
    Set::new(|d: u64| d <= MAX_DRAW && reaction_for(d) == r)
}

/// Of the four equally likely draws, two post something new and two go
/// through the timeline; on a timeline post two quote, one retweets and one likes.
pub proof fn lemma_draw_split()
    ensures
        draws_for_action(Action::PostNew) == set![0u64, 1u64],
        draws_for_action(Action::ProcessTimeline) == set![2u64, 3u64],
        draws_for_action(Action::PostNew).len() == 2,
        draws_for_action(Action::ProcessTimeline).len() == 2,
        draws_for_reaction(Reaction::Quote) == set![0u64, 1u64],
        draws_for_reaction(Reaction::Retweet) == set![2u64],
        draws_for_reaction(Reaction::Like) == set![3u64],
        draws_for_reaction(Reaction::Quote).len() == 2,
        draws_for_reaction(Reaction::Retweet).len() == 1,
        draws_for_reaction(Reaction::Like).len() == 1,
{
    assert(draws_for_action(Action::PostNew) =~= set![0u64, 1u64]);
    assert(draws_for_action(Action::ProcessTimeline) =~= set![2u64, 3u64]);
    assert(draws_for_reaction(Reaction::Quote) =~= set![0u64, 1u64]);
    assert(draws_for_reaction(Reaction::Retweet) =~= set![2u64]);
    assert(draws_for_reaction(Reaction::Like) =~= set![3u64]);
    assert(set![0u64, 1u64].len() == 2) by {
        assert(set![0u64].len() == 1);
    }
    assert(set![2u64, 3u64].len() == 2) by {
        assert(set![2u64].len() == 1);
    }
}

} // verus!
