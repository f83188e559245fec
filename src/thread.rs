use vstd::prelude::*;
use crate::message::TweetRecord;

verus! {

/// The most posts a conversation thread holds, the leaf included.
pub const MAX_THREAD_LEN: usize = 10;

/// The id of the post that `t` replies to, if any.
pub open spec fn parent_of(t: TweetRecord) -> Option<Seq<char>> {
    match t.in_reply_to_status_id {
        Some(p) => Some(p@),
        None => None,
    }
}

/// The id of `t`, if it has one.
pub open spec fn id_of(t: TweetRecord) -> Option<Seq<char>> {
    match t.id {
        Some(p) => Some(p@),
        None => None,
    }
}

/// Whether the walk, holding `items` newest first, asks for another parent.
pub open spec fn wants_parent(items: Seq<TweetRecord>, stopped: bool) -> bool {
    &&& !stopped
    &&& 0 < items.len() < MAX_THREAD_LEN
    &&& parent_of(items.last()) is Some
}

/// The walk's state after a parent fetch answered `answer` (`None`: the fetch failed).
pub open spec fn receive_spec(
    items: Seq<TweetRecord>,
    answer: Option<TweetRecord>,
) -> (Seq<TweetRecord>, bool) {
    match answer {
        Some(p) => (items.push(p), false),
        None => (items, true),
    }
}

/// The walk's state when successive parent fetches answer `answers` in turn.
pub open spec fn run(
    items: Seq<TweetRecord>,
    stopped: bool,
    answers: Seq<Option<TweetRecord>>,
) -> (Seq<TweetRecord>, bool)
    decreases answers.len(),
{
    if !wants_parent(items, stopped) || answers.len() == 0 {
        (items, stopped)
    } else {
        let next = receive_spec(items, answers[0]);
        run(next.0, next.1, answers.drop_first())
    }
}

/// The thread, oldest first, built from `leaf` when the parent fetches answer `answers`.
pub open spec fn thread_after(leaf: TweetRecord, answers: Seq<Option<TweetRecord>>) -> Seq<
    TweetRecord,
> {
    run(seq![leaf], false, answers).0.reverse()
}

/// Whether the walk from `leaf` is over once the fetches answered `answers`.
pub open spec fn walk_done(leaf: TweetRecord, answers: Seq<Option<TweetRecord>>) -> bool {
    let s = run(seq![leaf], false, answers);
    !wants_parent(s.0, s.1)
}

/// A post that replies to nothing makes a thread of itself alone, and the walk
/// asks for no parent, whatever the fetches would answer.
pub proof fn lemma_lone_post(leaf: TweetRecord, answers: Seq<Option<TweetRecord>>)
    requires
        parent_of(leaf) is None,
    ensures
        thread_after(leaf, answers) == seq![leaf],
        walk_done(leaf, answers),
{
    assert(seq![leaf].last() == leaf);
    assert(seq![leaf].reverse() =~= seq![leaf]);
}

/// The newest `m` posts of `chain` (oldest first), newest first.
pub open spec fn newest(chain: Seq<TweetRecord>, m: int) -> Seq<TweetRecord> {
    Seq::new(m as nat, |i: int| chain[chain.len() - 1 - i])
}

/// Whether each post of `chain` (oldest first) replies to the one before it,
/// and the first replies to nothing.
pub open spec fn is_reply_chain(chain: Seq<TweetRecord>) -> bool {
    &&& parent_of(chain[0]) is None
    &&& forall|i: int| 0 < i < chain.len() ==> parent_of(#[trigger] chain[i]) == id_of(chain[i - 1])
    &&& forall|i: int| 0 <= i < chain.len() ==> id_of(#[trigger] chain[i]) is Some
}

/// The answers that fetching the parents of the last post of `chain` gives, one by one.
pub open spec fn chain_answers(chain: Seq<TweetRecord>) -> Seq<Option<TweetRecord>> {
    Seq::new((chain.len() - 1) as nat, |k: int| Some(chain[chain.len() - 2 - k]))
}

proof fn lemma_chain_run(chain: Seq<TweetRecord>, j: int)
    requires
        chain.len() >= 1,
        is_reply_chain(chain),
        1 <= j <= chain.len(),
        j <= MAX_THREAD_LEN,
    ensures
        ({
            let m = if chain.len() <= MAX_THREAD_LEN { chain.len() as int } else { MAX_THREAD_LEN as int };
            let answers = chain_answers(chain);
            let s = run(newest(chain, j), false, answers.subrange(j - 1, answers.len() as int));
            s.0 == newest(chain, m) && !wants_parent(s.0, s.1)
        }),
    decreases chain.len() - j,
{
    let n = chain.len() as int;
    let m = if n <= MAX_THREAD_LEN { n } else { MAX_THREAD_LEN as int };
    let answers = chain_answers(chain);
    let rest = answers.subrange(j - 1, answers.len() as int);
    let items = newest(chain, j);
    assert(items.last() == chain[n - j]);
    if j == n || j == MAX_THREAD_LEN {
        assert(m == j);
        if j == n {
            assert(parent_of(chain[0]) is None);
        }
        assert(!wants_parent(items, false));
    } else {
        assert(parent_of(chain[n - j]) == id_of(chain[n - j - 1]));
        assert(wants_parent(items, false));
        assert(rest[0] == Some(chain[n - 1 - j]));
        assert(items.push(chain[n - 1 - j]) =~= newest(chain, j + 1));
        assert(rest.drop_first() =~= answers.subrange(j, answers.len() as int));
        lemma_chain_run(chain, j + 1);
    }
}

/// Walking back from the last post of a reply chain gives the whole chain in
/// order when it holds at most ten posts, and its ten newest otherwise.
pub proof fn lemma_chain_thread(chain: Seq<TweetRecord>)
    requires
        chain.len() >= 1,
        is_reply_chain(chain),
    ensures
        thread_after(chain.last(), chain_answers(chain)) == (if chain.len() <= MAX_THREAD_LEN {
            chain
        } else {
            chain.subrange(chain.len() - MAX_THREAD_LEN, chain.len() as int)
        }),
        walk_done(chain.last(), chain_answers(chain)),
{
    let n = chain.len() as int;
    let m = if n <= MAX_THREAD_LEN { n } else { MAX_THREAD_LEN as int };
    let answers = chain_answers(chain);
    assert(newest(chain, 1) =~= seq![chain.last()]);
    assert(answers.subrange(0, answers.len() as int) =~= answers);
    lemma_chain_run(chain, 1);
    assert(newest(chain, m).reverse() =~= chain.subrange(n - m, n));
    if n <= MAX_THREAD_LEN {
        assert(chain.subrange(0, n) =~= chain);
    }
}

proof fn lemma_failed_run(
    leaf: TweetRecord,
    fetched: Seq<TweetRecord>,
    answers: Seq<Option<TweetRecord>>,
    j: int,
)
    requires
        fetched.len() < MAX_THREAD_LEN,
        answers.len() > fetched.len(),
        parent_of(leaf) is Some,
        forall|i: int| 0 <= i < fetched.len() ==> parent_of(#[trigger] fetched[i]) is Some,
        forall|i: int| 0 <= i < fetched.len() ==> answers[i] == Some(#[trigger] fetched[i]),
        answers[fetched.len() as int] is None,
        0 <= j <= fetched.len(),
    ensures
        ({
            let s = run(seq![leaf] + fetched.subrange(0, j), false, answers.subrange(j, answers.len() as int));
            s.0.len() == fetched.len() + 1 && !wants_parent(s.0, s.1)
        }),
    decreases fetched.len() - j,
{
    let k = fetched.len() as int;
    let items = seq![leaf] + fetched.subrange(0, j);
    let rest = answers.subrange(j, answers.len() as int);
    if j > 0 {
        assert(items.last() == fetched[j - 1]);
    } else {
        assert(items.last() == leaf);
    }
    assert(items.len() == j + 1);
    if items.len() >= MAX_THREAD_LEN {
        assert(j == k);
        assert(!wants_parent(items, false));
    } else if j == k {
        assert(wants_parent(items, false));
        assert(rest[0] is None);
        assert(receive_spec(items, rest[0]) == (items, true));
        assert(!wants_parent(items, true));
        assert(run(items, true, rest.drop_first()) == (items, true));
    } else {
        assert(wants_parent(items, false));
        assert(rest[0] == Some(fetched[j]));
        assert(items.push(fetched[j]) =~= seq![leaf] + fetched.subrange(0, j + 1));
        assert(rest.drop_first() =~= answers.subrange(j + 1, answers.len() as int));
        lemma_failed_run(leaf, fetched, answers, j + 1);
    }
}

/// Where the parent fetch at hop `k` (`k` successful fetches before it) fails,
/// the thread holds `k + 1` posts and the walk asks for no further fetch.
pub proof fn lemma_failed_fetch(
    leaf: TweetRecord,
    fetched: Seq<TweetRecord>,
    answers: Seq<Option<TweetRecord>>,
)
    requires
        fetched.len() < MAX_THREAD_LEN,
        answers.len() > fetched.len(),
        parent_of(leaf) is Some,
        forall|i: int| 0 <= i < fetched.len() ==> parent_of(#[trigger] fetched[i]) is Some,
        forall|i: int| 0 <= i < fetched.len() ==> answers[i] == Some(#[trigger] fetched[i]),
        answers[fetched.len() as int] is None,
    ensures
        thread_after(leaf, answers).len() == fetched.len() + 1,
        walk_done(leaf, answers),
{
    assert(seq![leaf] + fetched.subrange(0, 0) =~= seq![leaf]);
    assert(answers.subrange(0, answers.len() as int) =~= answers);
    lemma_failed_run(leaf, fetched, answers, 0);
}

/// Rebuilds a reply chain backwards from a leaf post, one parent fetch at a time.
pub struct ThreadBuilder {
    newest_first: Vec<TweetRecord>,
    stopped: bool,
}

impl ThreadBuilder {
    /// The posts gathered so far, the leaf first.
    pub closed spec fn items(&self) -> Seq<TweetRecord> {
        self.newest_first@
    }

    /// Whether a parent fetch has failed.
    pub closed spec fn is_stopped(&self) -> bool {
        self.stopped
    }

    pub open spec fn wf(&self) -> bool {
        1 <= self.items().len() <= MAX_THREAD_LEN
    }

    /// Whether the walk still asks for a parent.
    pub open spec fn wants_parent(&self) -> bool {
        wants_parent(self.items(), self.is_stopped())
    }

    pub fn start(leaf: TweetRecord) -> (r: Self)
        ensures
            r.wf(),
            r.items() == seq![leaf],
            !r.is_stopped(),
    {
        let mut newest_first: Vec<TweetRecord> = Vec::new();
        newest_first.push(leaf);
        ThreadBuilder { newest_first, stopped: false }
    }

    /// The id of the parent to fetch next, or `None` when the walk is over.
    pub fn parent_to_fetch(&self) -> (r: Option<String>)
        requires
            self.wf(),
        ensures
            r is Some <==> self.wants_parent(),
            r matches Some(id) ==> parent_of(self.items().last()) == Some(id@),
    {
        if self.stopped || self.newest_first.len() >= MAX_THREAD_LEN {
            return None;
        }
        let last = &self.newest_first[self.newest_first.len() - 1];
        match &last.in_reply_to_status_id {
            Some(p) => Some(p.clone()),
            None => None,
        }
    }

    /// Takes the answer to the parent fetch: the parent, or `None` where the fetch failed.
    pub fn receive_parent(&mut self, parent: Option<TweetRecord>)
        requires
            old(self).wf(),
            old(self).wants_parent(),
        ensures
            final(self).wf(),
            (final(self).items(), final(self).is_stopped()) == receive_spec(
                old(self).items(),
                parent,
            ),
    {
        match parent {
            Some(p) => {
                self.newest_first.push(p);
            },
            None => {
                self.stopped = true;
            },
        }
    }

    /// The thread, oldest first, with the leaf last.
    pub fn finish(self) -> (r: Vec<TweetRecord>)
        ensures
            r@ == self.items().reverse(),
    {
        let mut src = self.newest_first;
        let ghost all = src@;
        let mut out: Vec<TweetRecord> = Vec::new();
        while src.len() > 0
            invariant
                src@ == all.subrange(0, src@.len() as int),
                out@ == all.subrange(src@.len() as int, all.len() as int).reverse(),
                src@.len() <= all.len(),
            decreases src@.len(),
        {
            let t = src.pop().unwrap();
            out.push(t);
            assert(out@ =~= all.subrange(src@.len() as int, all.len() as int).reverse());
        }
        assert(all.subrange(0, all.len() as int) =~= all);
        out
    }
}

} // verus!
