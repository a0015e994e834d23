//! The bookkeeping of one poll cycle of a source stream.
//!
//! A cycle reads the stream's stored frontier, is offered the posts of the
//! source's listing one at a time (newest first), and then hands out its
//! actions: every new post to enqueue, in ascending order of identifier, and
//! after them the new frontier to store, exactly once.
use crate::token::{decimal, decimal_value, id_to_token, is_decimal, token_to_id};
use vstd::multiset::Multiset;
use vstd::prelude::*;

verus! {

broadcast use vstd::seq_lib::group_to_multiset_ensures;

/// How a cycle fetches: at most `limit` posts, only those above `until`.
#[derive(Clone, Copy, Debug, PartialEq, Eq, Structural)]
pub struct PollPlan {
    pub limit: isize,
    pub until: u64,
    pub bootstrap: bool,
}

/// The frontier that a stored token holds, if it holds one.
pub open spec fn stored_frontier(stored: Option<Seq<char>>) -> Option<u64> {
    match stored {
        Some(t) => if is_decimal(t) && decimal_value(t) <= u64::MAX {
            Some(decimal_value(t) as u64)
        } else {
            None
        },
        None => None,
    }
}

/// A stream with a frontier fetches incrementally, above the frontier and
/// within `poll_limit`; one without (never stored, or unreadable) bootstraps
/// within `fresh_poll_limit`.
pub open spec fn plan_of(stored: Option<Seq<char>>, fresh_poll_limit: isize, poll_limit: isize) -> PollPlan {
    match stored_frontier(stored) {
        Some(f) => PollPlan { limit: poll_limit, until: f, bootstrap: false },
        None => PollPlan { limit: fresh_poll_limit, until: 0, bootstrap: true },
    }
}

pub open spec fn opt_view(stored: Option<&str>) -> Option<Seq<char>> {
    match stored {
        Some(s) => Some(s@),
        None => None,
    }
}

/// Chooses between a bootstrap and an incremental fetch from what the token
/// store returned for the stream.
pub fn plan_poll(stored: Option<&str>, fresh_poll_limit: isize, poll_limit: isize) -> (r: PollPlan)
    ensures
        r == plan_of(opt_view(stored), fresh_poll_limit, poll_limit),
{
    let frontier = match stored {
        Some(t) => token_to_id(t),
        None => None,
    };
    match frontier {
        Some(f) => PollPlan { limit: poll_limit, until: f, bootstrap: false },
        None => PollPlan { limit: fresh_poll_limit, until: 0, bootstrap: true },
    }
}

/// The number of leading items of `q` that are at most `x`.
pub open spec fn sorted_pos(q: Seq<u64>, x: u64) -> nat
    decreases q.len(),
{
    if q.len() == 0 || q[0] > x {
        0
    } else {
        1 + sorted_pos(q.drop_first(), x)
    }
}

/// `q` with `x` put after every item that is at most `x`.
pub open spec fn insert_sorted(q: Seq<u64>, x: u64) -> Seq<u64> {
    q.insert(sorted_pos(q, x) as int, x)
}

pub open spec fn is_sorted(q: Seq<u64>) -> bool {
    forall|i: int, j: int| 0 <= i <= j < q.len() ==> q[i] <= q[j]
}

/// The larger of `f` and every item of `s`.
pub open spec fn max_of(f: nat, s: Seq<u64>) -> nat
    decreases s.len(),
{
    if s.len() == 0 {
        f
    } else {
        let m = max_of(f, s.drop_last());
        if s.last() > m {
            s.last() as nat
        } else {
            m
        }
    }
}

/// What a cycle hands out, in the abstract.
pub enum ActionView {
    Enqueue(u64),
    Store(Seq<char>),
    Done,
}

/// What a cycle hands out: a post to enqueue, the token to store, or nothing
/// more to do.
pub enum PollAction {
    Enqueue(u64),
    Store(String),
    Done,
}

impl View for PollAction {
    type V = ActionView;

    open spec fn view(&self) -> ActionView {
        match self {
            PollAction::Enqueue(id) => ActionView::Enqueue(*id),
            PollAction::Store(t) => ActionView::Store(t@),
            PollAction::Done => ActionView::Done,
        }
    }
}

/// The abstract state of a cycle.
pub struct CycleView {
    pub plan: PollPlan,
    /// How many more posts may be accepted (may be negative).
    pub remaining: int,
    /// Whether posts are still being offered.
    pub scraping: bool,
    /// The accepted posts, ascending.
    pub queue: Seq<u64>,
    /// How many of `queue` have been handed out.
    pub next: nat,
    pub frontier: nat,
    pub stored: bool,
}

pub open spec fn start_view(plan: PollPlan) -> CycleView {
    CycleView {
        plan,
        remaining: plan.limit as int,
        scraping: true,
        queue: Seq::empty(),
        next: 0,
        frontier: plan.until as nat,
        stored: false,
    }
}

/// The state after one offer: a post, or `None` when the listing is
/// exhausted. A post is accepted while fewer than `limit` posts have been
/// and it is above `until`; the first one that is not ends the offers.
pub open spec fn offer_view(v: CycleView, post: Option<u64>) -> CycleView {
    if !v.scraping {
        v
    } else {
        match post {
            Some(p) => if v.remaining > 0 && p > v.plan.until {
                CycleView {
                    remaining: v.remaining - 1,
                    queue: insert_sorted(v.queue, p),
                    frontier: if p > v.frontier { p as nat } else { v.frontier },
                    ..v
                }
            } else {
                CycleView { scraping: false, ..v }
            },
            None => CycleView { scraping: false, ..v },
        }
    }
}

/// The state after the listing `posts` has been offered in order.
pub open spec fn scrape_run(v: CycleView, posts: Seq<u64>) -> CycleView
    decreases posts.len(),
{
    if posts.len() == 0 {
        v
    } else {
        offer_view(scrape_run(v, posts.drop_last()), Some(posts.last()))
    }
}

/// The next action of a cycle and the state after it. Asking for an action
/// ends the offers.
pub open spec fn step_view(v: CycleView) -> (ActionView, CycleView) {
    let c = CycleView { scraping: false, ..v };
    if c.next < c.queue.len() {
        (ActionView::Enqueue(c.queue[c.next as int]), CycleView { next: c.next + 1, ..c })
    } else if !c.stored {
        (ActionView::Store(decimal(c.frontier)), CycleView { stored: true, ..c })
    } else {
        (ActionView::Done, c)
    }
}

/// The first `k` actions of a cycle, and the state after them.
pub open spec fn steps(v: CycleView, k: nat) -> (Seq<ActionView>, CycleView)
    decreases k,
{
    if k == 0 {
        (Seq::empty(), v)
    } else {
        let (acts, w) = steps(v, (k - 1) as nat);
        let (a, w2) = step_view(w);
        (acts.push(a), w2)
    }
}

/// The state of a cycle that the invariants of `PollCycle` allow.
pub open spec fn cycle_inv(v: CycleView) -> bool {
    &&& is_sorted(v.queue)
    &&& v.queue.len() + v.remaining == v.plan.limit
    &&& (v.remaining >= 0 || v.queue.len() == 0)
    &&& v.next <= v.queue.len()
    &&& v.frontier >= v.plan.until
    &&& v.frontier <= u64::MAX
    &&& forall|i: int| 0 <= i < v.queue.len() ==> v.plan.until < #[trigger] v.queue[i] <= v.frontier
}

/// One poll cycle of a stream.
pub struct PollCycle {
    plan: PollPlan,
    remaining: isize,
    scraping: bool,
    queue: Vec<u64>,
    next: usize,
    frontier: u64,
    stored: bool,
}

impl View for PollCycle {
    type V = CycleView;

    closed spec fn view(&self) -> CycleView {
        CycleView {
            plan: self.plan,
            remaining: self.remaining as int,
            scraping: self.scraping,
            queue: self.queue@,
            next: self.next as nat,
            frontier: self.frontier as nat,
            stored: self.stored,
        }
    }
}

proof fn lemma_sorted_pos(q: Seq<u64>, x: u64)
    requires
        is_sorted(q),
    ensures
        sorted_pos(q, x) <= q.len(),
        forall|i: int| 0 <= i < sorted_pos(q, x) ==> #[trigger] q[i] <= x,
        forall|i: int| sorted_pos(q, x) <= i < q.len() ==> #[trigger] q[i] > x,
    decreases q.len(),
{
    if q.len() > 0 && q[0] <= x {
        let t = q.drop_first();
        assert(is_sorted(t)) by {
            assert forall|i: int, j: int| 0 <= i <= j < t.len() implies t[i] <= t[j] by {
                assert(t[i] == q[i + 1] && t[j] == q[j + 1]);
            }
        }
        lemma_sorted_pos(t, x);
        assert forall|i: int| 0 <= i < sorted_pos(q, x) implies #[trigger] q[i] <= x by {
            if i > 0 {
                assert(q[i] == t[i - 1]);
            }
        }
        assert forall|i: int| sorted_pos(q, x) <= i < q.len() implies #[trigger] q[i] > x by {
            assert(q[i] == t[i - 1]);
        }
    }
}

proof fn lemma_insert_sorted(q: Seq<u64>, x: u64)
    requires
        is_sorted(q),
    ensures
        is_sorted(insert_sorted(q, x)),
        insert_sorted(q, x).len() == q.len() + 1,
        insert_sorted(q, x).to_multiset() == q.to_multiset().insert(x),
        forall|y: u64| insert_sorted(q, x).contains(y) <==> (q.contains(y) || y == x),
{
    lemma_sorted_pos(q, x);
    let k = sorted_pos(q, x) as int;
    let r = insert_sorted(q, x);
    assert forall|i: int| 0 <= i < r.len() implies #[trigger] r[i] == if i < k {
        q[i]
    } else if i == k {
        x
    } else {
        q[i - 1]
    } by {}
    assert forall|y: u64| r.contains(y) <==> (q.contains(y) || y == x) by {
        if r.contains(y) {
            let i = choose|i: int| 0 <= i < r.len() && r[i] == y;
            if i < k {
                assert(q[i] == y);
            } else if i > k {
                assert(q[i - 1] == y);
            }
        }
        if q.contains(y) {
            let i = choose|i: int| 0 <= i < q.len() && q[i] == y;
            if i < k {
                assert(r[i] == y);
            } else {
                assert(r[i + 1] == y);
            }
        }
        if y == x {
            assert(r[k] == y);
        }
    }
}

proof fn lemma_offer_keeps_inv(v: CycleView, post: Option<u64>)
    requires
        cycle_inv(v),
        v.scraping ==> v.next == 0,
    ensures
        cycle_inv(offer_view(v, post)),
{
    if v.scraping {
        if let Some(p) = post {
            if v.remaining > 0 && p > v.plan.until {
                lemma_insert_sorted(v.queue, p);
                let w = offer_view(v, post);
                assert forall|i: int| 0 <= i < w.queue.len() implies v.plan.until < #[trigger] w.queue[i] <= w.frontier by {
                    assert(w.queue.contains(w.queue[i]));
                    if v.queue.contains(w.queue[i]) {
                        let j = choose|j: int| 0 <= j < v.queue.len() && v.queue[j] == w.queue[i];
                        assert(v.plan.until < v.queue[j] <= v.frontier);
                    }
                }
            }
        }
    }
}

impl PollCycle {
    pub closed spec fn wf(&self) -> bool {
        &&& cycle_inv(self@)
        &&& (self.scraping ==> self.next == 0)
    }

    /// A cycle for a stream whose token store returned `stored`.
    pub fn start(stored: Option<&str>, fresh_poll_limit: isize, poll_limit: isize) -> (r: Self)
        ensures
            r.wf(),
            r@ == start_view(plan_of(opt_view(stored), fresh_poll_limit, poll_limit)),
    {
        let plan = plan_poll(stored, fresh_poll_limit, poll_limit);
        PollCycle {
            plan,
            remaining: plan.limit,
            scraping: true,
            queue: Vec::new(),
            next: 0,
            frontier: plan.until,
            stored: false,
        }
    }

    /// The plan that the cycle follows.
    pub fn plan(&self) -> (r: PollPlan)
        ensures
            r == self@.plan,
    {
        self.plan
    }

    /// Offers the next post of the listing (`None`: the listing is
    /// exhausted) and returns whether the cycle wants another.
    pub fn offer(&mut self, post: Option<u64>) -> (more: bool)
        requires
            old(self).wf(),
        ensures
            final(self).wf(),
            final(self)@ == offer_view(old(self)@, post),
            more == final(self)@.scraping,
    {
        proof {
            lemma_offer_keeps_inv(self@, post);
        }
        if !self.scraping {
            return false;
        }
        match post {
            Some(p) => {
                if self.remaining > 0 && p > self.plan.until {
                    proof {
                        lemma_sorted_pos(self.queue@, p);
                    }
                    let mut k: usize = 0;
                    while k < self.queue.len() && self.queue[k] <= p
                        invariant
                            k <= self.queue.len(),
                            k <= sorted_pos(self.queue@, p),
                            is_sorted(self.queue@),
                            forall|i: int| 0 <= i < sorted_pos(self.queue@, p) ==> #[trigger] self.queue@[i] <= p,
                            forall|i: int| sorted_pos(self.queue@, p) <= i < self.queue.len() ==> #[trigger] self.queue@[i] > p,
                        decreases self.queue.len() - k,
                    {
                        k = k + 1;
                    }
                    self.queue.insert(k, p);
                    self.remaining = self.remaining - 1;
                    if p > self.frontier {
                        self.frontier = p;
                    }
                    true
                } else {
                    self.scraping = false;
                    false
                }
            },
            None => {
                self.scraping = false;
                false
            },
        }
    }

    /// Hands out the next action: each accepted post in ascending order,
    /// then the token of the new frontier, then `Done`.
    pub fn next_action(&mut self) -> (r: PollAction)
        requires
            old(self).wf(),
        ensures
            final(self).wf(),
            (r@, final(self)@) == step_view(old(self)@),
    {
        self.scraping = false;
        if self.next < self.queue.len() {
            let id = self.queue[self.next];
            self.next = self.next + 1;
            PollAction::Enqueue(id)
        } else if !self.stored {
            self.stored = true;
            PollAction::Store(id_to_token(self.frontier))
        } else {
            PollAction::Done
        }
    }
}

proof fn lemma_scrape_inv(v: CycleView, posts: Seq<u64>)
    requires
        cycle_inv(v),
        v.scraping ==> v.next == 0,
    ensures
        cycle_inv(scrape_run(v, posts)),
        scrape_run(v, posts).scraping ==> scrape_run(v, posts).next == 0,
        scrape_run(v, posts).plan == v.plan,
        scrape_run(v, posts).next == v.next,
        !scrape_run(v, posts).stored <== !v.stored,
    decreases posts.len(),
{
    if posts.len() > 0 {
        lemma_scrape_inv(v, posts.drop_last());
        lemma_offer_keeps_inv(scrape_run(v, posts.drop_last()), Some(posts.last()));
    }
}

/// Bootstrap and incremental fetches: whatever the listing, a stream
/// without a readable frontier accepts at most `fresh_poll_limit` posts, and
/// a stream with frontier `f` accepts at most `poll_limit` posts, each of
/// them above `f`.
pub proof fn lemma_fetch_bounds(
    stored: Option<Seq<char>>,
    fresh_poll_limit: isize,
    poll_limit: isize,
    posts: Seq<u64>,
)
    ensures
        ({
            let w = scrape_run(start_view(plan_of(stored, fresh_poll_limit, poll_limit)), posts);
            &&& stored_frontier(stored) is None ==> w.queue.len() <= if fresh_poll_limit > 0 {
                fresh_poll_limit as int
            } else {
                0
            }
            &&& stored_frontier(stored) matches Some(f) ==> {
                &&& w.queue.len() <= if poll_limit > 0 { poll_limit as int } else { 0 }
                &&& forall|i: int| 0 <= i < w.queue.len() ==> #[trigger] w.queue[i] > f
            }
        }),
{
    let v = start_view(plan_of(stored, fresh_poll_limit, poll_limit));
    lemma_scrape_inv(v, posts);
}

/// Frontier advancement: when every post of the listing is above the
/// stored frontier and the listing is within the limit, all of them are
/// enqueued, in ascending order, and the new frontier is the largest of the
/// old frontier and the posts, whatever order they were discovered in.
pub proof fn lemma_frontier_advances(plan: PollPlan, posts: Seq<u64>)
    requires
        posts.len() <= plan.limit,
        forall|i: int| 0 <= i < posts.len() ==> #[trigger] posts[i] > plan.until,
    ensures
        ({
            let w = scrape_run(start_view(plan), posts);
            &&& w.queue.to_multiset() == posts.to_multiset()
            &&& is_sorted(w.queue)
            &&& w.frontier == max_of(plan.until as nat, posts)
            &&& w.scraping
        }),
    decreases posts.len(),
{
    let v = start_view(plan);
    lemma_scrape_inv(v, posts);
    if posts.len() > 0 {
        let init = posts.drop_last();
        assert forall|i: int| 0 <= i < init.len() implies #[trigger] init[i] > plan.until by {
            assert(init[i] == posts[i]);
        }
        lemma_frontier_advances(plan, init);
        lemma_scrape_inv(v, init);
        let u = scrape_run(v, init);
        lemma_insert_sorted(u.queue, posts.last());
        assert(posts =~= init.push(posts.last()));
        assert(u.queue.to_multiset().len() == u.queue.len());
        assert(init.to_multiset().len() == init.len());
        assert(u.queue.len() == init.len());
        assert(u.scraping && u.remaining > 0);
        assert(posts.last() == posts[posts.len() - 1]);
        assert(posts.last() > plan.until);
        assert(init.push(posts.last()).to_multiset() == init.to_multiset().insert(posts.last()));
        assert(max_of(plan.until as nat, posts) == if posts.last() > max_of(plan.until as nat, init) {
            posts.last() as nat
        } else {
            max_of(plan.until as nat, init)
        });
    } else {
        assert(posts.to_multiset() =~= Multiset::<u64>::empty());
    }
}

proof fn lemma_steps_enqueue(v: CycleView, k: nat)
    requires
        cycle_inv(v),
        v.next == 0,
        !v.stored,
        k <= v.queue.len(),
    ensures
        steps(v, k).0 == v.queue.take(k as int).map_values(|id: u64| ActionView::Enqueue(id)),
        steps(v, k).1.next == k,
        !steps(v, k).1.stored,
        steps(v, k).1.queue == v.queue,
        steps(v, k).1.frontier == v.frontier,
    decreases k,
{
    if k > 0 {
        lemma_steps_enqueue(v, (k - 1) as nat);
        assert(v.queue.take(k as int).map_values(|id: u64| ActionView::Enqueue(id)) =~= v.queue.take(
            (k - 1) as int,
        ).map_values(|id: u64| ActionView::Enqueue(id)).push(ActionView::Enqueue(v.queue[k - 1])));
    } else {
        assert(v.queue.take(0).map_values(|id: u64| ActionView::Enqueue(id)) =~= Seq::<
            ActionView,
        >::empty());
    }
}

/// Store after enqueue, and delivery at least once: the first actions of a
/// cycle enqueue its accepted posts in order and store nothing, and only the
/// action after them stores the frontier. So a process that stops after any
/// number `k` of those enqueues leaves the stored token as it was; the cycle
/// that runs after a restart starts from the same token, so for the same
/// listing it accepts the same posts, among them every post that was
/// enqueued before the stop.
pub proof fn lemma_at_least_once(
    stored: Option<Seq<char>>,
    fresh_poll_limit: isize,
    poll_limit: isize,
    posts: Seq<u64>,
    k: nat,
)
    requires
        k <= scrape_run(start_view(plan_of(stored, fresh_poll_limit, poll_limit)), posts).queue.len(),
    ensures
        ({
            let w = scrape_run(start_view(plan_of(stored, fresh_poll_limit, poll_limit)), posts);
            let (acts, after) = steps(w, k);
            let restart = scrape_run(start_view(plan_of(stored, fresh_poll_limit, poll_limit)), posts);
            &&& !after.stored
            &&& forall|i: int| 0 <= i < k ==> acts[i] == ActionView::Enqueue(#[trigger] w.queue[i])
            &&& forall|i: int| 0 <= i < k ==> restart.queue.contains(#[trigger] w.queue[i])
            &&& steps(w, (w.queue.len() + 1) as nat).0.last() == ActionView::Store(decimal(w.frontier))
        }),
{
    let v = start_view(plan_of(stored, fresh_poll_limit, poll_limit));
    lemma_scrape_inv(v, posts);
    let w = scrape_run(v, posts);
    lemma_steps_enqueue(w, k);
    lemma_steps_enqueue(w, w.queue.len());
    let (acts, _after) = steps(w, k);
    assert forall|i: int| 0 <= i < k implies acts[i] == ActionView::Enqueue(#[trigger] w.queue[i]) by {
        assert(acts[i] == w.queue.take(k as int).map_values(|id: u64| ActionView::Enqueue(id))[i]);
    }
    assert forall|i: int| 0 <= i < k implies w.queue.contains(#[trigger] w.queue[i]) by {}
}

} // verus!
