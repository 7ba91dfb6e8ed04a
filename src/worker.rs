//! The worker's decisions: what to do with each receive from the hit channel.
//!
//! The loop that drives the worker receives without blocking, hands what it
//! saw to [`Worker::handle`], and carries out the step it gets back: receive
//! again, wait one idle interval and then enqueue a [`HitCountMsg::Commit`] on
//! the same channel, run a commit cycle over a snapshot, or stop.

use crate::field::ShortCode;
use crate::store::{
    codes_unique, hits_add_up, merge_all, merged, pairs_to_map, pending_of, saturating, total_for,
    HitStore,
};
use vstd::prelude::*;

verus! {

/// A message on the hit channel.
pub enum HitCountMsg {
    /// Flush the pending deltas to storage.
    Commit,
    /// A number of views of one short code.
    Hit(ShortCode, u32),
}

/// What one non-blocking receive saw.
pub enum Polled {
    /// A message was waiting.
    Message(HitCountMsg),
    /// The queue was empty.
    Empty,
    /// The queue was empty and every sender is gone.
    Disconnected,
}

/// What the worker asks of the loop around it.
pub enum WorkerStep {
    /// Receive again at once.
    Continue,
    /// Wait one idle interval, then enqueue a commit request on the channel.
    Idle,
    /// Run a commit cycle over this snapshot of the pending deltas.
    Flush(Vec<(ShortCode, u32)>),
    /// The channel is gone: leave the loop.
    Stop,
}

/// A receive, as the model of the worker sees it.
pub enum Event {
    Hit(Seq<char>, u32),
    Commit,
    Empty,
    Disconnected,
}

/// A step, as the model of the worker sees it; a snapshot is seen as the
/// deltas it lists.
pub enum Action {
    Continue,
    Idle,
    Flush(Map<Seq<char>, u32>),
    Stop,
}

/// The model of the worker: its pending deltas, and whether it has stopped.
pub struct WorkerState {
    pub pending: Map<Seq<char>, u32>,
    pub stopped: bool,
}

impl View for Polled {
    type V = Event;

    open spec fn view(&self) -> Event {
        match self {
            Polled::Message(HitCountMsg::Hit(code, count)) => Event::Hit(code@, *count),
            Polled::Message(HitCountMsg::Commit) => Event::Commit,
            Polled::Empty => Event::Empty,
            Polled::Disconnected => Event::Disconnected,
        }
    }
}

impl View for WorkerStep {
    type V = Action;

    open spec fn view(&self) -> Action {
        match self {
            WorkerStep::Continue => Action::Continue,
            WorkerStep::Idle => Action::Idle,
            WorkerStep::Flush(snapshot) => Action::Flush(pairs_to_map(snapshot@)),
            WorkerStep::Stop => Action::Stop,
        }
    }
}

/// One step of the worker. A hit is merged into the pending deltas; a commit
/// request takes them all as one snapshot and leaves none pending; an empty
/// queue asks for one idle interval and one commit request; a disconnected
/// channel stops the worker, and a stopped worker only ever stops.
pub open spec fn step(s: WorkerState, e: Event) -> (WorkerState, Action) {
    if s.stopped {
        (s, Action::Stop)
    } else {
        match e {
            Event::Hit(code, count) => (
                WorkerState { pending: merged(s.pending, code, count), stopped: false },
                Action::Continue,
            ),
            Event::Commit => (
                WorkerState { pending: Map::empty(), stopped: false },
                Action::Flush(s.pending),
            ),
            Event::Empty => (s, Action::Idle),
            Event::Disconnected => (WorkerState { pending: s.pending, stopped: true }, Action::Stop),
        }
    }
}

/// The state after a run of receives, and the steps taken on the way.
pub open spec fn run(s: WorkerState, es: Seq<Event>) -> (WorkerState, Seq<Action>)
    decreases es.len(),
{
    if es.len() == 0 {
        (s, Seq::empty())
    } else {
        let first = step(s, es[0]);
        let rest = run(first.0, es.drop_first());
        (rest.0, seq![first.1] + rest.1)
    }
}

proof fn lemma_run_concat(s: WorkerState, a: Seq<Event>, b: Seq<Event>)
    ensures
        run(s, a + b) == (run(run(s, a).0, b).0, run(s, a).1 + run(run(s, a).0, b).1),
    decreases a.len(),
{
    if a.len() == 0 {
        assert(a + b =~= b);
        assert(run(s, a).1 + run(s, b).1 =~= run(s, b).1);
    } else {
        let first = step(s, a[0]);
        assert((a + b)[0] == a[0]);
        assert((a + b).drop_first() =~= a.drop_first() + b);
        lemma_run_concat(first.0, a.drop_first(), b);
        let r1 = run(first.0, a.drop_first());
        let r2 = run(r1.0, b);
        assert(seq![first.1] + (r1.1 + r2.1) =~= (seq![first.1] + r1.1) + r2.1);
    }
}

proof fn lemma_run_one(s: WorkerState, e: Event)
    ensures
        run(s, seq![e]) == (step(s, e).0, seq![step(s, e).1]),
{
    assert(seq![e].drop_first() =~= Seq::<Event>::empty());
    assert(run(step(s, e).0, Seq::<Event>::empty()).1 =~= Seq::<Action>::empty());
    assert(seq![step(s, e).1] + Seq::<Action>::empty() =~= seq![step(s, e).1]);
}

proof fn lemma_run_round(s: WorkerState)
    requires
        !s.stopped,
    ensures
        run(s, seq![Event::Empty, Event::Commit]) == (
        WorkerState { pending: Map::empty(), stopped: false },
        seq![Action::Idle, Action::Flush(s.pending)],
        ),
{
    assert(seq![Event::Empty, Event::Commit] =~= seq![Event::Empty] + seq![Event::Commit]);
    lemma_run_concat(s, seq![Event::Empty], seq![Event::Commit]);
    lemma_run_one(s, Event::Empty);
    lemma_run_one(s, Event::Commit);
    assert(seq![Action::Idle] + seq![Action::Flush(s.pending)] =~= seq![
        Action::Idle,
        Action::Flush(s.pending),
    ]);
}

/// The receives of a run of hits.
pub open spec fn hit_events(hits: Seq<(Seq<char>, u32)>) -> Seq<Event> {
    hits.map_values(|h: (Seq<char>, u32)| Event::Hit(h.0, h.1))
}

/// `n` steps that each receive again at once.
pub open spec fn continues(n: nat) -> Seq<Action> {
    Seq::new(n, |i: int| Action::Continue)
}

proof fn lemma_run_hits(s: WorkerState, hits: Seq<(Seq<char>, u32)>)
    requires
        !s.stopped,
    ensures
        run(s, hit_events(hits)) == (
        WorkerState { pending: merge_all(s.pending, hits), stopped: false },
        continues(hits.len()),
        ),
    decreases hits.len(),
{
    if hits.len() == 0 {
        assert(hit_events(hits) =~= Seq::<Event>::empty());
        assert(continues(0) =~= Seq::<Action>::empty());
    } else {
        let init = hits.drop_last();
        lemma_run_hits(s, init);
        assert(hit_events(hits) =~= hit_events(init) + seq![Event::Hit(hits.last().0, hits.last().1)]);
        lemma_run_concat(s, hit_events(init), seq![Event::Hit(hits.last().0, hits.last().1)]);
        let mid = WorkerState { pending: merge_all(s.pending, init), stopped: false };
        lemma_run_one(mid, Event::Hit(hits.last().0, hits.last().1));
        assert(continues(init.len()) + seq![Action::Continue] =~= continues(hits.len()));
    }
}

/// A hit that arrives after a drain is kept for the next one: a commit
/// request, any run of hits, and a second commit request give a first
/// snapshot of exactly what was pending before, one immediate receive per
/// hit, and a second snapshot of exactly those hits merged from nothing.
pub proof fn merge_after_drain_is_kept(s: WorkerState, hits: Seq<(Seq<char>, u32)>)
    requires
        !s.stopped,
    ensures
        run(s, seq![Event::Commit] + hit_events(hits) + seq![Event::Commit]).1 == seq![
            Action::Flush(s.pending),
        ] + continues(hits.len()) + seq![Action::Flush(merge_all(Map::empty(), hits))],
{
    let drained = WorkerState { pending: Map::empty(), stopped: false };
    let one_commit = seq![Event::Commit];
    lemma_run_one(s, Event::Commit);
    lemma_run_concat(s, one_commit, hit_events(hits));
    lemma_run_hits(drained, hits);
    lemma_run_concat(s, one_commit + hit_events(hits), one_commit);
    let merged_state = WorkerState { pending: merge_all(Map::empty(), hits), stopped: false };
    lemma_run_one(merged_state, Event::Commit);
}

/// Every hit received before a commit request is in that request's snapshot:
/// after any run of hits and then a commit request, the snapshot gives each
/// code what was pending for it plus the sum of the counts received for it,
/// held at the largest `u32`.
pub proof fn commit_sees_every_hit(s: WorkerState, hits: Seq<(Seq<char>, u32)>, code: Seq<char>)
    requires
        !s.stopped,
    ensures
        run(s, hit_events(hits) + seq![Event::Commit]).1.last() == Action::Flush(
            merge_all(s.pending, hits),
        ),
        pending_of(merge_all(s.pending, hits), code) == saturating(
            (pending_of(s.pending, code) + total_for(hits, code)) as int,
        ) as nat,
{
    lemma_run_hits(s, hits);
    lemma_run_concat(s, hit_events(hits), seq![Event::Commit]);
    let mid = WorkerState { pending: merge_all(s.pending, hits), stopped: false };
    lemma_run_one(mid, Event::Commit);
    hits_add_up(s.pending, hits, code);
}

/// `k` idle intervals with no traffic: each time the queue is found empty,
/// and then the commit request that the worker enqueued is received.
pub open spec fn idle_rounds(k: nat) -> Seq<Event>
    decreases k,
{
    if k == 0 {
        Seq::empty()
    } else {
        idle_rounds((k - 1) as nat) + seq![Event::Empty, Event::Commit]
    }
}

/// The steps of `k` idle intervals: one wait-then-request and one flush per
/// interval; the first flush takes what was pending, the others nothing.
pub open spec fn idle_steps(first: Map<Seq<char>, u32>, k: nat) -> Seq<Action>
    decreases k,
{
    if k == 0 {
        Seq::empty()
    } else if k == 1 {
        seq![Action::Idle, Action::Flush(first)]
    } else {
        idle_steps(first, (k - 1) as nat) + seq![Action::Idle, Action::Flush(Map::empty())]
    }
}

/// Under sustained idleness exactly one commit request is enqueued per idle
/// interval: over `k` intervals the worker asks for exactly `k` waits, each
/// followed by one flush, and after the first flush every snapshot is empty.
pub proof fn one_commit_per_idle_interval(s: WorkerState, k: nat)
    requires
        !s.stopped,
    ensures
        run(s, idle_rounds(k)).1 == idle_steps(s.pending, k),
        k > 0 ==> run(s, idle_rounds(k)).0 == (WorkerState { pending: Map::empty(), stopped: false }),
    decreases k,
{
    let round = seq![Event::Empty, Event::Commit];
    if k == 0 {
        assert(idle_rounds(0) =~= Seq::<Event>::empty());
    } else if k == 1 {
        assert(idle_rounds(0) =~= Seq::<Event>::empty());
        assert(idle_rounds(1) == idle_rounds(0) + round);
        assert(idle_rounds(1) =~= round);
        lemma_run_round(s);
    } else {
        one_commit_per_idle_interval(s, (k - 1) as nat);
        lemma_run_concat(s, idle_rounds((k - 1) as nat), round);
        lemma_run_round(WorkerState { pending: Map::empty(), stopped: false });
    }
}

/// The worker: the pending deltas, and whether the channel has gone.
pub struct Worker {
    store: HitStore,
    stopped: bool,
}

impl View for Worker {
    type V = WorkerState;

    closed spec fn view(&self) -> WorkerState {
        WorkerState { pending: self.store@, stopped: self.stopped }
    }
}

impl Worker {
    /// The store is well formed.
    pub closed spec fn wf(&self) -> bool {
        self.store.wf()
    }

    /// A running worker with nothing pending.
    pub fn new() -> (r: Worker)
        ensures
            r.wf(),
            r@ == (WorkerState { pending: Map::empty(), stopped: false }),
    {
        Worker { store: HitStore::new(), stopped: false }
    }

    /// True once the worker has seen its channel disconnect.
    pub fn is_stopped(&self) -> (r: bool)
        ensures
            r == self@.stopped,
    {
        self.stopped
    }

    /// The pending delta of `code`.
    pub fn pending(&self, code: &ShortCode) -> (r: u32)
        requires
            self.wf(),
        ensures
            r == crate::store::pending_of(self@.pending, code@),
    {
        self.store.pending(code)
    }

    /// Takes one receive and decides the next step, as [`step`] says. A
    /// snapshot handed out names each code once.
    pub fn handle(&mut self, polled: Polled) -> (r: WorkerStep)
        requires
            old(self).wf(),
        ensures
            final(self).wf(),
            (final(self)@, r@) == step(old(self)@, polled@),
            r matches WorkerStep::Flush(snapshot) ==> codes_unique(snapshot@),
    {
        if self.stopped {
            return WorkerStep::Stop;
        }
        match polled {
            Polled::Message(HitCountMsg::Hit(code, count)) => {
                self.store.merge(code, count);
                WorkerStep::Continue
            },
            Polled::Message(HitCountMsg::Commit) => {
                let snapshot = self.store.drain();
                WorkerStep::Flush(snapshot)
            },
            Polled::Empty => WorkerStep::Idle,
            Polled::Disconnected => {
                self.stopped = true;
                WorkerStep::Stop
            },
        }
    }
}

} // verus!
