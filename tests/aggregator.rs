use gpt_exchange::counter::ResponseCounter;
use gpt_exchange::field::ShortCode;
use gpt_exchange::store::HitStore;
use gpt_exchange::worker::{HitCountMsg, Polled, Worker, WorkerStep};

fn code(s: &str) -> ShortCode {
    ShortCode::from_text(s)
}

fn flushed(step: WorkerStep) -> Vec<(ShortCode, u32)> {
    match step {
        WorkerStep::Flush(snapshot) => snapshot,
        _ => panic!("expected a flush"),
    }
}

#[test]
fn three_hits_make_one_delta() {
    let mut w = Worker::new();
    for n in [1u32, 2, 3] {
        let step = w.handle(Polled::Message(HitCountMsg::Hit(code("abc1"), n)));
        assert!(matches!(step, WorkerStep::Continue));
    }
    let snapshot = flushed(w.handle(Polled::Message(HitCountMsg::Commit)));
    assert_eq!(snapshot, vec![(code("abc1"), 6)]);
}

#[test]
fn hit_after_drain_goes_to_next_drain() {
    let mut s = HitStore::new();
    s.merge(code("xyz9"), 5);
    assert_eq!(s.drain(), vec![(code("xyz9"), 5)]);
    s.merge(code("xyz9"), 1);
    assert_eq!(s.drain(), vec![(code("xyz9"), 1)]);
    assert!(s.is_empty());
}

#[test]
fn two_idle_intervals_two_empty_commits() {
    let mut w = Worker::new();
    let mut commits = 0;
    for _ in 0..2 {
        assert!(matches!(w.handle(Polled::Empty), WorkerStep::Idle));
        let snapshot = flushed(w.handle(Polled::Message(HitCountMsg::Commit)));
        assert!(snapshot.is_empty());
        commits += 1;
    }
    assert_eq!(commits, 2);
}

#[test]
fn disconnect_stops_the_worker() {
    let mut w = Worker::new();
    w.handle(Polled::Message(HitCountMsg::Hit(code("a"), 1)));
    assert!(matches!(w.handle(Polled::Disconnected), WorkerStep::Stop));
    assert!(w.is_stopped());
    assert!(matches!(w.handle(Polled::Empty), WorkerStep::Stop));
    assert!(matches!(
        w.handle(Polled::Message(HitCountMsg::Commit)),
        WorkerStep::Stop
    ));
}

#[test]
fn merge_keeps_codes_apart() {
    let mut s = HitStore::new();
    assert!(s.is_empty());
    assert_eq!(s.len(), 0);
    s.merge(code("a"), 2);
    s.merge(code("b"), 3);
    s.merge(code("a"), 4);
    assert_eq!(s.len(), 2);
    assert_eq!(s.pending(&code("a")), 6);
    assert_eq!(s.pending(&code("b")), 3);
    assert_eq!(s.pending(&code("c")), 0);
    let mut snapshot = s.drain();
    snapshot.sort_by(|x, y| x.0.as_str().cmp(y.0.as_str()));
    assert_eq!(snapshot, vec![(code("a"), 6), (code("b"), 3)]);
    assert_eq!(s.len(), 0);
}

#[test]
fn merge_of_zero_creates_entry() {
    let mut s = HitStore::new();
    s.merge(code("z"), 0);
    assert_eq!(s.drain(), vec![(code("z"), 0)]);
}

#[test]
fn delta_stops_at_largest_u32() {
    let mut s = HitStore::new();
    s.merge(code("big"), u32::MAX - 1);
    s.merge(code("big"), 5);
    assert_eq!(s.pending(&code("big")), u32::MAX);
    s.merge(code("big"), 1);
    assert_eq!(s.drain(), vec![(code("big"), u32::MAX)]);
}

#[test]
fn drain_of_empty_store_is_empty() {
    let mut s = HitStore::new();
    assert!(s.drain().is_empty());
    assert!(s.is_empty());
}

#[test]
fn hits_reach_the_worker_through_the_channel() {
    let (counter, mut worker) = ResponseCounter::channel();
    counter.hit(code("abc1"), 2);
    counter.hit(code("abc1"), 3);
    assert!(matches!(worker.poll(), WorkerStep::Continue));
    assert!(matches!(worker.poll(), WorkerStep::Continue));
    assert_eq!(worker.pending(&code("abc1")), 5);
    assert!(matches!(worker.poll(), WorkerStep::Idle));
    assert!(worker.request_commit());
    let snapshot = flushed(worker.poll());
    assert_eq!(snapshot, vec![(code("abc1"), 5)]);
    assert_eq!(worker.pending(&code("abc1")), 0);
}

#[test]
fn commit_request_queues_behind_hits() {
    let (counter, mut worker) = ResponseCounter::channel();
    counter.hit(code("q"), 1);
    assert!(worker.request_commit());
    counter.hit(code("q"), 7);
    assert!(matches!(worker.poll(), WorkerStep::Continue));
    assert_eq!(flushed(worker.poll()), vec![(code("q"), 1)]);
    assert!(matches!(worker.poll(), WorkerStep::Continue));
    assert_eq!(worker.pending(&code("q")), 7);
}

#[test]
fn hit_after_counter_dropped_is_still_received() {
    let (counter, mut worker) = ResponseCounter::channel();
    counter.hit(code("k"), 1);
    drop(counter);
    assert!(matches!(worker.poll(), WorkerStep::Continue));
    assert!(matches!(worker.poll(), WorkerStep::Idle));
}
