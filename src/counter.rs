//! The hit channel: the handle that request handlers record views through,
//! and the worker end that consumes it.

use crate::field::ShortCode;
use crate::store::codes_unique;
use crate::worker::{step, Event, HitCountMsg, Polled, Worker, WorkerState, WorkerStep};
use crossbeam_channel::{Receiver, Sender};
use vstd::prelude::*;

verus! {

#[verifier::external_type_specification]
#[verifier::external_body]
#[verifier::reject_recursive_types(T)]
pub struct ExSender<T>(Sender<T>);

#[verifier::external_type_specification]
#[verifier::external_body]
#[verifier::reject_recursive_types(T)]
pub struct ExReceiver<T>(Receiver<T>);

/// Relies on `crossbeam_channel::unbounded`: the two ends of a new channel
/// without a bound.
#[verifier::external_body]
fn open_channel() -> (Sender<HitCountMsg>, Receiver<HitCountMsg>) {
    crossbeam_channel::unbounded()
}

/// Relies on `<Sender<T> as Clone>::clone`: one more sender on the same
/// channel.
#[verifier::external_body]
fn clone_sender(tx: &Sender<HitCountMsg>) -> Sender<HitCountMsg> {
    tx.clone()
}

/// Relies on `Sender::send`: it fails only when the receiving end is gone,
/// and then hands the message back in its error.
#[verifier::external_body]
fn send_msg(tx: &Sender<HitCountMsg>, msg: HitCountMsg) -> (r: Result<(), HitCountMsg>)
    ensures
        r matches Err(m) ==> m == msg,
{
    tx.send(msg).map_err(|e| e.0)
}

/// Relies on `Receiver::try_recv`: it returns at once, with a waiting message,
/// or with an error that tells an empty queue from one whose senders are all
/// gone.
#[verifier::external_body]
fn try_receive(rx: &Receiver<HitCountMsg>) -> Polled {
    match rx.try_recv() {
        Ok(msg) => Polled::Message(msg),
        Err(crossbeam_channel::TryRecvError::Empty) => Polled::Empty,
        Err(crossbeam_channel::TryRecvError::Disconnected) => Polled::Disconnected,
    }
}

/// The handle that request handlers record views through. Recording never
/// blocks and never fails to the caller.
pub struct ResponseCounter {
    tx: Sender<HitCountMsg>,
}

impl ResponseCounter {
    /// Opens a hit channel: the handle for request handlers, and the worker
    /// end, which starts with nothing pending.
    pub fn channel() -> (r: (ResponseCounter, HitWorker))
        ensures
            r.1.wf(),
            r.1@ == (WorkerState { pending: Map::empty(), stopped: false }),
    {
        let (tx, rx) = open_channel();
        let own = clone_sender(&tx);
        (ResponseCounter { tx }, HitWorker { worker: Worker::new(), rx, tx: own })
    }

    /// Records `count` views of `shortcode`. Where the worker is gone the
    /// views are dropped: counting never makes a request fail.
    pub fn hit(&self, shortcode: ShortCode, count: u32) {
        let _ = send_msg(&self.tx, HitCountMsg::Hit(shortcode, count));
    }
}

/// The worker end of the hit channel: the worker's state, the receiving end,
/// and a sender through which the worker asks itself for commits.
pub struct HitWorker {
    worker: Worker,
    rx: Receiver<HitCountMsg>,
    tx: Sender<HitCountMsg>,
}

impl View for HitWorker {
    type V = WorkerState;

    closed spec fn view(&self) -> WorkerState {
        self.worker@
    }
}

impl HitWorker {
    /// The worker's state is well formed.
    pub closed spec fn wf(&self) -> bool {
        self.worker.wf()
    }

    /// Receives without blocking and decides the next step. What the channel
    /// yields is up to the other threads; whatever it was, the step taken is
    /// the one [`step`] gives for it.
    pub fn poll(&mut self) -> (r: WorkerStep)
        requires
            old(self).wf(),
        ensures
            final(self).wf(),
            exists|e: Event| step(old(self)@, e) == (final(self)@, r@),
            r matches WorkerStep::Flush(snapshot) ==> codes_unique(snapshot@),
    {
        let polled = try_receive(&self.rx);
        let ghost e = polled@;
        let r = self.worker.handle(polled);
        assert(step(old(self)@, e) == (self@, r@));
        r
    }

    /// The pending delta of `code`.
    pub fn pending(&self, code: &ShortCode) -> (r: u32)
        requires
            self.wf(),
        ensures
            r == crate::store::pending_of(self@.pending, code@),
    {
        self.worker.pending(code)
    }

    /// Puts a commit request at the back of the worker's own queue, behind
    /// every hit already waiting there. True when it was enqueued.
    pub fn request_commit(&self) -> (r: bool) {
        match send_msg(&self.tx, HitCountMsg::Commit) {
            Ok(()) => true,
            Err(_) => false,
        }
    }
}

} // verus!
