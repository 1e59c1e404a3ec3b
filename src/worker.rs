//! The delivery worker: an ordered queue of pending envelopes with at most one
//! delivery in flight, and its `Running -> Draining -> Stopped` life cycle.
//!
//! Overflow policy: an envelope that arrives while the queue holds `capacity`
//! envelopes is rejected (drop-newest); the producer is never blocked. While
//! draining, new envelopes are rejected and the queued ones are still handed out.

use std::collections::VecDeque;
use vstd::prelude::*;

verus! {

/// Life-cycle phase of a worker.
#[derive(Clone, Copy, Debug, PartialEq, Eq, Structural)]
pub enum Phase {
    Running,
    Draining,
    Stopped,
}

/// Outcome of polling a flush.
#[derive(Clone, Copy, Debug, PartialEq, Eq, Structural)]
pub enum FlushStatus {
    /// Every envelope accepted before the flush began has been delivered.
    Done,
    /// Not yet, and the deadline has not passed.
    Waiting,
    /// Not yet, and the deadline has passed.
    TimedOut,
}

/// The mathematical state of a worker.
pub struct WorkerView<E> {
    pub phase: Phase,
    pub capacity: nat,
    /// Envelopes waiting, oldest first.
    pub queue: Seq<E>,
    /// Whether a delivery has been handed out and not yet reported finished.
    pub in_flight: bool,
    /// Every envelope ever accepted, in order of acceptance.
    pub accepted: Seq<E>,
    /// Every envelope ever handed out for delivery, in order.
    pub started: Seq<E>,
    /// How many handed-out deliveries have finished.
    pub finished: nat,
}

/// Something that happens to a worker.
pub enum Event<E> {
    Send(E),
    Poll,
    Finish,
    Shutdown,
    Stop,
}

impl<E> WorkerView<E> {
    /// The consistency of the counters and logs.
    pub open spec fn wf(self) -> bool {
        &&& self.started.len() <= self.accepted.len()
        &&& self.started == self.accepted.subrange(0, self.started.len() as int)
        &&& self.phase != Phase::Stopped ==> self.accepted == self.started + self.queue
        &&& self.phase == Phase::Stopped ==> self.queue.len() == 0
        &&& self.finished + (if self.in_flight { 1int } else { 0 }) == self.started.len()
        &&& self.accepted.len() <= u64::MAX
    }

    /// Whether a send is accepted in this state.
    pub open spec fn accepts(self) -> bool {
        self.phase == Phase::Running && self.queue.len() < self.capacity && self.accepted.len()
            < u64::MAX
    }

    pub open spec fn after_send(self, e: E) -> WorkerView<E> {
        if self.accepts() {
            WorkerView { queue: self.queue.push(e), accepted: self.accepted.push(e), ..self }
        } else {
            self
        }
    }

    /// Whether a poll hands out a delivery in this state.
    pub open spec fn can_start(self) -> bool {
        self.phase != Phase::Stopped && !self.in_flight && self.queue.len() > 0
    }

    pub open spec fn after_poll(self) -> WorkerView<E> {
        if self.can_start() {
            WorkerView {
                queue: self.queue.drop_first(),
                in_flight: true,
                started: self.started.push(self.queue[0]),
                ..self
            }
        } else {
            self
        }
    }

    pub open spec fn after_finish(self) -> WorkerView<E> {
        if self.in_flight {
            WorkerView { in_flight: false, finished: self.finished + 1, ..self }
        } else {
            self
        }
    }

    pub open spec fn after_shutdown(self) -> WorkerView<E> {
        if self.phase == Phase::Running {
            WorkerView { phase: Phase::Draining, ..self }
        } else {
            self
        }
    }

    pub open spec fn after_stop(self) -> WorkerView<E> {
        WorkerView { phase: Phase::Stopped, queue: Seq::empty(), ..self }
    }

    /// The state after `ev`.
    pub open spec fn step(self, ev: Event<E>) -> WorkerView<E> {
        match ev {
            Event::Send(e) => self.after_send(e),
            Event::Poll => self.after_poll(),
            Event::Finish => self.after_finish(),
            Event::Shutdown => self.after_shutdown(),
            Event::Stop => self.after_stop(),
        }
    }

    /// The state after the events `evs`, in order.
    pub open spec fn run(self, evs: Seq<Event<E>>) -> WorkerView<E>
        decreases evs.len(),
    {
        if evs.len() == 0 {
            self
        } else {
            self.step(evs[0]).run(evs.drop_first())
        }
    }

    /// The deliveries handed out while the events `evs` happen, in order.
    pub open spec fn deliveries(self, evs: Seq<Event<E>>) -> Seq<E>
        decreases evs.len(),
    {
        if evs.len() == 0 {
            Seq::empty()
        } else {
            let d = match evs[0] {
                Event::Poll => if self.can_start() {
                    seq![self.queue[0]]
                } else {
                    Seq::empty()
                },
                _ => Seq::empty(),
            };
            d + self.step(evs[0]).deliveries(evs.drop_first())
        }
    }

    /// Whether everything among the first `mark` accepted envelopes has been
    /// delivered.
    pub open spec fn flushed(self, mark: nat) -> bool {
        mark <= self.finished
    }
}

/// A fresh, running worker.
pub open spec fn fresh<E>(capacity: nat) -> WorkerView<E> {
    WorkerView {
        phase: Phase::Running,
        capacity,
        queue: Seq::empty(),
        in_flight: false,
        accepted: Seq::empty(),
        started: Seq::empty(),
        finished: 0,
    }
}

/// A fresh worker is consistent.
pub proof fn lemma_fresh_wf<E>(capacity: nat)
    ensures
        fresh::<E>(capacity).wf(),
{
    let v = fresh::<E>(capacity);
    assert(v.accepted =~= v.started + v.queue);
    assert(v.started =~= v.accepted.subrange(0, 0));
}

/// Each event keeps the state consistent.
pub proof fn lemma_step_wf<E>(v: WorkerView<E>, ev: Event<E>)
    requires
        v.wf(),
    ensures
        v.step(ev).wf(),
{
    match ev {
        Event::Send(e) => {
            if v.accepts() {
                let w = v.step(ev);
                assert(w.accepted =~= w.started + w.queue);
                assert(w.started =~= w.accepted.subrange(0, w.started.len() as int));
            }
        },
        Event::Poll => {
            if v.can_start() {
                let w = v.step(ev);
                assert(w.started + w.queue =~= v.started + v.queue);
                assert(w.started =~= w.accepted.subrange(0, w.started.len() as int));
            }
        },
        _ => {},
    }
}

/// Every run of events keeps the state consistent, and appends exactly the
/// handed-out deliveries to the log of started ones.
pub proof fn lemma_run<E>(v: WorkerView<E>, evs: Seq<Event<E>>)
    requires
        v.wf(),
    ensures
        v.run(evs).wf(),
        v.run(evs).started == v.started + v.deliveries(evs),
        v.accepted.is_prefix_of(v.run(evs).accepted),
    decreases evs.len(),
{
    if evs.len() > 0 {
        lemma_step_wf(v, evs[0]);
        lemma_run(v.step(evs[0]), evs.drop_first());
        assert(v.run(evs).started =~= v.started + v.deliveries(evs));
    }
}

/// Deliveries are handed out in the order in which envelopes were accepted:
/// from a fresh worker, whatever happens, the deliveries so far are the
/// oldest accepted envelopes, in acceptance order.
pub proof fn lemma_fifo<E>(capacity: nat, evs: Seq<Event<E>>)
    ensures
        fresh::<E>(capacity).deliveries(evs).is_prefix_of(fresh::<E>(capacity).run(evs).accepted),
{
    let v = fresh::<E>(capacity);
    lemma_fresh_wf::<E>(capacity);
    lemma_run(v, evs);
    assert(v.started + v.deliveries(evs) =~= v.deliveries(evs));
}

/// At most one delivery is in flight: in every reachable state the handed-out
/// deliveries that have not finished number zero or one, and a poll while one
/// is in flight hands out nothing.
pub proof fn lemma_single_flight<E>(capacity: nat, evs: Seq<Event<E>>)
    ensures
        ({
            let w = fresh::<E>(capacity).run(evs);
            &&& w.started.len() - w.finished <= 1
            &&& w.in_flight ==> w.after_poll() == w
        }),
{
    lemma_fresh_wf::<E>(capacity);
    lemma_run(fresh::<E>(capacity), evs);
}

/// A stopped worker delivers nothing, whatever is sent to it afterwards, and
/// stays stopped.
pub proof fn lemma_stopped_delivers_nothing<E>(v: WorkerView<E>, evs: Seq<Event<E>>)
    requires
        v.phase == Phase::Stopped,
        v.queue.len() == 0,
    ensures
        v.deliveries(evs).len() == 0,
        v.run(evs).phase == Phase::Stopped,
    decreases evs.len(),
{
    if evs.len() > 0 {
        let w = v.step(evs[0]);
        lemma_stopped_delivers_nothing(w, evs.drop_first());
    }
}

/// A flush begun when `mark` envelopes had been accepted is complete exactly
/// when each of those envelopes has been delivered, in order.
pub proof fn lemma_flush<E>(v: WorkerView<E>, mark: nat)
    requires
        v.wf(),
        mark <= v.accepted.len(),
    ensures
        v.flushed(mark) <==> v.accepted.subrange(0, mark as int) =~= v.started.subrange(
            0,
            mark as int,
        ) && mark <= v.finished,
{
    if v.flushed(mark) {
        assert(v.started.subrange(0, mark as int) =~= v.accepted.subrange(0, mark as int));
    }
}

/// A delivery worker holding envelopes of type `E`.
pub struct DeliveryWorker<E> {
    queue: VecDeque<E>,
    capacity: usize,
    in_flight: bool,
    phase: Phase,
    accepted: u64,
    finished: u64,
    accepted_log: Ghost<Seq<E>>,
    started_log: Ghost<Seq<E>>,
}

impl<E> View for DeliveryWorker<E> {
    type V = WorkerView<E>;

    closed spec fn view(&self) -> WorkerView<E> {
        WorkerView {
            phase: self.phase,
            capacity: self.capacity as nat,
            queue: self.queue@,
            in_flight: self.in_flight,
            accepted: self.accepted_log@,
            started: self.started_log@,
            finished: self.finished as nat,
        }
    }
}

impl<E> DeliveryWorker<E> {
    /// Consistency of the worker, kept by every operation.
    pub closed spec fn wf(&self) -> bool {
        &&& self@.wf()
        &&& self.accepted as nat == self.accepted_log@.len()
    }

    /// A consistent worker has a consistent view, so the laws over
    /// `WorkerView` apply to it.
    pub proof fn lemma_wf_view(&self)
        requires
            self.wf(),
        ensures
            self@.wf(),
    {
    }

    /// A running worker with an empty queue that holds at most `capacity` envelopes.
    pub fn new(capacity: usize) -> (r: DeliveryWorker<E>)
        ensures
            r.wf(),
            r@ == fresh::<E>(capacity as nat),
    {
        let r = DeliveryWorker {
            queue: VecDeque::new(),
            capacity,
            in_flight: false,
            phase: Phase::Running,
            accepted: 0,
            finished: 0,
            accepted_log: Ghost(Seq::empty()),
            started_log: Ghost(Seq::empty()),
        };
        proof {
            lemma_fresh_wf::<E>(capacity as nat);
            assert(r@ =~= fresh::<E>(capacity as nat));
        }
        r
    }

    /// Offers `e` for delivery; `true` when it was queued. Never blocks.
    pub fn enqueue(&mut self, e: E) -> (r: bool)
        requires
            old(self).wf(),
        ensures
            final(self).wf(),
            r == old(self)@.accepts(),
            final(self)@ == old(self)@.after_send(e),
    {
        if self.phase == Phase::Running && self.queue.len() < self.capacity && self.accepted
            < u64::MAX {
            proof {
                lemma_step_wf(self@, Event::Send(e));
                self.accepted_log@ = self.accepted_log@.push(e);
            }
            self.queue.push_back(e);
            self.accepted = self.accepted + 1;
            assert(self@ =~= old(self)@.after_send(e));
            true
        } else {
            false
        }
    }

    /// Hands out the oldest queued envelope for delivery, unless a delivery is
    /// in flight, the queue is empty or the worker has stopped.
    pub fn next_delivery(&mut self) -> (r: Option<E>)
        requires
            old(self).wf(),
        ensures
            final(self).wf(),
            final(self)@ == old(self)@.after_poll(),
            r is Some <==> old(self)@.can_start(),
            r is Some ==> r->0 == old(self)@.queue[0],
    {
        if self.phase == Phase::Stopped || self.in_flight {
            return None;
        }
        proof {
            lemma_step_wf(self@, Event::Poll);
        }
        match self.queue.pop_front() {
            Some(e) => {
                self.in_flight = true;
                proof {
                    self.started_log@ = self.started_log@.push(e);
                }
                assert(self@ =~= old(self)@.after_poll());
                Some(e)
            },
            None => None,
        }
    }

    /// Records that the delivery in flight, if any, has finished.
    pub fn finish_delivery(&mut self)
        requires
            old(self).wf(),
        ensures
            final(self).wf(),
            final(self)@ == old(self)@.after_finish(),
    {
        if self.in_flight {
            proof {
                lemma_step_wf(self@, Event::Finish);
            }
            self.in_flight = false;
            self.finished = self.finished + 1;
        }
    }

    /// Stops accepting envelopes; the queued ones are still handed out.
    pub fn begin_shutdown(&mut self)
        requires
            old(self).wf(),
        ensures
            final(self).wf(),
            final(self)@ == old(self)@.after_shutdown(),
    {
        if self.phase == Phase::Running {
            self.phase = Phase::Draining;
        }
    }

    /// Enters the terminal phase, dropping what is still queued.
    pub fn stop(&mut self)
        requires
            old(self).wf(),
        ensures
            final(self).wf(),
            final(self)@ == old(self)@.after_stop(),
    {
        proof {
            lemma_step_wf(self@, Event::Stop);
        }
        self.phase = Phase::Stopped;
        self.queue.clear();
    }

    /// The mark of a flush begun now: how many envelopes have been accepted.
    pub fn flush_mark(&self) -> (r: u64)
        requires
            self.wf(),
        ensures
            r == self@.accepted.len(),
    {
        self.accepted
    }

    /// Whether a flush begun at `mark` is complete, given the current instant
    /// and its deadline; polling changes nothing.
    pub fn flush_status(&self, mark: u64, now: u64, deadline: u64) -> (r: FlushStatus)
        requires
            self.wf(),
        ensures
            r == (if self@.flushed(mark as nat) {
                FlushStatus::Done
            } else if now >= deadline {
                FlushStatus::TimedOut
            } else {
                FlushStatus::Waiting
            }),
    {
        if mark <= self.finished {
            FlushStatus::Done
        } else if now >= deadline {
            FlushStatus::TimedOut
        } else {
            FlushStatus::Waiting
        }
    }

    /// The current phase.
    pub fn phase(&self) -> (r: Phase)
        ensures
            r == self@.phase,
    {
        self.phase
    }

    /// How many envelopes wait in the queue.
    pub fn pending(&self) -> (r: usize)
        ensures
            r == self@.queue.len(),
    {
        self.queue.len()
    }

    /// Whether a delivery is in flight.
    pub fn is_in_flight(&self) -> (r: bool)
        ensures
            r == self@.in_flight,
    {
        self.in_flight
    }
}

} // verus!
