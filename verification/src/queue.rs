//! The job queue: an unbounded first-in, first-out channel with one producer
//! end and one consumer end that the workers share.

use std::collections::VecDeque;
use vstd::prelude::*;

verus! {

/// The error of [`JobQueue::send`] on a queue that is torn down. It hands the
/// rejected job back to the caller.
#[derive(Debug)]
pub struct SendFailed<J>(pub J);

/// What one receive attempt finds.
#[derive(Debug)]
pub enum Received<J> {
    /// The oldest waiting job, now owned by the receiver.
    Job(J),
    /// Nothing is waiting, but the producer end is still there: the receiver
    /// has to wait.
    Empty,
    /// Nothing is waiting and nothing will ever arrive.
    Disconnected,
}

/// The mathematical state of a queue: its whole history and its two ends.
pub struct QueueView<J> {
    /// Every job ever accepted, in the order of acceptance.
    pub accepted: Seq<J>,
    /// How many of them have been handed out. The jobs handed out are always
    /// the first `delivered` of `accepted`.
    pub delivered: nat,
    /// Whether the producer end still exists.
    pub sender: bool,
    /// Whether the consumer end still exists.
    pub receiver: bool,
}

impl<J> QueueView<J> {
    /// The queue right after construction.
    pub open spec fn empty() -> Self {
        QueueView { accepted: Seq::empty(), delivered: 0, sender: true, receiver: true }
    }

    /// The jobs accepted and not yet handed out, oldest first.
    pub open spec fn pending(self) -> Seq<J> {
        self.accepted.skip(self.delivered as int)
    }

    /// The jobs already handed out, in the order in which they left.
    pub open spec fn handed_out(self) -> Seq<J> {
        self.accepted.take(self.delivered as int)
    }

    /// Whether both ends exist, so that a job can still be accepted.
    pub open spec fn connected(self) -> bool {
        self.sender && self.receiver
    }

    /// The state after `job` is accepted.
    pub open spec fn after_send(self, job: J) -> Self {
        QueueView { accepted: self.accepted.push(job), ..self }
    }

    /// The state after one receive attempt.
    pub open spec fn after_receive(self) -> Self {
        if self.delivered < self.accepted.len() {
            QueueView { delivered: self.delivered + 1, ..self }
        } else {
            self
        }
    }

    /// What one receive attempt finds in this state.
    pub open spec fn next_received(self) -> Received<J> {
        if self.delivered < self.accepted.len() {
            Received::Job(self.accepted[self.delivered as int])
        } else if self.sender {
            Received::Empty
        } else {
            Received::Disconnected
        }
    }

    /// The state after the producer end is dropped.
    pub open spec fn after_close(self) -> Self {
        QueueView { sender: false, ..self }
    }

    /// The state after the consumer end is dropped.
    pub open spec fn after_disconnect(self) -> Self {
        QueueView { receiver: false, ..self }
    }
}

/// An unbounded FIFO queue of jobs of type `J`.
pub struct JobQueue<J> {
    pending: VecDeque<J>,
    sender: bool,
    receiver: bool,
    accepted: Ghost<Seq<J>>,
    delivered: Ghost<nat>,
}

impl<J> View for JobQueue<J> {
    type V = QueueView<J>;

    closed spec fn view(&self) -> QueueView<J> {
        QueueView {
            accepted: self.accepted@,
            delivered: self.delivered@,
            sender: self.sender,
            receiver: self.receiver,
        }
    }
}

impl<J> JobQueue<J> {
    /// The queue holds exactly the accepted jobs that were not handed out.
    pub closed spec fn wf(&self) -> bool {
        &&& self.delivered@ <= self.accepted@.len()
        &&& self.pending@ =~= self.accepted@.skip(self.delivered@ as int)
    }

    /// In a well-formed queue no more jobs were handed out than accepted.
    pub proof fn lemma_wf_bounds(&self)
        requires
            self.wf(),
        ensures
            self@.delivered <= self@.accepted.len(),
    {
    }

    /// A new queue with both ends in place and nothing in it.
    pub fn new() -> (q: Self)
        ensures
            q.wf(),
            q@ == QueueView::<J>::empty(),
    {
        JobQueue {
            pending: VecDeque::new(),
            sender: true,
            receiver: true,
            accepted: Ghost(Seq::empty()),
            delivered: Ghost(0),
        }
    }

    /// Puts `job` at the back of the queue. Never waits. Fails, and hands the
    /// job back, exactly when the queue is torn down at either end.
    pub fn send(&mut self, job: J) -> (r: Result<(), SendFailed<J>>)
        requires
            old(self).wf(),
        ensures
            final(self).wf(),
            r is Ok <==> old(self)@.connected(),
            r is Ok ==> final(self)@ == old(self)@.after_send(job),
            r is Err ==> r == Err::<(), SendFailed<J>>(SendFailed(job)),
            r is Err ==> final(self)@ == old(self)@,
    {
        if self.sender && self.receiver {
            proof {
                assert(self.accepted@.push(job).skip(self.delivered@ as int)
                    == self.accepted@.skip(self.delivered@ as int).push(job));
            }
            self.pending.push_back(job);
            self.accepted = Ghost(self.accepted@.push(job));
            Ok(())
        } else {
            Err(SendFailed(job))
        }
    }

    /// Takes the oldest waiting job, if there is one. Jobs that were accepted
    /// before the producer end was dropped are still handed out; only an
    /// empty queue without a producer reports `Disconnected`.
    pub fn receive(&mut self) -> (r: Received<J>)
        requires
            old(self).wf(),
        ensures
            final(self).wf(),
            r == old(self)@.next_received(),
            final(self)@ == old(self)@.after_receive(),
    {
        match self.pending.pop_front() {
            Some(job) => {
                proof {
                    let a = self.accepted@;
                    let d = self.delivered@ as int;
                    assert(a.skip(d).subrange(1, a.skip(d).len() as int) == a.skip(d + 1));
                }
                self.delivered = Ghost((self.delivered@ + 1) as nat);
                Received::Job(job)
            },
            None => {
                if self.sender {
                    Received::Empty
                } else {
                    Received::Disconnected
                }
            },
        }
    }

    /// Drops the producer end. Waiting jobs stay in the queue.
    pub fn close(&mut self)
        requires
            old(self).wf(),
        ensures
            final(self).wf(),
            final(self)@ == old(self)@.after_close(),
    {
        self.sender = false;
    }

    /// Drops the consumer end.
    pub fn disconnect(&mut self)
        requires
            old(self).wf(),
        ensures
            final(self).wf(),
            final(self)@ == old(self)@.after_disconnect(),
    {
        self.receiver = false;
    }

    /// The number of jobs waiting.
    pub fn len(&self) -> (n: usize)
        requires
            self.wf(),
        ensures
            n == self@.pending().len(),
    {
        self.pending.len()
    }

    /// Whether no job is waiting.
    pub fn is_empty(&self) -> (b: bool)
        requires
            self.wf(),
        ensures
            b == (self@.pending().len() == 0),
    {
        self.pending.len() == 0
    }

    /// Whether the producer end still exists.
    pub fn has_sender(&self) -> (b: bool)
        ensures
            b == self@.sender,
    {
        self.sender
    }

    /// Whether the consumer end still exists.
    pub fn has_receiver(&self) -> (b: bool)
        ensures
            b == self@.receiver,
    {
        self.receiver
    }
}

} // verus!
