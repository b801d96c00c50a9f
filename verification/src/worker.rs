//! The worker: it answers each request with its successor and stops after
//! it has answered the sentinel.
//!
//! A worker runs only when it is handed the two legs of its link. It then
//! works until it has terminated or has to wait for the other party, and
//! can be resumed later from where it stopped.

use crate::channel::{ChannelHalf, ChannelView, Progress};
use crate::error::ChannelError;
use crate::increment::successor;
use vstd::prelude::*;

verus! {

/// The request that tells the worker to answer once more and stop.
pub const SENTINEL: i64 = 0;

/// The life of a worker. `Terminated` is final.
#[derive(Debug, Clone, Copy, PartialEq, Eq)]
pub enum Worker {
    /// Created, and not yet run.
    Spawned,
    /// In its loop. `in_flight` is a request that it has received and whose
    /// response it could not send yet.
    Running { in_flight: Option<i64> },
    /// Out of its loop: with `Ok` after the sentinel, with
    /// `PrematureClosure` when a leg was closed before that.
    Terminated { outcome: Result<(), ChannelError> },
}

/// How many of `requests`, from the front, a worker answers if nothing stops
/// it: all up to and including the first sentinel, or all of them if there
/// is none.
pub open spec fn served_len(requests: Seq<i64>) -> nat
    decreases requests.len(),
{
    if requests.len() == 0 {
        0
    } else if requests[0] == SENTINEL {
        1
    } else {
        1 + served_len(requests.skip(1))
    }
}

/// The responses to `requests`, in the same order.
pub open spec fn responses_to(requests: Seq<i64>) -> Seq<i64> {
    requests.map_values(|request: i64| successor(request))
}

/// A worker together with the two legs of its link: `sender` carries its
/// responses, `receiver` brings its requests.
pub struct Snapshot {
    pub worker: Worker,
    pub sender: ChannelView,
    pub receiver: ChannelView,
}

impl Snapshot {
    /// The requests that the worker has yet to answer, oldest first: the one
    /// in flight, then those pending on the receiver.
    pub open spec fn backlog(self) -> Seq<i64> {
        match self.worker {
            Worker::Running { in_flight: Some(request) } => seq![request] + self.receiver.pending,
            _ => self.receiver.pending,
        }
    }

    /// This snapshot with the oldest `count` requests of the backlog gone
    /// from it, and `worker` in place of the worker.
    pub open spec fn consumed(self, count: nat, worker: Worker) -> Snapshot {
        Snapshot {
            worker,
            sender: self.sender,
            receiver: ChannelView { pending: self.backlog().skip(count as int), ..self.receiver },
        }
    }

    /// This snapshot with `responses` added behind what the sender holds.
    pub open spec fn replied(self, responses: Seq<i64>) -> Snapshot {
        Snapshot {
            sender: ChannelView { pending: self.sender.pending + responses, ..self.sender },
            ..self
        }
    }

    /// The worker leaves its loop with `outcome` and closes both legs.
    pub open spec fn halted(self, outcome: Result<(), ChannelError>) -> Snapshot {
        Snapshot {
            worker: Worker::Terminated { outcome },
            sender: self.sender.after_close(),
            receiver: self.receiver.after_close(),
        }
    }

    /// Whether one pass through the loop answers a request and leaves the
    /// worker ready for the next one.
    pub open spec fn advances(self) -> bool {
        &&& !(self.worker is Terminated)
        &&& self.backlog().len() > 0
        &&& self.backlog()[0] != SENTINEL
        &&& !self.sender.closed
        &&& self.sender.has_room()
    }

    /// One pass through the loop, as far as it gets without waiting.
    pub open spec fn step(self) -> Snapshot {
        if self.worker is Terminated {
            self
        } else if self.backlog().len() == 0 {
            if self.receiver.closed {
                self.halted(Err(ChannelError::PrematureClosure))
            } else {
                Snapshot { worker: Worker::Running { in_flight: None }, ..self }
            }
        } else {
            let request = self.backlog()[0];
            if self.sender.closed {
                self.consumed(1, self.worker).halted(Err(ChannelError::PrematureClosure))
            } else if !self.sender.has_room() {
                self.consumed(1, Worker::Running { in_flight: Some(request) })
            } else {
                let answered = self.consumed(1, Worker::Running { in_flight: None }).replied(
                    seq![successor(request)],
                );
                if request == SENTINEL {
                    answered.halted(Ok(()))
                } else {
                    answered
                }
            }
        }
    }

    /// Where the worker comes to rest when it runs until it has terminated
    /// or has to wait.
    ///
    /// With an open sender it answers the backlog in order, up to and
    /// including the first sentinel, as far as the sender has room. A request
    /// for whose response there is no room stays in flight. After the
    /// sentinel it terminates normally; with the backlog exhausted it waits,
    /// or terminates with `PrematureClosure` if the receiver is closed. With
    /// a closed sender the first request of the backlog is taken and lost,
    /// and the worker terminates with `PrematureClosure`.
    pub open spec fn settle(self) -> Snapshot {
        let waiting = self.backlog();
        if self.worker is Terminated || waiting.len() == 0 || self.sender.closed {
            self.step()
        } else {
            let served = served_len(waiting);
            let fit = self.sender.room_for(served);
            let answered = self.replied(responses_to(waiting.take(fit as int)));
            if fit < served {
                answered.consumed(fit + 1, Worker::Running { in_flight: Some(waiting[fit as int]) })
            } else {
                let done = answered.consumed(served, Worker::Running { in_flight: None });
                if waiting[served - 1] == SENTINEL {
                    done.halted(Ok(()))
                } else if self.receiver.closed {
                    done.halted(Err(ChannelError::PrematureClosure))
                } else {
                    done
                }
            }
        }
    }
}

impl Worker {
    /// This worker with the legs it sends on and receives from.
    pub open spec fn facing(self, sender: ChannelView, receiver: ChannelView) -> Snapshot {
        Snapshot { worker: self, sender, receiver }
    }

    /// A worker that has not run yet.
    pub fn spawn() -> (worker: Worker)
        ensures
            worker == Worker::Spawned,
    {
        Worker::Spawned
    }

    /// Whether the worker has left its loop.
    pub fn is_terminated(&self) -> (terminated: bool)
        ensures
            terminated == (*self is Terminated),
    {
        match self {
            Worker::Terminated { .. } => true,
            _ => false,
        }
    }

    /// One pass through the loop: take a request, unless one is in flight;
    /// send its successor; stop after the sentinel. The pass ends early
    /// where the worker would have to wait, and ends the worker where a leg
    /// is closed against it. The result tells whether a request was answered
    /// and the worker is ready for the next.
    pub fn step(&mut self, sender: &mut ChannelHalf, receiver: &mut ChannelHalf) -> (advanced: bool)
        ensures
            final(self).facing(final(sender)@, final(receiver)@) == old(self).facing(
                old(sender)@,
                old(receiver)@,
            ).step(),
            advanced == old(self).facing(old(sender)@, old(receiver)@).advances(),
    {
        let ghost before = self.facing(sender@, receiver@);
        let request = match *self {
            Worker::Terminated { .. } => {
                return false;
            },
            Worker::Running { in_flight: Some(request) } => {
                assert(before.backlog().skip(1) =~= receiver@.pending);
                request
            },
            _ => match receiver.receive() {
                Ok(Progress::Done(request)) => request,
                Ok(Progress::WouldBlock) => {
                    *self = Worker::Running { in_flight: None };
                    return false;
                },
                Err(_) => {
                    sender.close();
                    receiver.close();
                    *self = Worker::Terminated { outcome: Err(ChannelError::PrematureClosure) };
                    return false;
                },
            },
        };
        match sender.send(crate::increment::plus_one(&request)) {
            Ok(Progress::Done(())) => {
                assert(sender@.pending =~= before.sender.pending + seq![successor(request)]);
                if request == SENTINEL {
                    sender.close();
                    receiver.close();
                    *self = Worker::Terminated { outcome: Ok(()) };
                    false
                } else {
                    *self = Worker::Running { in_flight: None };
                    true
                }
            },
            Ok(Progress::WouldBlock) => {
                *self = Worker::Running { in_flight: Some(request) };
                false
            },
            Err(_) => {
                sender.close();
                receiver.close();
                *self = Worker::Terminated { outcome: Err(ChannelError::PrematureClosure) };
                false
            },
        }
    }

    /// Runs the loop until the worker has terminated or has to wait.
    pub fn run(&mut self, sender: &mut ChannelHalf, receiver: &mut ChannelHalf)
        ensures
            final(self).facing(final(sender)@, final(receiver)@) == old(self).facing(
                old(sender)@,
                old(receiver)@,
            ).settle(),
    {
        let ghost start = self.facing(sender@, receiver@);
        loop
            invariant_except_break
                self.facing(sender@, receiver@).settle() == start.settle(),
            ensures
                self.facing(sender@, receiver@) == start.settle(),
            decreases self.facing(sender@, receiver@).backlog().len(),
        {
            let ghost before = self.facing(sender@, receiver@);
            let advanced = self.step(sender, receiver);
            proof {
                if advanced {
                    lemma_advance_keeps_settle(before);
                } else {
                    lemma_stall_is_settled(before);
                }
            }
            if !advanced {
                break;
            }
        }
    }
}

/// Spawns a worker on the two legs and runs it until it has terminated or
/// has to wait: it receives a request, sends back its successor, and stops
/// after the sentinel. The worker is returned so that it can be resumed.
pub fn plus_one(sender: &mut ChannelHalf, receiver: &mut ChannelHalf) -> (worker: Worker)
    ensures
        worker.facing(final(sender)@, final(receiver)@) == Worker::Spawned.facing(
            old(sender)@,
            old(receiver)@,
        ).settle(),
{
    let mut worker = Worker::spawn();
    worker.run(sender, receiver);
    worker
}

/// On an open sender without a limit, a worker that is not in the middle of
/// a request answers its backlog in order up to and including the first
/// sentinel, and leaves the rest on the receiver.
pub proof fn law_worker_answers_in_order(s: Snapshot)
    requires
        s.worker == Worker::Spawned || s.worker == (Worker::Running { in_flight: None }),
        !s.sender.closed,
        s.sender.capacity is None,
    ensures
        ({
            let served = s.receiver.pending.take(served_len(s.receiver.pending) as int);
            &&& s.settle().sender.pending == s.sender.pending + responses_to(served)
            &&& s.settle().receiver.pending == s.receiver.pending.skip(served.len() as int)
            &&& s.settle().worker is Terminated <==> s.receiver.closed || served.contains(SENTINEL)
        }),
{
    let waiting = s.receiver.pending;
    lemma_served_len_bounds(waiting);
    let served = waiting.take(served_len(waiting) as int);
    if waiting.len() == 0 {
    } else {
        if served.contains(SENTINEL) {
            let i = choose|i: int| 0 <= i < served.len() && served[i] == SENTINEL;
        }
        if waiting[served_len(waiting) - 1] == SENTINEL {
            assert(served[served_len(waiting) - 1] == SENTINEL);
        }
    }
}

/// The sentinel is answered with 1 and ends the worker at once: the worker
/// terminates normally in the pass in which it sends the response, and
/// closes both legs.
pub proof fn law_sentinel_ends_worker(s: Snapshot)
    requires
        !(s.worker is Terminated),
        s.backlog().len() > 0,
        s.backlog()[0] == SENTINEL,
        !s.sender.closed,
        s.sender.has_room(),
    ensures
        s.step().worker == (Worker::Terminated { outcome: Ok(()) }),
        s.step().sender.pending == s.sender.pending.push(1),
        s.step().sender.closed,
        s.step().receiver.closed,
        s.settle() == s.step(),
{
    lemma_stall_is_settled(s);
}

/// There is no way out of `Terminated`: a terminated worker touches nothing.
pub proof fn law_terminated_is_final(s: Snapshot)
    requires
        s.worker is Terminated,
    ensures
        s.step() == s,
        s.settle() == s,
{
}

/// There is no way back to `Spawned`: a worker that has run is running or
/// has terminated.
pub proof fn law_spawned_is_left_for_good(s: Snapshot)
    ensures
        !(s.step().worker is Spawned),
        !(s.settle().worker is Spawned),
{
}

/// A worker that terminates, for whatever reason, leaves both legs closed.
/// Once its responses are drained, receiving fails with `ChannelClosed`,
/// and so does every further request.
pub proof fn law_termination_closes_link(s: Snapshot)
    requires
        !(s.worker is Terminated),
        s.settle().worker is Terminated,
    ensures
        s.settle().sender.closed,
        s.settle().receiver.closed,
        s.settle().sender.pending.len() == 0 ==> s.settle().sender.receive_outcome() == Err::<
            Progress<i64>,
            ChannelError,
        >(ChannelError::ChannelClosed),
        s.settle().receiver.send_outcome() == Err::<Progress<()>, ChannelError>(
            ChannelError::ChannelClosed,
        ),
{
}

/// A worker that finds its receiver closed and empty before it has seen the
/// sentinel terminates with `PrematureClosure` and replies nothing more. One
/// that finds its sender closed loses the response it was about to send.
pub proof fn law_premature_closure(s: Snapshot)
    requires
        !(s.worker is Terminated),
    ensures
        s.backlog().len() == 0 && s.receiver.closed ==> {
            &&& s.step().worker == (Worker::Terminated {
                outcome: Err(ChannelError::PrematureClosure),
            })
            &&& s.step().sender.pending == s.sender.pending
        },
        s.backlog().len() > 0 && s.sender.closed ==> {
            &&& s.step().worker == (Worker::Terminated {
                outcome: Err(ChannelError::PrematureClosure),
            })
            &&& s.step().sender.pending == s.sender.pending
            &&& s.step().receiver.pending == s.backlog().skip(1)
        },
{
}

/// A worker serves at least one request of a backlog that is not empty, and
/// never more than there are. The request it serves last is the only one
/// that can be the sentinel.
pub proof fn lemma_served_len_bounds(requests: Seq<i64>)
    ensures
        served_len(requests) <= requests.len(),
        requests.len() > 0 ==> served_len(requests) >= 1,
        forall|i: int| 0 <= i < served_len(requests) - 1 ==> requests[i] != SENTINEL,
        served_len(requests) < requests.len() ==> requests[served_len(requests) - 1] == SENTINEL,
    decreases requests.len(),
{
    if requests.len() > 0 && requests[0] != SENTINEL {
        let rest = requests.skip(1);
        lemma_served_len_bounds(rest);
        assert forall|i: int| 0 <= i < served_len(requests) - 1 implies requests[i] != SENTINEL by {
            if i > 0 {
                assert(requests[i] == rest[i - 1]);
            }
        }
    }
}

/// A pass that answers a request leaves the same rest to come to, with a
/// shorter backlog.
proof fn lemma_advance_keeps_settle(s: Snapshot)
    requires
        s.advances(),
    ensures
        s.step().settle() == s.settle(),
        s.step().backlog().len() < s.backlog().len(),
{
    let next = s.step();
    lemma_served_len_bounds(next.backlog());
    assert(s.settle().sender.pending =~= next.settle().sender.pending);
    assert(s.settle().receiver.pending =~= next.settle().receiver.pending);
}

/// A pass that does not answer a request and go on has brought the worker
/// to rest.
proof fn lemma_stall_is_settled(s: Snapshot)
    requires
        !s.advances(),
    ensures
        s.step() == s.settle(),
{
    lemma_served_len_bounds(s.backlog());
    assert(s.step().sender.pending =~= s.settle().sender.pending);
}

} // verus!
