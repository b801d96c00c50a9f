//! The duplex link between coordinator and worker: two channel halves of
//! opposite direction. What one side sends, only the other side receives.

use crate::channel::{ChannelHalf, ChannelView, Progress};
use crate::error::ChannelError;
use crate::worker::{Snapshot, Worker};
use vstd::prelude::*;

verus! {

/// The two parties of a link.
#[derive(Debug, Clone, Copy, PartialEq, Eq, Structural)]
pub enum Side {
    Coordinator,
    Worker,
}

/// The mathematical content of a [`DuplexLink`].
pub struct LinkView {
    /// The leg from the coordinator to the worker: it carries requests.
    pub to_worker: ChannelView,
    /// The leg from the worker to the coordinator: it carries responses.
    pub to_coordinator: ChannelView,
}

impl LinkView {
    /// The leg on which `side` sends.
    pub open spec fn outbound(self, side: Side) -> ChannelView {
        match side {
            Side::Coordinator => self.to_worker,
            Side::Worker => self.to_coordinator,
        }
    }

    /// The leg on which `side` receives.
    pub open spec fn inbound(self, side: Side) -> ChannelView {
        match side {
            Side::Coordinator => self.to_coordinator,
            Side::Worker => self.to_worker,
        }
    }

    /// The link with `leg` in place of the outbound leg of `side`.
    pub open spec fn with_outbound(self, side: Side, leg: ChannelView) -> LinkView {
        match side {
            Side::Coordinator => LinkView { to_worker: leg, ..self },
            Side::Worker => LinkView { to_coordinator: leg, ..self },
        }
    }

    /// The link with `leg` in place of the inbound leg of `side`.
    pub open spec fn with_inbound(self, side: Side, leg: ChannelView) -> LinkView {
        match side {
            Side::Coordinator => LinkView { to_coordinator: leg, ..self },
            Side::Worker => LinkView { to_worker: leg, ..self },
        }
    }

    /// The link with both legs closed.
    pub open spec fn after_close(self) -> LinkView {
        LinkView {
            to_worker: self.to_worker.after_close(),
            to_coordinator: self.to_coordinator.after_close(),
        }
    }

    /// The link as `worker` finds it: it sends on the leg to the
    /// coordinator and receives on the leg to itself.
    pub open spec fn seen_by(self, worker: Worker) -> Snapshot {
        Snapshot { worker, sender: self.to_coordinator, receiver: self.to_worker }
    }

    /// The link of which `snapshot` shows the worker's side.
    pub open spec fn of(snapshot: Snapshot) -> LinkView {
        LinkView { to_worker: snapshot.receiver, to_coordinator: snapshot.sender }
    }
}

/// A pair of channel halves that gives each of two parties a direction to
/// send in and a direction to receive from.
pub struct DuplexLink {
    to_worker: ChannelHalf,
    to_coordinator: ChannelHalf,
}

impl View for DuplexLink {
    type V = LinkView;

    closed spec fn view(&self) -> LinkView {
        LinkView { to_worker: self.to_worker@, to_coordinator: self.to_coordinator@ }
    }
}

impl DuplexLink {
    /// A link of two open, empty legs without a limit on pending messages.
    pub fn new() -> (link: DuplexLink)
        ensures
            link@.to_worker == (ChannelView {
                pending: Seq::empty(),
                capacity: None,
                closed: false,
            }),
            link@.to_coordinator == link@.to_worker,
    {
        DuplexLink { to_worker: ChannelHalf::new(), to_coordinator: ChannelHalf::new() }
    }

    /// A link of two open, empty legs that hold at most `capacity` pending
    /// messages each.
    pub fn bounded(capacity: usize) -> (link: DuplexLink)
        ensures
            link@.to_worker == (ChannelView {
                pending: Seq::empty(),
                capacity: Some(capacity as nat),
                closed: false,
            }),
            link@.to_coordinator == link@.to_worker,
    {
        DuplexLink {
            to_worker: ChannelHalf::bounded(capacity),
            to_coordinator: ChannelHalf::bounded(capacity),
        }
    }

    /// Sends `msg` from `from` to the other side. Only the outbound leg of
    /// `from` is touched.
    pub fn send(&mut self, from: Side, msg: i64) -> (outcome: Result<Progress<()>, ChannelError>)
        ensures
            outcome == old(self)@.outbound(from).send_outcome(),
            final(self)@ == old(self)@.with_outbound(
                from,
                old(self)@.outbound(from).after_send(msg),
            ),
    {
        match from {
            Side::Coordinator => self.to_worker.send(msg),
            Side::Worker => self.to_coordinator.send(msg),
        }
    }

    /// Receives at `at` the oldest message that the other side has sent.
    /// Only the inbound leg of `at` is touched.
    pub fn receive(&mut self, at: Side) -> (outcome: Result<Progress<i64>, ChannelError>)
        ensures
            outcome == old(self)@.inbound(at).receive_outcome(),
            final(self)@ == old(self)@.with_inbound(at, old(self)@.inbound(at).after_receive()),
    {
        match at {
            Side::Coordinator => self.to_coordinator.receive(),
            Side::Worker => self.to_worker.receive(),
        }
    }

    /// Closes both legs. What is pending on them stays receivable.
    pub fn close(&mut self)
        ensures
            final(self)@ == old(self)@.after_close(),
    {
        self.to_worker.close();
        self.to_coordinator.close();
    }

    /// Whether both legs are closed.
    pub fn is_closed(&self) -> (closed: bool)
        ensures
            closed == (self@.to_worker.closed && self@.to_coordinator.closed),
    {
        self.to_worker.is_closed() && self.to_coordinator.is_closed()
    }

    /// The number of messages pending towards `side`.
    pub fn pending(&self, side: Side) -> (count: usize)
        ensures
            count == self@.inbound(side).pending.len(),
    {
        match side {
            Side::Coordinator => self.to_coordinator.len(),
            Side::Worker => self.to_worker.len(),
        }
    }

    /// What is pending on either leg is held in memory: its number fits a
    /// machine word.
    pub proof fn lemma_pending_fits(&self)
        ensures
            self@.to_worker.pending.len() <= usize::MAX,
            self@.to_coordinator.pending.len() <= usize::MAX,
    {
        self.to_worker.lemma_pending_fits();
        self.to_coordinator.lemma_pending_fits();
    }

    /// Lets `worker` make one pass through its loop on the worker's side of
    /// the link. The result tells whether it answered a request and is
    /// ready for the next.
    pub fn serve_once(&mut self, worker: &mut Worker) -> (advanced: bool)
        ensures
            old(self)@.seen_by(*old(worker)).step() == final(self)@.seen_by(*final(worker)),
            advanced == old(self)@.seen_by(*old(worker)).advances(),
    {
        worker.step(&mut self.to_coordinator, &mut self.to_worker)
    }

    /// Lets `worker` run on the worker's side of the link until it has
    /// terminated or has to wait.
    pub fn serve(&mut self, worker: &mut Worker)
        ensures
            old(self)@.seen_by(*old(worker)).settle() == final(self)@.seen_by(*final(worker)),
    {
        worker.run(&mut self.to_coordinator, &mut self.to_worker)
    }
}

/// The legs are crossed and never confused: what one side sends on is what
/// the other receives from, so sending touches neither the sender's own
/// inbound leg nor receiving the receiver's own outbound leg.
pub proof fn law_legs_are_crossed(link: LinkView, side: Side, leg: ChannelView)
    ensures
        link.outbound(Side::Coordinator) == link.inbound(Side::Worker),
        link.outbound(Side::Worker) == link.inbound(Side::Coordinator),
        link.with_outbound(side, leg).outbound(side) == leg,
        link.with_outbound(side, leg).inbound(side) == link.inbound(side),
        link.with_inbound(side, leg).inbound(side) == leg,
        link.with_inbound(side, leg).outbound(side) == link.outbound(side),
{
}

/// Closing a link twice is closing it once.
pub proof fn law_close_is_idempotent(link: LinkView)
    ensures
        link.after_close().after_close() == link.after_close(),
{
}

} // verus!
