//! One directed leg of a link: a first-in, first-out queue of integer
//! messages with one producer and one consumer.
//!
//! The queue is a sequential model. Where a real producer or consumer would
//! be suspended, the operation changes nothing and answers
//! [`Progress::WouldBlock`]; the caller decides who runs next.

use crate::error::ChannelError;
use std::collections::VecDeque;
use vstd::prelude::*;

verus! {

/// What became of an operation that may have to wait for the other party.
#[derive(Debug, PartialEq, Eq)]
pub enum Progress<T> {
    /// The operation took effect.
    Done(T),
    /// The operation could not take effect yet and changed nothing.
    WouldBlock,
}

/// The mathematical content of a [`ChannelHalf`].
pub struct ChannelView {
    /// The messages sent and not yet received, oldest first.
    pub pending: Seq<i64>,
    /// The largest number of pending messages, where there is a limit.
    pub capacity: Option<nat>,
    /// Whether the channel has been closed.
    pub closed: bool,
}

impl ChannelView {
    /// A bounded channel never holds more messages than its capacity. The
    /// constructors establish this and every operation preserves it.
    pub open spec fn wf(self) -> bool {
        self.capacity matches Some(limit) ==> self.pending.len() <= limit
    }

    /// Whether one more message fits.
    pub open spec fn has_room(self) -> bool {
        match self.capacity {
            None => true,
            Some(limit) => self.pending.len() < limit,
        }
    }

    /// How many of `wanted` further messages fit before the channel is full.
    pub open spec fn room_for(self, wanted: nat) -> nat {
        match self.capacity {
            None => wanted,
            Some(limit) => if limit >= self.pending.len() + wanted {
                wanted
            } else if limit >= self.pending.len() {
                (limit - self.pending.len()) as nat
            } else {
                0
            },
        }
    }

    /// What `send` answers.
    pub open spec fn send_outcome(self) -> Result<Progress<()>, ChannelError> {
        if self.closed {
            Err(ChannelError::ChannelClosed)
        } else if self.has_room() {
            Ok(Progress::Done(()))
        } else {
            Ok(Progress::WouldBlock)
        }
    }

    /// The channel after `send(msg)`: the message joins the back of the
    /// queue exactly when the channel is open and has room.
    pub open spec fn after_send(self, msg: i64) -> ChannelView {
        if !self.closed && self.has_room() {
            ChannelView { pending: self.pending.push(msg), ..self }
        } else {
            self
        }
    }

    /// What `receive` answers: the oldest pending message if there is one,
    /// whether or not the channel is closed.
    pub open spec fn receive_outcome(self) -> Result<Progress<i64>, ChannelError> {
        if self.pending.len() > 0 {
            Ok(Progress::Done(self.pending[0]))
        } else if self.closed {
            Err(ChannelError::ChannelClosed)
        } else {
            Ok(Progress::WouldBlock)
        }
    }

    /// The channel after `receive`: without its oldest message, if it had one.
    pub open spec fn after_receive(self) -> ChannelView {
        if self.pending.len() > 0 {
            ChannelView { pending: self.pending.skip(1), ..self }
        } else {
            self
        }
    }

    /// The channel after `close`: closed, with everything pending kept.
    pub open spec fn after_close(self) -> ChannelView {
        ChannelView { closed: true, ..self }
    }
}

/// One directed, ordered conduit for integer messages.
pub struct ChannelHalf {
    queue: VecDeque<i64>,
    capacity: Option<usize>,
    closed: bool,
}

impl View for ChannelHalf {
    type V = ChannelView;

    closed spec fn view(&self) -> ChannelView {
        ChannelView {
            pending: self.queue@,
            capacity: match self.capacity {
                None => None,
                Some(limit) => Some(limit as nat),
            },
            closed: self.closed,
        }
    }
}

impl ChannelHalf {
    /// An open, empty channel without a limit on pending messages.
    pub fn new() -> (channel: ChannelHalf)
        ensures
            channel@ == (ChannelView { pending: Seq::empty(), capacity: None, closed: false }),
    {
        ChannelHalf { queue: VecDeque::new(), capacity: None, closed: false }
    }

    /// An open, empty channel that holds at most `capacity` pending messages.
    pub fn bounded(capacity: usize) -> (channel: ChannelHalf)
        ensures
            channel@ == (ChannelView {
                pending: Seq::empty(),
                capacity: Some(capacity as nat),
                closed: false,
            }),
    {
        ChannelHalf { queue: VecDeque::new(), capacity: Some(capacity), closed: false }
    }

    /// Enqueues `msg` behind everything pending. A closed channel refuses
    /// with `ChannelClosed`; a full one answers `WouldBlock`. In both cases
    /// the channel is left as it was.
    pub fn send(&mut self, msg: i64) -> (outcome: Result<Progress<()>, ChannelError>)
        ensures
            outcome == old(self)@.send_outcome(),
            final(self)@ == old(self)@.after_send(msg),
    {
        if self.closed {
            return Err(ChannelError::ChannelClosed);
        }
        let full = match self.capacity {
            Some(limit) => self.queue.len() >= limit,
            None => false,
        };
        if full {
            Ok(Progress::WouldBlock)
        } else {
            self.queue.push_back(msg);
            Ok(Progress::Done(()))
        }
    }

    /// Takes the oldest pending message. An empty channel answers
    /// `WouldBlock` while it is open and fails with `ChannelClosed` once it
    /// is closed.
    pub fn receive(&mut self) -> (outcome: Result<Progress<i64>, ChannelError>)
        ensures
            outcome == old(self)@.receive_outcome(),
            final(self)@ == old(self)@.after_receive(),
    {
        match self.queue.pop_front() {
            Some(msg) => Ok(Progress::Done(msg)),
            None => if self.closed {
                Err(ChannelError::ChannelClosed)
            } else {
                Ok(Progress::WouldBlock)
            },
        }
    }

    /// Closes the channel: later sends fail, pending messages stay
    /// receivable. Closing a closed channel changes nothing.
    pub fn close(&mut self)
        ensures
            final(self)@ == old(self)@.after_close(),
    {
        self.closed = true;
    }

    /// Whether the channel has been closed.
    pub fn is_closed(&self) -> (closed: bool)
        ensures
            closed == self@.closed,
    {
        self.closed
    }

    /// The number of pending messages.
    pub fn len(&self) -> (count: usize)
        ensures
            count == self@.pending.len(),
    {
        self.queue.len()
    }

    /// What is pending is held in memory: its number fits a machine word.
    pub proof fn lemma_pending_fits(&self)
        ensures
            self@.pending.len() <= usize::MAX,
    {
        assert(self.queue.len() == self.queue@.len());
    }

    /// Whether nothing is pending.
    pub fn is_empty(&self) -> (empty: bool)
        ensures
            empty == (self@.pending.len() == 0),
    {
        self.queue.len() == 0
    }

    /// The limit on pending messages, where there is one.
    pub fn capacity(&self) -> (limit: Option<usize>)
        ensures
            match limit {
                None => self@.capacity is None,
                Some(bound) => self@.capacity == Some(bound as nat),
            },
    {
        self.capacity
    }
}

/// First in, first out. On an open channel with room a message joins the
/// back of the queue. If anything was pending, the same message as before
/// is received next, and it makes no difference whether the send or the
/// receive comes first; on an empty channel the message sent is the one
/// received next.
pub proof fn law_send_keeps_order(channel: ChannelView, msg: i64)
    requires
        !channel.closed,
        channel.has_room(),
    ensures
        channel.after_send(msg).pending == channel.pending.push(msg),
        channel.pending.len() == 0 ==> channel.after_send(msg).receive_outcome() == Ok::<
            Progress<i64>,
            ChannelError,
        >(Progress::Done(msg)),
        channel.pending.len() > 0 ==> channel.after_send(msg).receive_outcome()
            == channel.receive_outcome(),
        channel.pending.len() > 0 ==> channel.after_send(msg).after_receive()
            == channel.after_receive().after_send(msg),
{
    if channel.pending.len() > 0 {
        assert(channel.after_send(msg).after_receive().pending
            =~= channel.after_receive().after_send(msg).pending);
    }
}

/// Of two messages sent into an empty channel, the first is received first
/// and the second next, and then nothing is left.
pub proof fn law_two_messages_arrive_in_order(channel: ChannelView, first: i64, second: i64)
    requires
        !channel.closed,
        channel.pending.len() == 0,
        channel.room_for(2) == 2,
    ensures
        ({
            let sent = channel.after_send(first).after_send(second);
            &&& sent.receive_outcome() == Ok::<Progress<i64>, ChannelError>(Progress::Done(first))
            &&& sent.after_receive().receive_outcome() == Ok::<Progress<i64>, ChannelError>(
                Progress::Done(second),
            )
            &&& sent.after_receive().after_receive() == channel
        }),
{
    let sent = channel.after_send(first).after_send(second);
    assert(sent.after_receive().after_receive().pending =~= channel.pending);
}

/// Closing twice is closing once. A closed channel refuses every send and
/// keeps what was pending, however often it is closed.
pub proof fn law_close_is_idempotent(channel: ChannelView, msg: i64)
    ensures
        channel.after_close().after_close() == channel.after_close(),
        channel.after_close().pending == channel.pending,
        channel.after_close().send_outcome() == Err::<Progress<()>, ChannelError>(
            ChannelError::ChannelClosed,
        ),
        channel.after_close().after_send(msg) == channel.after_close(),
        channel.after_close().receive_outcome() == if channel.pending.len() > 0 {
            channel.receive_outcome()
        } else {
            Err(ChannelError::ChannelClosed)
        },
{
}

/// A channel closes once and for all: no operation opens a closed channel.
pub proof fn law_closed_is_final(channel: ChannelView, msg: i64)
    requires
        channel.closed,
    ensures
        channel.after_send(msg).closed,
        channel.after_receive().closed,
        channel.after_close().closed,
{
}

/// No operation takes a bounded channel over its capacity.
pub proof fn law_capacity_is_kept(channel: ChannelView, msg: i64)
    requires
        channel.wf(),
    ensures
        channel.after_send(msg).wf(),
        channel.after_receive().wf(),
        channel.after_close().wf(),
{
}

} // verus!
