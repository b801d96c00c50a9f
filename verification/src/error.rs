//! The ways in which the exchange between coordinator and worker can fail.

use vstd::prelude::*;

verus! {

/// A failure of the protocol. None of them is retried: each one ends the
/// exchange it occurs in.
#[derive(Debug, Clone, Copy, PartialEq, Eq, Structural)]
pub enum ChannelError {
    /// The channel can no longer deliver: it was closed, and on the receiving
    /// side nothing is left to drain.
    ChannelClosed,
    /// A worker saw its channel close before it had processed the sentinel.
    PrematureClosure,
    /// A request was attempted after the sender itself had ended the
    /// sequence of requests.
    SendAfterClose,
}

impl ChannelError {
    /// A short name for the failure, for reports to a human.
    pub fn describe(&self) -> (name: &'static str)
        ensures
            name@ == match *self {
                ChannelError::ChannelClosed => "channel closed"@,
                ChannelError::PrematureClosure => "premature closure"@,
                ChannelError::SendAfterClose => "send after close"@,
            },
    {
        match self {
            ChannelError::ChannelClosed => "channel closed",
            ChannelError::PrematureClosure => "premature closure",
            ChannelError::SendAfterClose => "send after close",
        }
    }
}

} // verus!
