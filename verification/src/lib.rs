//! A request/response protocol between a coordinator and one worker, with
//! its proofs.
//!
//! The coordinator sends integer requests over a duplex link, the worker
//! answers each with its successor, and the sentinel `0` ends the
//! conversation: the worker answers it with `1` and stops. The two parties
//! are modelled as state machines that take turns, so that every statement
//! about them holds however their steps interleave.
//!
//! - [`channel`]: one directed leg, a first-in, first-out queue that can be
//!   closed and can be bounded.
//! - [`link`]: two legs of opposite direction.
//! - [`worker`]: the worker's loop.
//! - [`coordinator`]: the driver that sends, finishes and collects.
//! - [`increment`]: the transform applied to a request.
//! - [`error`]: what can go wrong.
//!
//! Two small modules stand beside the protocol: [`fizzbuzz`] and
//! [`monsters`].

pub mod channel;
pub mod coordinator;
pub mod error;
pub mod fizzbuzz;
pub mod increment;
pub mod link;
pub mod monsters;
pub mod worker;
