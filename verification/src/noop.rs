//! A job that does nothing, for trying the engine out.

use crate::signal::{NetState, SignalControl};
use vstd::prelude::*;

verus! {

/// The state of a job that does nothing.
#[derive(Clone, Copy, Debug, Default, PartialEq, Eq, Structural)]
pub struct State;

/// The payload of a job that does nothing.
#[derive(Clone, Copy, Debug, Default, PartialEq, Eq, Structural)]
pub struct Response;

/// The job that does nothing.
#[derive(Debug)]
pub struct Worker;

impl Worker {
    /// The job.
    pub fn new() -> (job: Self) {
        Worker
    }

    /// Does nothing, and reports a closed port with an empty payload.
    pub fn exec(state: &mut State) -> (signal: SignalControl<Response>)
        ensures
            *final(state) == *old(state),
            signal == SignalControl::Success(NetState::Closed, Response),
    {
        SignalControl::Success(NetState::Closed, Response)
    }
}

} // verus!
