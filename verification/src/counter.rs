//! A single opened counter.
//!
//! The kernel hands out one descriptor per opened counter; this module
//! keeps the pairing of that descriptor with the event it counts, and
//! interprets the outcomes of the enable and read primitives. The
//! primitives themselves are the raw ABI collaborator's work: their
//! outcomes reach this module as plain values.

use vstd::prelude::*;

use crate::error::PerfEventsError;
use crate::events::Event;

verus! {

/// Owns one opened kernel counter: the event it counts and the
/// descriptor the open primitive returned for it. No two counters
/// share a descriptor as long as each descriptor enters exactly once.
#[derive(Clone, Copy, Debug, PartialEq, Eq, Structural)]
pub struct EventCounter {
    /// The event this counter tallies.
    pub event: Event,
    /// The descriptor of the kernel resource backing this counter.
    pub fd: i32,
}

impl EventCounter {
    /// Pairs an event with the descriptor its successful open returned.
    pub fn new(event: Event, fd: i32) -> (c: EventCounter)
        ensures
            c.event == event,
            c.fd == fd,
    {
        EventCounter { event, fd }
    }

    /// The event this counter tallies.
    pub fn event(&self) -> (e: Event)
        ensures
            e == self.event,
    {
        self.event
    }

    /// The descriptor on which the enable and read primitives act.
    pub fn fd(&self) -> (r: i32)
        ensures
            r == self.fd,
    {
        self.fd
    }

    /// Interprets the outcome of the enable primitive on this counter's
    /// descriptor: success is passed through, a failure keeps its error
    /// number. A failure invalidates nothing and touches no sibling.
    pub fn enable(&self, outcome: Result<(), i32>) -> (r: Result<(), PerfEventsError>)
        ensures
            r is Ok <==> outcome is Ok,
            outcome is Err ==> r == Result::<(), PerfEventsError>::Err(
                PerfEventsError::EnableFailed { errno: outcome->Err_0 },
            ),
    {
        match outcome {
            Ok(()) => Ok(()),
            Err(errno) => Err(PerfEventsError::EnableFailed { errno }),
        }
    }

    /// Interprets the outcome of the read primitive on this counter's
    /// descriptor: a successful read of the cumulative count is paired
    /// with the counter's event; a failure keeps its error number and is
    /// reported per call, leaving the counter usable.
    pub fn read(&self, outcome: Result<u64, i32>) -> (r: Result<(Event, u64), PerfEventsError>)
        ensures
            outcome is Ok ==> r == Result::<(Event, u64), PerfEventsError>::Ok(
                (self.event, outcome->Ok_0),
            ),
            outcome is Err ==> r == Result::<(Event, u64), PerfEventsError>::Err(
                PerfEventsError::ReadFailed { errno: outcome->Err_0 },
            ),
    {
        match outcome {
            Ok(value) => Ok((self.event, value)),
            Err(errno) => Err(PerfEventsError::ReadFailed { errno }),
        }
    }
}

} // verus!
