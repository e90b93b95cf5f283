//! The frame scheduler: draw at a fixed rate, and between two frames read
//! bus messages for as long as the frame has time left.
//!
//! The scheduler decides; it neither draws nor reads. Its owner performs
//! the action that `step` returns and reports what came of it, together
//! with the time that has passed since it last began to draw.

use crate::registry::{GaugeSetup, Registry};
use vstd::prelude::*;

verus! {

/// One millisecond in nanoseconds. A read is only worth starting while at
/// least this much of the frame is left.
pub const MILLISECOND: u64 = 1_000_000;

/// What the scheduler is waiting for.
#[derive(Clone, Copy, Debug, PartialEq, Eq, Structural)]
pub enum Phase {
    /// For the frame to be drawn.
    Drawing,
    /// For a read to end.
    Draining,
    /// For nothing: the cluster was told to quit.
    Stopped,
}

/// What the owner is to do next.
#[derive(Clone, Copy, Debug, PartialEq, Eq, Structural)]
pub enum Action {
    /// Note the time, clear the display, draw every gauge, and look for a
    /// request to quit.
    Draw,
    /// Read one message, giving up after `timeout_ns` nanoseconds.
    Read { timeout_ns: u64 },
    /// Leave the loop.
    Stop,
}

/// What came of the last action. `elapsed_ns` is the time since the owner
/// last began to draw, in nanoseconds.
#[derive(Clone, Debug, PartialEq, Eq)]
pub enum Event {
    /// The frame is drawn; `quit` says whether a request to quit was found.
    Drawn { quit: bool, elapsed_ns: u64 },
    /// A message arrived in time.
    Message { id: u32, payload: Vec<u8>, elapsed_ns: u64 },
    /// The read timed out or failed.
    Silence { elapsed_ns: u64 },
}

/// The time that a read may take when `elapsed_ns` of a frame of
/// `period_ns` have passed: all that is left of the frame, while that is a
/// millisecond or more.
pub open spec fn spec_budget(period_ns: u64, elapsed_ns: u64) -> Option<u64> {
    if period_ns - elapsed_ns >= MILLISECOND {
        Some((period_ns - elapsed_ns) as u64)
    } else {
        None
    }
}

/// The phase and the action that follow when `elapsed_ns` of the frame
/// have passed: another read while there is a budget for one, the next
/// frame when there is none.
pub open spec fn spec_drain(period_ns: u64, elapsed_ns: u64) -> (Phase, Action) {
    match spec_budget(period_ns, elapsed_ns) {
        Some(timeout_ns) => (Phase::Draining, Action::Read { timeout_ns }),
        None => (Phase::Drawing, Action::Draw),
    }
}

/// The phase and the action that follow an event.
pub open spec fn spec_next(phase: Phase, period_ns: u64, event: Event) -> (Phase, Action) {
    if phase == Phase::Stopped {
        (Phase::Stopped, Action::Stop)
    } else {
        match event {
            Event::Drawn { quit, elapsed_ns } => if quit {
                (Phase::Stopped, Action::Stop)
            } else {
                spec_drain(period_ns, elapsed_ns)
            },
            Event::Message { elapsed_ns, .. } => spec_drain(period_ns, elapsed_ns),
            Event::Silence { elapsed_ns } => spec_drain(period_ns, elapsed_ns),
        }
    }
}

/// The gauges after an event: a message that arrives while the scheduler
/// runs reaches the gauges that it feeds, and nothing else changes them.
pub open spec fn spec_gauges_after(phase: Phase, setups: Seq<GaugeSetup>, event: Event) -> Seq<
    GaugeSetup,
> {
    match event {
        Event::Message { id, payload, .. } if phase != Phase::Stopped => setups.map_values(
            |setup: GaugeSetup| setup.after_message(id, payload@),
        ),
        _ => setups,
    }
}

/// The scheduler of a cluster.
#[derive(Clone, Copy, Debug, PartialEq, Eq, Structural)]
pub struct FrameScheduler {
    /// The time from one frame to the next, in nanoseconds.
    pub period_ns: u64,
    pub phase: Phase,
}

impl FrameScheduler {
    /// The time from one frame to the next at `target_fps` frames a second:
    /// the whole number of milliseconds in that part of a second.
    pub open spec fn spec_period_ns(target_fps: u32) -> int {
        (1000int / target_fps as int) * MILLISECOND
    }

    /// A scheduler for `target_fps` frames a second. Its owner starts by
    /// drawing.
    pub fn new(target_fps: u32) -> (scheduler: FrameScheduler)
        requires
            target_fps > 0,
        ensures
            scheduler.period_ns == FrameScheduler::spec_period_ns(target_fps),
            scheduler.phase == Phase::Drawing,
    {
        let millis: u64 = 1000 / target_fps as u64;
        FrameScheduler { period_ns: millis * MILLISECOND, phase: Phase::Drawing }
    }

    /// The time that a read may take when `elapsed_ns` of the frame have
    /// passed, or `None` when the frame has less than a millisecond left.
    pub fn budget(&self, elapsed_ns: u64) -> (timeout_ns: Option<u64>)
        ensures
            timeout_ns == spec_budget(self.period_ns, elapsed_ns),
    {
        match self.period_ns.checked_sub(elapsed_ns) {
            Some(left) => if left >= MILLISECOND {
                Some(left)
            } else {
                None
            },
            None => None,
        }
    }

    /// Takes what came of the last action and says what to do next.
    ///
    /// A request to quit stops the scheduler for good. A message goes to
    /// the gauges that it feeds. After that, and after a read that brought
    /// nothing, the time decides: another read if the frame has a
    /// millisecond or more left, with all that is left as its timeout, and
    /// the next frame otherwise.
    pub fn step(&mut self, registry: &mut Registry, event: Event) -> (action: Action)
        requires
            old(registry).wf(),
        ensures
            final(registry).wf(),
            final(registry)@ == spec_gauges_after(old(self).phase, old(registry)@, event),
            final(self).period_ns == old(self).period_ns,
            (final(self).phase, action) == spec_next(old(self).phase, old(self).period_ns, event),
    {
        if self.phase == Phase::Stopped {
            return Action::Stop;
        }
        let elapsed_ns: u64 = match event {
            Event::Drawn { quit, elapsed_ns } => {
                if quit {
                    self.phase = Phase::Stopped;
                    return Action::Stop;
                }
                elapsed_ns
            },
            Event::Message { id, payload, elapsed_ns } => {
                registry.dispatch(id, payload.as_slice());
                elapsed_ns
            },
            Event::Silence { elapsed_ns } => elapsed_ns,
        };
        match self.budget(elapsed_ns) {
            Some(timeout_ns) => {
                self.phase = Phase::Draining;
                Action::Read { timeout_ns }
            },
            None => {
                self.phase = Phase::Drawing;
                Action::Draw
            },
        }
    }
}

/// A drain never outlasts its frame: a read is given just the time that is
/// left of the frame, and once that time has passed the next action is to
/// draw.
pub proof fn lemma_drain_ends(period_ns: u64, elapsed_ns: u64, later_ns: u64)
    ensures
        spec_budget(period_ns, elapsed_ns) matches Some(timeout_ns) ==> {
            &&& timeout_ns >= MILLISECOND
            &&& elapsed_ns + timeout_ns == period_ns
            &&& later_ns >= elapsed_ns + timeout_ns ==> spec_drain(period_ns, later_ns) == (
                Phase::Drawing,
                Action::Draw,
            )
        },
        spec_budget(period_ns, elapsed_ns) is None ==> spec_drain(period_ns, elapsed_ns) == (
            Phase::Drawing,
            Action::Draw,
        ),
{
}

} // verus!
