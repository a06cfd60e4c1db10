use vstd::prelude::*;

use crate::chip8::{settles, step_spec, Chip8, Chip8Error};

verus! {

/// A request from the host to the runner.
#[derive(Debug, Clone, Copy, PartialEq, Eq, Structural)]
pub enum RunnerEvent {
    Start,
    Stop,
}

#[derive(Debug, Clone, Copy, PartialEq, Eq, Structural)]
pub enum RunnerState {
    NotStarted,
    Running,
    Paused,
}

/// Start runs the interpreter from any state; Stop pauses a running one.
pub open spec fn next_state(state: RunnerState, event: RunnerEvent) -> RunnerState {
    match event {
        RunnerEvent::Start => RunnerState::Running,
        RunnerEvent::Stop => if state == RunnerState::Running {
            RunnerState::Paused
        } else {
            state
        },
    }
}

/// A cycle's outcome without whether it ran.
pub open spec fn unit_of(r: Result<bool, Chip8Error>) -> Result<(), Chip8Error> {
    match r {
        Ok(_) => Ok(()),
        Err(e) => Err(e),
    }
}

/// Drives an interpreter at a rate of `tick_hz` cycles per second; the host
/// keeps the time and calls `cycle` at that rate.
#[derive(Debug)]
pub struct Chip8Runner {
    pub chip8: Chip8,
    pub tick_hz: usize,
    pub state: RunnerState,
}

impl Chip8Runner {
    pub fn new(chip8: Chip8, tick_hz: usize) -> (r: Chip8Runner)
        ensures
            r.chip8 == chip8,
            r.tick_hz == tick_hz,
            r.state == RunnerState::NotStarted,
    {
        Chip8Runner { chip8, tick_hz, state: RunnerState::NotStarted }
    }

    /// Moves to the state that `event` leads to.
    pub fn handle_event(&mut self, event: RunnerEvent)
        ensures
            final(self).state == next_state(old(self).state, event),
            final(self).chip8 == old(self).chip8,
            final(self).tick_hz == old(self).tick_hz,
    {
        self.state = match event {
            RunnerEvent::Start => RunnerState::Running,
            RunnerEvent::Stop => if self.state == RunnerState::Running {
                RunnerState::Paused
            } else {
                self.state
            },
        };
    }

    /// Starts running; returns whether the runner was running already.
    pub fn start(&mut self) -> (was_running: bool)
        ensures
            was_running == (old(self).state == RunnerState::Running),
            final(self).state == RunnerState::Running,
            final(self).chip8 == old(self).chip8,
            final(self).tick_hz == old(self).tick_hz,
    {
        let was_running = self.state == RunnerState::Running;
        self.handle_event(RunnerEvent::Start);
        was_running
    }

    /// Runs one interpreter cycle when running; returns whether it ran one.
    pub fn cycle(&mut self) -> (r: Result<bool, Chip8Error>)
        requires
            old(self).chip8.wf(),
        ensures
            final(self).chip8.wf(),
            final(self).state == old(self).state,
            old(self).state != RunnerState::Running ==> r == Ok::<bool, Chip8Error>(false)
                && final(self).chip8@ == old(self).chip8@,
            old(self).state == RunnerState::Running ==> exists|b: u8|
                settles(old(self).chip8@, final(self).chip8@, unit_of(r), #[trigger] step_spec(old(self).chip8@, b)),
            old(self).state == RunnerState::Running ==> r != Ok::<bool, Chip8Error>(false),
    {
        if self.state != RunnerState::Running {
            return Ok(false);
        }
        match self.chip8.tick() {
            Ok(()) => Ok(true),
            Err(e) => Err(e),
        }
    }
}

} // verus!
