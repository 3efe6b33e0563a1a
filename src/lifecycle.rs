//! The decisions of the window's event loop: from state and event to the next
//! state and what the loop does.
use vstd::prelude::*;

verus! {

#[derive(Clone, Copy, Debug, PartialEq, Eq, Structural)]
pub enum LifecycleState {
    Created,
    Running,
    Closing,
    Terminated,
}

/// What the event loop hands over.
#[derive(Clone, Copy, Debug, PartialEq, Eq, Structural)]
pub enum LoopEvent {
    /// The loop's first iteration.
    Init,
    /// The user asked to close the window.
    CloseRequested,
    /// Anything else.
    Other,
}

/// How the loop goes on.
#[derive(Clone, Copy, Debug, PartialEq, Eq, Structural)]
pub enum ControlFlow {
    /// Block until the next event.
    Wait,
    /// Leave the loop; the process ends with success.
    Exit,
}

/// The outcome of one event.
#[derive(Clone, Copy, Debug, PartialEq, Eq, Structural)]
pub struct Step {
    pub state: LifecycleState,
    pub control: ControlFlow,
    /// Log the startup notice.
    pub announce_start: bool,
}

impl LifecycleState {
    /// Closing or terminated: no event is acted on any more.
    pub open spec fn is_closed(self) -> bool {
        self == LifecycleState::Closing || self == LifecycleState::Terminated
    }
}

/// The outcome of `event` in `state`.
pub open spec fn step_spec(state: LifecycleState, event: LoopEvent) -> Step {
    if state.is_closed() {
        Step { state: LifecycleState::Terminated, control: ControlFlow::Exit, announce_start: false }
    } else {
        match event {
            LoopEvent::Init => Step {
                state: LifecycleState::Running,
                control: ControlFlow::Wait,
                announce_start: true,
            },
            LoopEvent::CloseRequested => Step {
                state: LifecycleState::Closing,
                control: ControlFlow::Exit,
                announce_start: false,
            },
            LoopEvent::Other => Step { state, control: ControlFlow::Wait, announce_start: false },
        }
    }
}

/// Decides what one event does.
pub fn step(state: LifecycleState, event: LoopEvent) -> (r: Step)
    ensures
        r == step_spec(state, event),
{
    match state {
        LifecycleState::Closing | LifecycleState::Terminated => Step {
            state: LifecycleState::Terminated,
            control: ControlFlow::Exit,
            announce_start: false,
        },
        _ => match event {
            LoopEvent::Init => Step {
                state: LifecycleState::Running,
                control: ControlFlow::Wait,
                announce_start: true,
            },
            LoopEvent::CloseRequested => Step {
                state: LifecycleState::Closing,
                control: ControlFlow::Exit,
                announce_start: false,
            },
            LoopEvent::Other => Step { state, control: ControlFlow::Wait, announce_start: false },
        },
    }
}

/// Every event of `events`, fed in order from `state`, exits at once, does
/// nothing else, and leaves the loop terminated.
pub open spec fn ignored_after(state: LifecycleState, events: Seq<LoopEvent>) -> bool
    decreases events.len(),
{
    if events.len() == 0 {
        true
    } else {
        let s = step_spec(state, events[0]);
        &&& s.control == ControlFlow::Exit
        &&& !s.announce_start
        &&& s.state == LifecycleState::Terminated
        &&& ignored_after(s.state, events.drop_first())
    }
}

/// A close request ends the loop: it exits, and no event after it is acted on.
pub proof fn lemma_close_is_final(state: LifecycleState, events: Seq<LoopEvent>)
    ensures
        step_spec(state, LoopEvent::CloseRequested).control == ControlFlow::Exit,
        step_spec(state, LoopEvent::CloseRequested).state.is_closed(),
        ignored_after(step_spec(state, LoopEvent::CloseRequested).state, events),
    decreases events.len(),
{
    if events.len() > 0 {
        lemma_close_is_final(LifecycleState::Terminated, events.drop_first());
    }
}

} // verus!
