//! Sweep Scheduler: the decision table of the perpetual worker loop.
//! The loop itself performs I/O (loading checks, probing, sleeping) and is
//! driven from outside; every decision about what to do next is made here.

use vstd::prelude::*;

verus! {

/// Seconds slept between two sweeps.
pub const SWEEP_INTERVAL_SECONDS: u64 = 5;

/// Seconds slept before retrying after a failure to load the check list.
pub const LOAD_BACKOFF_SECONDS: u64 = 5;

/// Where the worker loop stands.
#[derive(Clone, Copy, Debug, PartialEq, Eq, Structural)]
pub enum SchedulerState {
    Loading,
    Probing,
    Sleeping,
}

/// What the outside world reports back to the loop.
#[derive(Clone, Copy, Debug, PartialEq, Eq, Structural)]
pub enum SchedulerEvent {
    LoadSucceeded,
    LoadFailed,
    SweepFinished,
    SleepElapsed,
}

/// What the loop is told to do next.
#[derive(Clone, Copy, Debug, PartialEq, Eq, Structural)]
pub enum SchedulerAction {
    LoadChecks,
    BeginProbing,
    Sleep(u64),
}

/// The scheduler's transition table. An event that does not belong to the
/// current state leaves the state alone and asks for nothing.
pub open spec fn spec_scheduler_step(s: SchedulerState, e: SchedulerEvent) -> (
    SchedulerState,
    Option<SchedulerAction>,
) {
    match (s, e) {
        (SchedulerState::Loading, SchedulerEvent::LoadSucceeded) => (
            SchedulerState::Probing,
            Option::Some(SchedulerAction::BeginProbing),
        ),
        (SchedulerState::Loading, SchedulerEvent::LoadFailed) => (
            SchedulerState::Sleeping,
            Option::Some(SchedulerAction::Sleep(LOAD_BACKOFF_SECONDS)),
        ),
        (SchedulerState::Probing, SchedulerEvent::SweepFinished) => (
            SchedulerState::Sleeping,
            Option::Some(SchedulerAction::Sleep(SWEEP_INTERVAL_SECONDS)),
        ),
        (SchedulerState::Sleeping, SchedulerEvent::SleepElapsed) => (
            SchedulerState::Loading,
            Option::Some(SchedulerAction::LoadChecks),
        ),
        _ => (s, Option::None),
    }
}

/// Advance the scheduler: given where the loop stands and what just
/// happened, return the next state and the action to perform.
pub fn scheduler_step(s: SchedulerState, e: SchedulerEvent) -> (r: (
    SchedulerState,
    Option<SchedulerAction>,
))
    ensures
        r == spec_scheduler_step(s, e),
{
    match (s, e) {
        (SchedulerState::Loading, SchedulerEvent::LoadSucceeded) => (
            SchedulerState::Probing,
            Some(SchedulerAction::BeginProbing),
        ),
        (SchedulerState::Loading, SchedulerEvent::LoadFailed) => (
            SchedulerState::Sleeping,
            Some(SchedulerAction::Sleep(LOAD_BACKOFF_SECONDS)),
        ),
        (SchedulerState::Probing, SchedulerEvent::SweepFinished) => (
            SchedulerState::Sleeping,
            Some(SchedulerAction::Sleep(SWEEP_INTERVAL_SECONDS)),
        ),
        (SchedulerState::Sleeping, SchedulerEvent::SleepElapsed) => (
            SchedulerState::Loading,
            Some(SchedulerAction::LoadChecks),
        ),
        (other, _) => (other, None),
    }
}

/// A failure to load the check list never ends the loop: the scheduler
/// backs off for the configured interval, and once the sleep elapses it
/// is loading again.
pub proof fn lemma_load_failure_backs_off_and_retries()
    ensures
        spec_scheduler_step(SchedulerState::Loading, SchedulerEvent::LoadFailed) == (
            SchedulerState::Sleeping,
            Option::Some(SchedulerAction::Sleep(LOAD_BACKOFF_SECONDS)),
        ),
        spec_scheduler_step(SchedulerState::Sleeping, SchedulerEvent::SleepElapsed) == (
            SchedulerState::Loading,
            Option::Some(SchedulerAction::LoadChecks),
        ),
{
}

/// No state of the scheduler is terminal: from every state some event
/// moves the loop onward with an action to perform.
pub proof fn lemma_no_terminal_state(s: SchedulerState)
    ensures
        exists|e: SchedulerEvent| (#[trigger] spec_scheduler_step(s, e)).1 is Some,
{
    match s {
        SchedulerState::Loading => {
            assert(spec_scheduler_step(s, SchedulerEvent::LoadSucceeded).1 is Some);
        },
        SchedulerState::Probing => {
            assert(spec_scheduler_step(s, SchedulerEvent::SweepFinished).1 is Some);
        },
        SchedulerState::Sleeping => {
            assert(spec_scheduler_step(s, SchedulerEvent::SleepElapsed).1 is Some);
        },
    }
}

} // verus!
