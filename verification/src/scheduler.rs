//! When to regenerate: a state machine that a polling loop drives.

use vstd::prelude::*;

verus! {

/// The seconds between two polls of the schedule.
pub const POLL_SECONDS: u64 = 5;

/// Where the scheduler stands.
#[derive(Debug, Clone, Copy, PartialEq, Eq)]
pub enum Phase {
    /// Waiting for the schedule.
    Idle,
    /// The schedule has fired; the cycle has not begun yet.
    Due,
    /// A cycle is under way.
    Running,
}

/// What the driving loop reports.
#[derive(Debug, Clone, Copy, PartialEq, Eq)]
pub enum Event {
    /// The schedule was polled; `due` tells whether it has fired.
    Poll { due: bool },
    /// The loop is ready to begin the cycle that is due.
    Begin,
    /// The cycle has ended; `applied` tells whether the backend took the wallpaper.
    Finished { applied: bool },
}

/// What the driving loop is to do next.
#[derive(Debug, Clone, Copy, PartialEq, Eq)]
pub enum Action {
    /// Sleep for the polling interval, then poll again.
    Sleep,
    /// Report `Begin` at once.
    Begin,
    /// Purge, compose, publish and apply, then report `Finished`.
    RunCycle,
    /// Log that the wallpaper could not be applied, then sleep and poll.
    ReportFailure,
    /// The event does not fit the phase: nothing changes.
    Ignore,
}

/// The regeneration scheduler.
#[derive(Debug, Clone, Copy, PartialEq, Eq)]
pub struct Scheduler {
    /// The phase the scheduler is in.
    pub phase: Phase,
}

/// The phase after `event` has been reported in `phase`.
pub open spec fn next_phase(phase: Phase, event: Event) -> Phase {
    match (phase, event) {
        (Phase::Idle, Event::Poll { due: true }) => Phase::Due,
        (Phase::Due, Event::Begin) => Phase::Running,
        (Phase::Running, Event::Finished { .. }) => Phase::Idle,
        _ => phase,
    }
}

/// The action that answers `event` in `phase`.
pub open spec fn next_action(phase: Phase, event: Event) -> Action {
    match (phase, event) {
        (Phase::Idle, Event::Poll { due: true }) => Action::Begin,
        (Phase::Idle, Event::Poll { due: false }) => Action::Sleep,
        (Phase::Due, Event::Begin) => Action::RunCycle,
        (Phase::Running, Event::Finished { applied: true }) => Action::Sleep,
        (Phase::Running, Event::Finished { applied: false }) => Action::ReportFailure,
        _ => Action::Ignore,
    }
}

/// The phase reached from `phase` by `events`, in order.
pub open spec fn run(phase: Phase, events: Seq<Event>) -> Phase
    decreases events.len(),
{
    if events.len() == 0 {
        phase
    } else {
        next_phase(run(phase, events.drop_last()), events.last())
    }
}

/// How many cycles `events` start, beginning in `phase`.
pub open spec fn started(phase: Phase, events: Seq<Event>) -> nat
    decreases events.len(),
{
    if events.len() == 0 {
        0
    } else {
        let before = run(phase, events.drop_last());
        started(phase, events.drop_last()) + if next_action(before, events.last())
            == Action::RunCycle {
            1nat
        } else {
            0nat
        }
    }
}

/// How many cycles `events` end, beginning in `phase`.
pub open spec fn finished(phase: Phase, events: Seq<Event>) -> nat
    decreases events.len(),
{
    if events.len() == 0 {
        0
    } else {
        let before = run(phase, events.drop_last());
        finished(phase, events.drop_last()) + if before == Phase::Running && events.last() is Finished {
            1nat
        } else {
            0nat
        }
    }
}

/// The number of cycles under way in a phase.
pub open spec fn under_way(phase: Phase) -> nat {
    if phase == Phase::Running {
        1
    } else {
        0
    }
}

impl Scheduler {
    /// The scheduler at startup: one cycle is run at once, whatever the
    /// schedule says.
    pub fn start() -> (r: (Scheduler, Action))
        ensures
            r.0.phase == Phase::Running,
            r.1 == Action::RunCycle,
    {
        (Scheduler { phase: Phase::Running }, Action::RunCycle)
    }

    /// Takes one event and says what to do next. A cycle is started only
    /// from `Due`, and none while another is under way.
    pub fn advance(&mut self, event: Event) -> (action: Action)
        ensures
            final(self).phase == next_phase(old(self).phase, event),
            action == next_action(old(self).phase, event),
            action == Action::RunCycle ==> old(self).phase == Phase::Due && final(self).phase
                == Phase::Running,
            old(self).phase == Phase::Running && !(event is Finished) ==> final(self).phase
                == Phase::Running && action == Action::Ignore,
    {
        match (self.phase, event) {
            (Phase::Idle, Event::Poll { due }) => {
                if due {
                    self.phase = Phase::Due;
                    Action::Begin
                } else {
                    Action::Sleep
                }
            },
            (Phase::Due, Event::Begin) => {
                self.phase = Phase::Running;
                Action::RunCycle
            },
            (Phase::Running, Event::Finished { applied }) => {
                self.phase = Phase::Idle;
                if applied {
                    Action::Sleep
                } else {
                    Action::ReportFailure
                }
            },
            _ => Action::Ignore,
        }
    }
}

/// Cycles never overlap: whatever is reported, every cycle that was started
/// has ended before the next one starts, so at most one is under way.
pub proof fn lemma_cycles_never_overlap(phase: Phase, events: Seq<Event>)
    ensures
        under_way(phase) + started(phase, events) == finished(phase, events) + under_way(
            run(phase, events),
        ),
        under_way(run(phase, events)) <= 1,
    decreases events.len(),
{
    if events.len() > 0 {
        lemma_cycles_never_overlap(phase, events.drop_last());
    }
}

/// A cycle always ends in `Idle`, whether or not the wallpaper was applied.
pub proof fn lemma_cycle_ends_idle(applied: bool)
    ensures
        next_phase(Phase::Running, Event::Finished { applied }) == Phase::Idle,
{
}

} // verus!
