//! The polling cadence of one source: wait a start-up stagger, then collect,
//! store, rest for the interval, and collect again, for ever.
//!
//! Each source runs its own `PollLoop`; nothing in one loop's state or
//! transitions refers to another loop.

use vstd::prelude::*;

verus! {

/// When a source is first polled and how long it rests between polls.
#[derive(PartialEq, Eq, Structural, Clone, Copy, Debug)]
pub struct Cadence {
    pub stagger_ms: u64,
    pub interval_ms: u64,
}

#[derive(PartialEq, Eq, Structural, Clone, Copy, Debug)]
pub enum Phase {
    /// Waiting out the start-up stagger.
    Staggering,
    /// The collector is running.
    Collecting,
    /// Resting between two polls.
    Resting,
}

/// What the driver of a loop reports.
#[derive(PartialEq, Eq, Structural, Clone, Copy, Debug)]
pub enum LoopEvent {
    /// The time the loop asked to sleep until has come.
    Woke,
    /// The collector finished and its result was stored, at `now_ms`.
    Collected { now_ms: u64 },
}

/// What the driver of a loop is to do next.
#[derive(PartialEq, Eq, Structural, Clone, Copy, Debug)]
pub enum LoopAction {
    SleepUntil { at_ms: u64 },
    Collect,
}

/// The state of one source's polling loop.
#[derive(PartialEq, Eq, Structural, Clone, Copy, Debug)]
pub struct PollLoop {
    pub cadence: Cadence,
    pub phase: Phase,
    /// When the current sleep ends (meaningful outside `Collecting`).
    pub wake_at_ms: u64,
}

pub open spec fn sat_add(a: u64, b: u64) -> u64 {
    if a as int + b as int > u64::MAX {
        u64::MAX
    } else {
        (a + b) as u64
    }
}

/// The action that a loop in state `l` is waiting on.
pub open spec fn pending_action(l: PollLoop) -> LoopAction {
    match l.phase {
        Phase::Collecting => LoopAction::Collect,
        _ => LoopAction::SleepUntil { at_ms: l.wake_at_ms },
    }
}

/// One transition: a wake-up starts a poll; a finished poll starts a rest
/// of the full interval from the moment it finished; any other event
/// leaves the loop as it is.
pub open spec fn step_spec(l: PollLoop, ev: LoopEvent) -> (PollLoop, LoopAction) {
    match (l.phase, ev) {
        (Phase::Staggering, LoopEvent::Woke) | (Phase::Resting, LoopEvent::Woke) => (
            PollLoop { phase: Phase::Collecting, ..l },
            LoopAction::Collect,
        ),
        (Phase::Collecting, LoopEvent::Collected { now_ms }) => {
            let at = sat_add(now_ms, l.cadence.interval_ms);
            (
                PollLoop { phase: Phase::Resting, wake_at_ms: at, ..l },
                LoopAction::SleepUntil { at_ms: at },
            )
        },
        _ => (l, pending_action(l)),
    }
}

fn saturating_sum(a: u64, b: u64) -> (r: u64)
    ensures
        r == sat_add(a, b),
{
    if a > u64::MAX - b {
        u64::MAX
    } else {
        a + b
    }
}

impl PollLoop {
    /// A loop started at `now_ms`: it sleeps out its stagger first.
    pub fn start(cadence: Cadence, now_ms: u64) -> (r: (PollLoop, LoopAction))
        ensures
            r.0.cadence == cadence,
            r.0.phase == Phase::Staggering,
            r.0.wake_at_ms == sat_add(now_ms, cadence.stagger_ms),
            r.1 == pending_action(r.0),
    {
        let at = saturating_sum(now_ms, cadence.stagger_ms);
        (
            PollLoop { cadence, phase: Phase::Staggering, wake_at_ms: at },
            LoopAction::SleepUntil { at_ms: at },
        )
    }

    /// Applies one event and says what to do next.
    pub fn step(&mut self, ev: LoopEvent) -> (r: LoopAction)
        ensures
            (*final(self), r) == step_spec(*old(self), ev),
    {
        match (self.phase, ev) {
            (Phase::Staggering, LoopEvent::Woke) | (Phase::Resting, LoopEvent::Woke) => {
                self.phase = Phase::Collecting;
                LoopAction::Collect
            },
            (Phase::Collecting, LoopEvent::Collected { now_ms }) => {
                let at = saturating_sum(now_ms, self.cadence.interval_ms);
                self.phase = Phase::Resting;
                self.wake_at_ms = at;
                LoopAction::SleepUntil { at_ms: at }
            },
            (Phase::Collecting, _) => LoopAction::Collect,
            _ => LoopAction::SleepUntil { at_ms: self.wake_at_ms },
        }
    }
}

/// The data sources.
#[derive(PartialEq, Eq, Structural, Clone, Copy, Debug)]
pub enum Source {
    Memory,
    Cpu,
    Containers,
    Playback,
    Tickets,
    Health,
    Issues,
}

/// Deployment cadence of each source: host metrics every two seconds,
/// containers every five, playback every three, the web services tens of
/// seconds apart; first polls staggered.
pub open spec fn cadence_spec(source: Source) -> Cadence {
    match source {
        Source::Memory => Cadence { stagger_ms: 100, interval_ms: 2000 },
        Source::Cpu => Cadence { stagger_ms: 450, interval_ms: 2000 },
        Source::Containers => Cadence { stagger_ms: 850, interval_ms: 5000 },
        Source::Playback => Cadence { stagger_ms: 1250, interval_ms: 3000 },
        Source::Tickets => Cadence { stagger_ms: 1700, interval_ms: 30000 },
        Source::Health => Cadence { stagger_ms: 2100, interval_ms: 20000 },
        Source::Issues => Cadence { stagger_ms: 2500, interval_ms: 30000 },
    }
}

/// Computes `cadence_spec(source)`.
pub fn cadence_for(source: Source) -> (r: Cadence)
    ensures
        r == cadence_spec(source),
{
    match source {
        Source::Memory => Cadence { stagger_ms: 100, interval_ms: 2000 },
        Source::Cpu => Cadence { stagger_ms: 450, interval_ms: 2000 },
        Source::Containers => Cadence { stagger_ms: 850, interval_ms: 5000 },
        Source::Playback => Cadence { stagger_ms: 1250, interval_ms: 3000 },
        Source::Tickets => Cadence { stagger_ms: 1700, interval_ms: 30000 },
        Source::Health => Cadence { stagger_ms: 2100, interval_ms: 20000 },
        Source::Issues => Cadence { stagger_ms: 2500, interval_ms: 30000 },
    }
}

/// The loops of several sources after the event `e.1` for the source
/// `e.0`; an event for no known source changes nothing.
pub open spec fn apply_event(loops: Seq<PollLoop>, e: (nat, LoopEvent)) -> Seq<PollLoop> {
    if e.0 < loops.len() {
        loops.update(e.0 as int, step_spec(loops[e.0 as int], e.1).0)
    } else {
        loops
    }
}

/// The loops after an interleaved trace of events of all sources.
pub open spec fn run_trace(loops: Seq<PollLoop>, trace: Seq<(nat, LoopEvent)>) -> Seq<PollLoop>
    decreases trace.len(),
{
    if trace.len() == 0 {
        loops
    } else {
        apply_event(run_trace(loops, trace.drop_last()), trace.last())
    }
}

/// One loop after its own events, in order.
pub open spec fn run_own(l: PollLoop, evs: Seq<LoopEvent>) -> PollLoop
    decreases evs.len(),
{
    if evs.len() == 0 {
        l
    } else {
        step_spec(run_own(l, evs.drop_last()), evs.last()).0
    }
}

/// The events of the trace that belong to source `j`, in order.
pub open spec fn events_of(trace: Seq<(nat, LoopEvent)>, j: nat) -> Seq<LoopEvent>
    decreases trace.len(),
{
    if trace.len() == 0 {
        Seq::empty()
    } else if trace.last().0 == j {
        events_of(trace.drop_last(), j).push(trace.last().1)
    } else {
        events_of(trace.drop_last(), j)
    }
}

/// Cadences are independent: however the events of all sources interleave,
/// and however late any other source's poll finishes, each source's loop
/// (its phase and its next wake-up time) is what its own events alone make
/// of it.
pub proof fn lemma_cadence_independent(
    loops: Seq<PollLoop>,
    trace: Seq<(nat, LoopEvent)>,
    j: nat,
)
    requires
        j < loops.len(),
    ensures
        run_trace(loops, trace).len() == loops.len(),
        run_trace(loops, trace)[j as int] == run_own(loops[j as int], events_of(trace, j)),
    decreases trace.len(),
{
    if trace.len() > 0 {
        lemma_cadence_independent(loops, trace.drop_last(), j);
        let own = events_of(trace.drop_last(), j);
        assert(own.push(trace.last().1).drop_last() =~= own);
    }
}

} // verus!
