use dashboard::schedule::{cadence_for, Cadence, LoopAction, LoopEvent, Phase, PollLoop, Source};

#[test]
fn loop_staggers_then_polls_and_rests() {
    let (mut l, a) = PollLoop::start(Cadence { stagger_ms: 100, interval_ms: 2000 }, 1000);
    assert_eq!(a, LoopAction::SleepUntil { at_ms: 1100 });
    assert_eq!(l.step(LoopEvent::Woke), LoopAction::Collect);
    assert_eq!(l.phase, Phase::Collecting);
    assert_eq!(l.step(LoopEvent::Collected { now_ms: 1350 }), LoopAction::SleepUntil { at_ms: 3350 });
    assert_eq!(l.phase, Phase::Resting);
    assert_eq!(l.step(LoopEvent::Woke), LoopAction::Collect);
}

#[test]
fn slow_collector_does_not_delay_other_source() {
    let (mut slow, _) = PollLoop::start(cadence_for(Source::Tickets), 0);
    let (mut fast, _) = PollLoop::start(cadence_for(Source::Memory), 0);
    slow.step(LoopEvent::Woke);
    fast.step(LoopEvent::Woke);
    // the fast source finishes and is rescheduled while the slow one still runs
    assert_eq!(fast.step(LoopEvent::Collected { now_ms: 300 }), LoopAction::SleepUntil { at_ms: 2300 });
    assert_eq!(slow.phase, Phase::Collecting);
    fast.step(LoopEvent::Woke);
    assert_eq!(fast.step(LoopEvent::Collected { now_ms: 2400 }), LoopAction::SleepUntil { at_ms: 4400 });
    assert_eq!(slow.step(LoopEvent::Collected { now_ms: 60_000 }), LoopAction::SleepUntil { at_ms: 90_000 });
}

#[test]
fn unexpected_event_changes_nothing() {
    let (mut l, _) = PollLoop::start(Cadence { stagger_ms: 5, interval_ms: 10 }, 0);
    let before = l;
    assert_eq!(l.step(LoopEvent::Collected { now_ms: 3 }), LoopAction::SleepUntil { at_ms: 5 });
    assert_eq!(l, before);
}

#[test]
fn wake_time_saturates() {
    let (l, _) = PollLoop::start(Cadence { stagger_ms: 10, interval_ms: 10 }, u64::MAX - 1);
    assert_eq!(l.wake_at_ms, u64::MAX);
}
