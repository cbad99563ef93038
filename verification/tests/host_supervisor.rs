//! Supervision of the pipeline.

use eternal_monitor::host::control::SupervisorCommand;
use eternal_monitor::host::supervisor::{
    Effect, Machine, Stage, StageOutcome, SupervisorState, STORM_LIMIT, STORM_WINDOW,
};

/// A moment on the clock, in nanoseconds.
const START: u64 = 10_000_000_000;

fn millis(n: u64) -> u64 {
    n * 1_000_000
}

fn secs(n: u64) -> u64 {
    n * 1_000_000_000
}

fn failed(reason: &str) -> StageOutcome {
    StageOutcome::Failed(reason.to_string())
}

#[test]
fn stage_failure_backs_off_then_restarts() {
    let mut machine = Machine::new(1);
    let t0 = START;

    let effect = machine.on_stage_exit(1, Stage::Capture, &failed("dxgi died"), t0);
    assert_eq!(effect, Effect::StopPipeline);
    assert!(matches!(machine.state, SupervisorState::BackingOff { .. }));

    // Before the backoff elapses: no start.
    assert_eq!(
        machine.on_tick(t0 + millis(100)),
        Effect::Nothing
    );
    // After: start.
    assert_eq!(
        machine.on_tick(t0 + millis(600)),
        Effect::Start
    );
    machine.note_started(2);
    assert!(matches!(
        machine.state,
        SupervisorState::Running { generation: 2 }
    ));
}

#[test]
fn stale_generation_reports_are_ignored() {
    let mut machine = Machine::new(5);
    let effect = machine.on_stage_exit(3, Stage::Encoder, &failed("zombie"), START);
    assert_eq!(effect, Effect::Nothing);
    assert!(matches!(machine.state, SupervisorState::Running { .. }));
}

#[test]
fn restart_storm_lands_in_failed_until_manual_start() {
    let mut machine = Machine::new(1);
    let t0 = START;
    let mut generation = 1;
    for i in 0..STORM_LIMIT {
        let at = t0 + secs(i as u64 * 5);
        let effect = machine.on_stage_exit(generation, Stage::Encoder, &failed("boom"), at);
        assert_eq!(effect, Effect::StopPipeline, "failure {i}");
        generation += 1;
        machine.note_started(generation);
    }
    // The storm-limit-th+1 failure inside the window trips the brake.
    let effect = machine.on_stage_exit(
        generation,
        Stage::Encoder,
        &failed("boom"),
        t0 + secs(30),
    );
    assert_eq!(effect, Effect::StopPipeline);
    assert!(matches!(machine.state, SupervisorState::Failed { .. }));

    // Ticks do nothing in Failed; a manual Start recovers.
    assert_eq!(machine.on_tick(t0 + secs(600)), Effect::Nothing);
    assert_eq!(machine.on_command(&SupervisorCommand::Start), Effect::Start);
}

#[test]
fn stop_then_start_cycle() {
    let mut machine = Machine::new(1);
    assert_eq!(
        machine.on_command(&SupervisorCommand::Stop),
        Effect::StopPipeline
    );
    assert!(matches!(machine.state, SupervisorState::Stopped));
    // Failures while stopped are ignored (they're the pipeline winding down).
    assert_eq!(
        machine.on_stage_exit(1, Stage::Capture, &failed("late"), START),
        Effect::Nothing
    );
    assert_eq!(machine.on_command(&SupervisorCommand::Start), Effect::Start);
}

#[test]
fn wedge_detection_restarts() {
    let mut machine = Machine::new(1);
    let effect = machine.on_wedged("no frames for 5s", START);
    assert_eq!(effect, Effect::StopPipeline);
    assert!(matches!(machine.state, SupervisorState::BackingOff { .. }));
}

#[test]
fn healthy_stretch_resets_the_budget() {
    let mut machine = Machine::new(1);
    let t0 = START;
    let mut generation = 1;
    for i in 0..STORM_LIMIT - 1 {
        machine.on_stage_exit(
            generation,
            Stage::Encoder,
            &failed("flap"),
            t0 + secs(i as u64),
        );
        generation += 1;
        machine.note_started(generation);
    }
    machine.note_healthy();
    // Old restarts still in the window count toward the storm, but the
    // budget reset keeps backoff small; verify we can still restart
    // rather than land in Failed after a healthy stretch + one failure
    // outside the window.
    let effect = machine.on_stage_exit(
        generation,
        Stage::Encoder,
        &failed("one more"),
        t0 + STORM_WINDOW + secs(1),
    );
    assert_eq!(effect, Effect::StopPipeline);
    assert!(matches!(machine.state, SupervisorState::BackingOff { .. }));
}

/// Lets one generation after the other fail, `apart` from each other, and
/// returns the attempts and the waits of the backoffs.
fn backoffs(machine: &mut Machine, first: u64, times: u64, apart: u64) -> Vec<(u32, u64)> {
    let mut seen = Vec::new();
    for i in 0..times {
        let now = first + i * apart;
        machine.note_started(100 + i);
        let effect = machine.on_stage_exit(100 + i, Stage::Encoder, &failed("x"), now);
        assert_eq!(effect, Effect::StopPipeline);
        if let SupervisorState::BackingOff { attempt, until } = machine.state {
            seen.push((attempt, until - now));
        }
    }
    seen
}

#[test]
fn backoffs_follow_the_history() {
    let mut machine = Machine::new(1);
    // Far enough apart for no storm: the wait doubles up to its longest.
    let seen = backoffs(&mut machine, START, 9, secs(20));
    let waits: Vec<u64> = seen.iter().map(|(_, wait)| *wait).collect();
    assert_eq!(
        waits,
        vec![
            millis(500),
            secs(1),
            secs(2),
            secs(4),
            secs(8),
            secs(16),
            secs(30),
            secs(30),
            secs(30)
        ]
    );
    // Health resets the wait, but not the count of the last minute.
    let mut machine = Machine::new(1);
    assert_eq!(backoffs(&mut machine, START, 5, secs(1)).len(), 5);
    machine.note_healthy();
    assert_eq!(
        backoffs(&mut machine, START + secs(6), 2, secs(1)),
        vec![(1, millis(500))]
    );
    assert!(matches!(machine.state, SupervisorState::Failed { .. }));
    // A start by command forgets all of it.
    assert_eq!(machine.on_command(&SupervisorCommand::Start), Effect::Start);
    assert_eq!(
        backoffs(&mut machine, START + secs(8), 7, secs(1)).len(),
        STORM_LIMIT
    );
}

#[test]
fn the_storm_window_slides() {
    let mut machine = Machine::new(1);
    assert_eq!(backoffs(&mut machine, START, 6, secs(10)).len(), 6);
    // The first lies a minute back and counts no more; the others do.
    assert_eq!(backoffs(&mut machine, START + STORM_WINDOW, 1, 0).len(), 1);
    assert_eq!(backoffs(&mut machine, START + STORM_WINDOW + 1, 1, 0).len(), 0);
}
