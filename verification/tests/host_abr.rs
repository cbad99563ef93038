//! The bitrate controller.

use eternal_monitor::host::transport::abr::{
    AbrController, AbrDecision, DOWN_COOLDOWN, PRESSURE_REQUESTS, PRESSURE_WINDOW,
};
use eternal_monitor::wire::v2::control::ReceiverReport;

/// A moment on the clock, in nanoseconds.
const START: u64 = 10_000_000_000;

fn millis(n: u64) -> u64 {
    n * 1_000_000
}

fn secs(n: u64) -> u64 {
    n * 1_000_000_000
}

fn report(received: u32, lost: u32, depth: u8) -> ReceiverReport {
    ReceiverReport {
        frags_received: received,
        frags_lost: lost,
        assembler_depth: depth,
        ..Default::default()
    }
}

#[test]
fn starts_at_min_of_ceiling_and_fifteen() {
    assert_eq!(
        AbrController::new(20_000_000, true).current_bps(),
        15_000_000
    );
    assert_eq!(AbrController::new(8_000_000, true).current_bps(), 8_000_000);
    assert_eq!(AbrController::new(5_000_000, true).current_bps(), 4_000_000);
}

#[test]
fn heavy_loss_steps_down_two_rungs_with_cooldown() {
    let mut abr = AbrController::new(20_000_000, true);
    let t0 = START;
    // 15% loss -> two rungs: 15M -> 10M.
    let d = abr.on_report(&report(850, 150, 0), t0);
    assert!(d.changed);
    assert_eq!(d.target_bps, 10_000_000);

    // Still lossy 1s later: inside the 3s down-cooldown, no change.
    let d = abr.on_report(&report(1700, 300, 0), t0 + secs(1));
    assert!(!d.changed);

    // After the cooldown, mild loss steps one more rung: 10M -> 8M.
    let d = abr.on_report(&report(2540, 340, 0), t0 + secs(4));
    assert!(d.changed);
    assert_eq!(d.target_bps, 8_000_000);
}

#[test]
fn queue_depth_alone_steps_down() {
    let mut abr = AbrController::new(20_000_000, true);
    let d = abr.on_report(&report(1000, 0, 4), START);
    assert!(d.changed);
    assert_eq!(d.target_bps, 12_000_000);
}

#[test]
fn clean_window_steps_up_after_cooldowns() {
    let mut abr = AbrController::new(20_000_000, true);
    let t0 = START;
    // Step down first: 15M -> 12M.
    let d = abr.on_report(&report(950, 50, 0), t0);
    assert_eq!(d.target_bps, 12_000_000);

    // Clean reports every 500ms; must NOT step up before 15s clean.
    let mut cumulative = 1000;
    let mut last = AbrDecision {
        target_bps: 12_000_000,
        changed: false,
    };
    for i in 1..=40 {
        cumulative += 500;
        let at = t0 + millis(500 * i);
        last = abr.on_report(&report(cumulative, 50, 0), at);
        if last.changed {
            assert!(
                at - t0 >= secs(15),
                "stepped up too early at {:?}",
                at - t0
            );
            break;
        }
    }
    assert!(last.changed, "a sustained clean window must step up");
    assert_eq!(last.target_bps, 15_000_000);
}

#[test]
fn report_gap_resets_clean_streak() {
    let mut abr = AbrController::new(20_000_000, true);
    let t0 = START;
    abr.on_report(&report(950, 50, 0), t0); // down to 12M
                                            // 10s of clean...
    let mut cumulative = 1000;
    for i in 1..=20 {
        cumulative += 500;
        abr.on_report(
            &report(cumulative, 50, 0),
            t0 + millis(500 * i),
        );
    }
    // ...then a 3s report outage, then clean again: the streak restarts,
    // so no upgrade until ~15s after the outage.
    let resume = t0 + secs(13);
    for i in 0..=8 {
        cumulative += 500;
        let d = abr.on_report(&report(cumulative, 50, 0), resume + secs(i));
        assert!(!d.changed, "must not upgrade at +{i}s after an outage");
    }
}

#[test]
fn ceiling_clamps_immediately_and_disabled_never_changes() {
    let mut abr = AbrController::new(20_000_000, true);
    let d = abr.set_ceiling(9_000_000);
    assert!(d.changed);
    assert_eq!(d.target_bps, 8_000_000);

    let mut off = AbrController::new(20_000_000, false);
    let d = off.on_report(&report(500, 500, 5), START);
    assert!(!d.changed, "disabled controller must never adapt");
}

#[test]
fn floor_is_four_megabits() {
    let mut abr = AbrController::new(20_000_000, true);
    let mut now = START;
    let mut cumulative = (0u32, 0u32);
    for _ in 0..12 {
        cumulative = (cumulative.0 + 800, cumulative.1 + 200);
        abr.on_report(&report(cumulative.0, cumulative.1, 0), now);
        now += secs(4);
    }
    assert_eq!(abr.current_bps(), 4_000_000, "must bottom out at the floor");
}

#[test]
fn keyframe_request_pressure_steps_down_one_rung() {
    let mut abr = AbrController::new(20_000_000, true);
    assert_eq!(PRESSURE_REQUESTS, 3);
    let keep = AbrDecision {
        target_bps: 15_000_000,
        changed: false,
    };
    assert_eq!(abr.on_keyframe_request(START), keep);
    assert_eq!(abr.on_keyframe_request(START + millis(500)), keep);
    assert_eq!(
        abr.on_keyframe_request(START + millis(1000)),
        AbrDecision {
            target_bps: 12_000_000,
            changed: true
        }
    );
    // Further pressure waits for the cooldown.
    for i in 0..3 {
        assert!(!abr.on_keyframe_request(START + millis(1100 + i)).changed);
    }
    let later = START + millis(1000) + DOWN_COOLDOWN;
    assert!(!abr.on_keyframe_request(later).changed);
    assert!(!abr.on_keyframe_request(later).changed);
    assert_eq!(abr.on_keyframe_request(later).target_bps, 10_000_000);
}

#[test]
fn scattered_keyframe_requests_are_no_pressure() {
    let mut abr = AbrController::new(20_000_000, true);
    for i in 0..20 {
        assert!(!abr.on_keyframe_request(START + i * (PRESSURE_WINDOW / 2)).changed);
    }
    assert_eq!(abr.current_bps(), 15_000_000);
}

#[test]
fn loss_and_requests_share_the_cooldown() {
    let mut abr = AbrController::new(20_000_000, true);
    assert!(abr.on_report(&report(850, 150, 0), START).changed);
    for _ in 0..3 {
        assert!(!abr.on_keyframe_request(START + secs(1)).changed);
    }
    assert_eq!(abr.current_bps(), 10_000_000);
    let mut off = AbrController::new(20_000_000, false);
    for _ in 0..9 {
        assert!(!off.on_keyframe_request(START).changed);
    }
    // The lowest rung has none below.
    let mut low = AbrController::new(4_000_000, true);
    for _ in 0..9 {
        assert!(!low.on_keyframe_request(START).changed);
    }
}
