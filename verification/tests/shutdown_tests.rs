use vpower::engine::{secs_until_shutdown, AcStatus};
use vpower::shutdown::{ShutdownController, ShutdownPhase};

#[test]
fn controller_starts_armed() {
    let c = ShutdownController::new();
    assert_eq!(c.phase(), ShutdownPhase::Armed);
}

#[test]
fn zero_signal_triggers_armed_controller() {
    let mut c = ShutdownController::new();
    assert!(c.observe(Some(0)));
    assert_eq!(c.phase(), ShutdownPhase::Triggered);
}

#[test]
fn positive_or_absent_signal_leaves_controller_armed() {
    let mut c = ShutdownController::new();
    assert!(!c.observe(None));
    assert_eq!(c.phase(), ShutdownPhase::Armed);
    assert!(!c.observe(Some(1_000_000)));
    assert_eq!(c.phase(), ShutdownPhase::Armed);
    assert!(!c.observe(Some(3_600_000_000)));
    assert_eq!(c.phase(), ShutdownPhase::Armed);
}

#[test]
fn triggered_controller_does_not_trigger_again() {
    let mut c = ShutdownController::new();
    assert!(c.observe(Some(0)));
    // Even a second zero signal begins no second grace period.
    assert!(!c.observe(Some(0)));
    assert_eq!(c.phase(), ShutdownPhase::Triggered);
}

#[test]
fn threshold_crossing_drives_the_controller() {
    let mut c = ShutdownController::new();
    // A tick above the threshold counts down and does not trigger.
    let counting = secs_until_shutdown(
        Some(6_000_000),
        Some(5_000_000),
        Some(1_000_000),
        Some(1_000_000),
        AcStatus::Disconnected,
    );
    assert!(counting.unwrap() > 0);
    assert!(!c.observe(counting));
    // The tick that reaches the threshold unpowered triggers the grace
    // period.
    let reached = secs_until_shutdown(
        Some(5_000_000),
        Some(5_000_000),
        Some(1_000_000),
        Some(1_000_000),
        AcStatus::Disconnected,
    );
    assert_eq!(reached, Some(0));
    assert!(c.observe(reached));
    assert_eq!(c.phase(), ShutdownPhase::Triggered);
}

#[test]
fn shutdown_path_is_one_way() {
    let mut c = ShutdownController::new();
    assert!(c.observe(Some(0)));
    c.begin_shutdown();
    assert_eq!(c.phase(), ShutdownPhase::ShuttingDown);
    // Reconnecting power afterwards changes nothing.
    assert!(!c.observe(Some(1_000_000)));
    assert!(!c.observe(None));
    assert_eq!(c.phase(), ShutdownPhase::ShuttingDown);
}
