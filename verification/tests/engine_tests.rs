use vpower::engine::{
    ac_status, battery_percent, battery_status, charge_shutdown, derive_tick, power_now,
    secs_until_full, secs_until_shutdown, AcStatus, BatteryStatus, Config, PrevTick,
    DEFAULT_GRACE_PERIOD_SECS, DEFAULT_SHUTDOWN_BATTERY_PERCENT, SHUTDOWN_SENTINEL,
};
use vpower::telemetry::RawTelemetry;

fn s(text: &str) -> Option<String> {
    Some(text.to_string())
}

#[test]
fn percent_is_ratio_times_hundred() {
    // 455 of 500 charge units is 91%.
    assert_eq!(
        battery_percent(Some(455_000_000), Some(500_000_000)),
        Some(91_000_000)
    );
    assert_eq!(
        battery_percent(Some(250_000_000), Some(1_000_000_000)),
        Some(25_000_000)
    );
}

#[test]
fn percent_absent_without_both_charges() {
    assert_eq!(battery_percent(None, Some(500_000_000)), None);
    assert_eq!(battery_percent(Some(455_000_000), None), None);
    assert_eq!(battery_percent(None, None), None);
    // A zero capacity can never divide.
    assert_eq!(battery_percent(Some(455_000_000), Some(0)), None);
}

#[test]
fn power_now_prefers_current_file() {
    // 2 V times 3 A.
    assert_eq!(
        power_now(Some(2_000_000), Some(3_000_000), None),
        Some(6_000_000)
    );
    // Falls back to the power file when no current file exists.
    assert_eq!(
        power_now(Some(2_000_000), None, Some(4_000_000)),
        Some(8_000_000)
    );
    // Without a voltage nothing can be derived.
    assert_eq!(power_now(None, Some(3_000_000), Some(4_000_000)), None);
    // Neither current nor power file: absent, not a failure.
    assert_eq!(power_now(Some(2_000_000), None, None), None);
}

#[test]
fn ac_status_pd_fresh_plug_in_is_slow_then_connected() {
    // Connected sink at 5 V, 1 A: five watts, inside the slow band.
    let pdcs = Some(0x01u8);
    let tick1 = ac_status(
        pdcs,
        Some(5_000_000),
        Some(1_000_000),
        &None,
        &None,
        Some(AcStatus::Disconnected),
    );
    assert_eq!(tick1, AcStatus::ConnectedSlow);
    // The next tick with identical readings has consumed the transition.
    let tick2 = ac_status(
        pdcs,
        Some(5_000_000),
        Some(1_000_000),
        &None,
        &None,
        Some(tick1),
    );
    assert_eq!(tick2, AcStatus::Connected);
}

#[test]
fn ac_status_pd_high_power_is_connected_at_once() {
    // 45 watts negotiated: no slow window even on a fresh plug-in.
    let r = ac_status(
        Some(0x01),
        Some(15_000_000),
        Some(3_000_000),
        &None,
        &None,
        Some(AcStatus::Disconnected),
    );
    assert_eq!(r, AcStatus::Connected);
}

#[test]
fn ac_status_pd_not_sink_or_not_connected_is_disconnected() {
    // Bit 4 set: the device is sourcing, not sinking.
    let r = ac_status(Some(0x11), Some(5_000_000), Some(1_000_000), &None, &None, None);
    assert_eq!(r, AcStatus::Disconnected);
    let r = ac_status(Some(0x00), None, None, &None, &None, None);
    assert_eq!(r, AcStatus::Disconnected);
}

#[test]
fn ac_status_online_file_fallback() {
    assert_eq!(ac_status(None, None, None, &s("1"), &None, None), AcStatus::Connected);
    assert_eq!(ac_status(None, None, None, &s("0"), &None, None), AcStatus::Disconnected);
    // Any other contents count as not online.
    assert_eq!(ac_status(None, None, None, &s("2"), &None, None), AcStatus::Disconnected);
}

#[test]
fn ac_status_hardware_string_fallback() {
    assert_eq!(ac_status(None, None, None, &None, &s("Full"), None), AcStatus::Connected);
    assert_eq!(ac_status(None, None, None, &None, &s("Charging"), None), AcStatus::Connected);
    assert_eq!(
        ac_status(None, None, None, &None, &s("Discharging"), None),
        AcStatus::Disconnected
    );
    assert_eq!(ac_status(None, None, None, &None, &s("Unknown"), None), AcStatus::Unknown);
    assert_eq!(ac_status(None, None, None, &None, &None, None), AcStatus::Unknown);
}

#[test]
fn battery_status_hardware_string_decides_first() {
    assert_eq!(
        battery_status(&s("Full"), AcStatus::Disconnected, None, None),
        Some(BatteryStatus::Full)
    );
    assert_eq!(
        battery_status(&s("Discharging"), AcStatus::Connected, None, None),
        Some(BatteryStatus::Discharging)
    );
    assert_eq!(
        battery_status(&s("Charging"), AcStatus::Connected, None, None),
        Some(BatteryStatus::Charging)
    );
    // "Charging" without derived AC power falls through to the heuristics.
    assert_eq!(battery_status(&s("Charging"), AcStatus::Unknown, None, None), None);
}

#[test]
fn battery_status_trend_heuristic() {
    // Strictly rising percent means charging.
    assert_eq!(
        battery_status(
            &s("Unknown"),
            AcStatus::Unknown,
            Some(51_000_000),
            Some(50_000_000)
        ),
        Some(BatteryStatus::Charging)
    );
    // Strictly falling percent means discharging.
    assert_eq!(
        battery_status(
            &s("Not charging"),
            AcStatus::Unknown,
            Some(49_000_000),
            Some(50_000_000)
        ),
        Some(BatteryStatus::Discharging)
    );
    // An equal percent below the near-full edge stays unpublished.
    assert_eq!(
        battery_status(
            &s("Unknown"),
            AcStatus::Unknown,
            Some(50_000_000),
            Some(50_000_000)
        ),
        None
    );
}

#[test]
fn battery_status_near_full_without_trend() {
    // 91% with no previous percent and an undecisive hardware string.
    assert_eq!(
        battery_status(&s("Not charging"), AcStatus::Unknown, Some(91_000_000), None),
        Some(BatteryStatus::Full)
    );
    // 89.5% is the edge: at it, full; just below, nothing.
    assert_eq!(
        battery_status(&s("Unknown"), AcStatus::Unknown, Some(89_500_000), None),
        Some(BatteryStatus::Full)
    );
    assert_eq!(
        battery_status(&s("Unknown"), AcStatus::Unknown, Some(89_499_999), None),
        None
    );
    // No percent at all: nothing is published.
    assert_eq!(battery_status(&s("Unknown"), AcStatus::Unknown, None, None), None);
}

#[test]
fn charge_shutdown_is_percent_of_capacity() {
    // Half a percent of 1000 charge units is 5 units.
    assert_eq!(
        charge_shutdown(Some(1_000_000_000), 500_000),
        Some(5_000_000)
    );
    assert_eq!(charge_shutdown(None, 500_000), None);
}

#[test]
fn secs_until_full_projection() {
    // One unit short of capacity at 1 V design voltage and 1 W draw:
    // one hour.
    assert_eq!(
        secs_until_full(
            Some(2_000_000),
            Some(1_000_000),
            Some(1_000_000),
            Some(1_000_000)
        ),
        Some(3_600_000_000)
    );
    // Already at capacity: zero, not a negative projection.
    assert_eq!(
        secs_until_full(
            Some(1_000_000),
            Some(2_000_000),
            Some(1_000_000),
            Some(1_000_000)
        ),
        Some(0)
    );
    // A missing operand or a non-positive power draw yields nothing.
    assert_eq!(secs_until_full(Some(2_000_000), Some(1_000_000), None, Some(1_000_000)), None);
    assert_eq!(
        secs_until_full(Some(2_000_000), Some(1_000_000), Some(1_000_000), Some(0)),
        None
    );
    assert_eq!(
        secs_until_full(Some(2_000_000), Some(1_000_000), Some(1_000_000), Some(-1_000_000)),
        None
    );
    assert_eq!(secs_until_full(Some(2_000_000), Some(1_000_000), Some(1_000_000), None), None);
}

#[test]
fn secs_until_shutdown_above_threshold_counts_down() {
    // One unit above the threshold at 1 V and 1 W: one hour.
    assert_eq!(
        secs_until_shutdown(
            Some(2_000_000),
            Some(1_000_000),
            Some(1_000_000),
            Some(1_000_000),
            AcStatus::Disconnected
        ),
        Some(3_600_000_000)
    );
    // Missing projection operands above the threshold: nothing.
    assert_eq!(
        secs_until_shutdown(
            Some(2_000_000),
            Some(1_000_000),
            None,
            Some(1_000_000),
            AcStatus::Disconnected
        ),
        None
    );
}

#[test]
fn secs_until_shutdown_at_threshold_is_zero_when_unpowered() {
    // Exactly at the threshold and disconnected: request now.
    assert_eq!(
        secs_until_shutdown(
            Some(5_000_000),
            Some(5_000_000),
            Some(1_000_000),
            Some(1_000_000),
            AcStatus::Disconnected
        ),
        Some(0)
    );
    // The below-threshold decision needs no voltage or power data.
    assert_eq!(
        secs_until_shutdown(Some(4_000_000), Some(5_000_000), None, None, AcStatus::Unknown),
        Some(0)
    );
}

#[test]
fn secs_until_shutdown_suppressed_while_connected() {
    // Connected at, and far below, the threshold: the positive sentinel.
    assert_eq!(
        secs_until_shutdown(
            Some(5_000_000),
            Some(5_000_000),
            Some(1_000_000),
            Some(1_000_000),
            AcStatus::Connected
        ),
        Some(SHUTDOWN_SENTINEL)
    );
    assert_eq!(
        secs_until_shutdown(Some(0), Some(5_000_000), None, None, AcStatus::Connected),
        Some(SHUTDOWN_SENTINEL)
    );
    assert!(SHUTDOWN_SENTINEL > 0);
    // Connected slow does not suppress the request.
    assert_eq!(
        secs_until_shutdown(Some(0), Some(5_000_000), None, None, AcStatus::ConnectedSlow),
        Some(0)
    );
}

#[test]
fn config_defaults_and_ranges() {
    let d = Config::default();
    assert_eq!(d.shutdown_battery_percent, DEFAULT_SHUTDOWN_BATTERY_PERCENT);
    assert_eq!(d.shutdown_grace_period_secs, DEFAULT_GRACE_PERIOD_SECS);
    assert!(Config::new(500_000, 10_000_000).is_some());
    assert!(Config::new(-1, 10_000_000).is_none());
    assert!(Config::new(100_000_001, 10_000_000).is_none());
    assert!(Config::new(500_000, -1).is_none());
}

#[test]
fn derive_tick_combines_the_signals() {
    let mut raw = RawTelemetry::empty();
    raw.charge_full = Some(500_000_000);
    raw.charge_now = Some(455_000_000);
    raw.voltage_now = Some(8_000_000);
    raw.current_now = Some(1_000_000);
    raw.voltage_min_design = Some(7_000_000);
    raw.hw_status = Some("Charging".to_string());
    raw.online = Some("1".to_string());
    let prev = PrevTick::initial();
    let config = Config::default();
    let d = derive_tick(&raw, &prev, &config);
    assert_eq!(d.ac_status, AcStatus::Connected);
    assert_eq!(d.battery_percent, Some(91_000_000));
    assert_eq!(d.battery_status, Some(BatteryStatus::Charging));
    // 45 charge units to capacity at 7 V design and 8 W draw.
    // hours = 45 * 7 / 8; published seconds = hours * 3600.
    assert_eq!(d.secs_until_full, Some(45 * 7 * 3600 * 1_000_000 / 8));
    assert!(d.secs_until_shutdown.unwrap() > 0);
}

#[test]
fn derive_tick_previous_state_advances() {
    let mut raw = RawTelemetry::empty();
    raw.charge_full = Some(500_000_000);
    raw.charge_now = Some(455_000_000);
    let mut prev = PrevTick::initial();
    let config = Config::default();
    let d = derive_tick(&raw, &prev, &config);
    prev.advance(&d);
    assert_eq!(prev.ac_status, Some(AcStatus::Unknown));
    assert_eq!(prev.battery_percent, Some(91_000_000));
}

#[test]
fn derive_tick_empty_telemetry_is_all_absent() {
    let raw = RawTelemetry::empty();
    let prev = PrevTick::initial();
    let config = Config::default();
    let d = derive_tick(&raw, &prev, &config);
    assert_eq!(d.ac_status, AcStatus::Unknown);
    assert_eq!(d.battery_percent, None);
    assert_eq!(d.battery_status, None);
    assert_eq!(d.secs_until_full, None);
    assert_eq!(d.secs_until_shutdown, None);
}
