use vpower::engine::{AcStatus, BatteryStatus, Config, DerivedState};
use vpower::publish::{ac_label, battery_label, key_file_name, PublishKey};
use vpower::telemetry::{NamingScheme, RawTelemetry, TelemetrySource, WarnLog};

#[test]
fn warn_log_reports_each_source_once() {
    let mut w = WarnLog::new();
    assert!(w.note_failure(TelemetrySource::ChargeNow));
    assert!(!w.note_failure(TelemetrySource::ChargeNow));
    // Other sources keep their own memory.
    assert!(w.note_failure(TelemetrySource::Online));
    assert!(w.note_failure(TelemetrySource::HwStatus));
    assert!(!w.note_failure(TelemetrySource::Online));
    assert!(w.note_failure(TelemetrySource::VoltageNow));
    assert!(w.note_failure(TelemetrySource::VoltageMinDesign));
    assert!(w.note_failure(TelemetrySource::ChargeFull));
    assert!(w.note_failure(TelemetrySource::RateNow));
    assert!(!w.note_failure(TelemetrySource::ChargeFull));
}

#[test]
fn naming_scheme_resolves_file_names() {
    let charge = NamingScheme::detect(true, true);
    assert_eq!(charge.charge_full_file(), "charge_full");
    assert_eq!(charge.charge_now_file(), "charge_now");
    assert_eq!(charge.rate_file(), "current_now");
    let energy = NamingScheme::detect(false, false);
    assert_eq!(energy.charge_full_file(), "energy_full");
    assert_eq!(energy.charge_now_file(), "energy_now");
    assert_eq!(energy.rate_file(), "power_now");
}

#[test]
fn labels_spell_the_published_words() {
    assert_eq!(ac_label(AcStatus::Disconnected), "Disconnected");
    assert_eq!(ac_label(AcStatus::Connected), "Connected");
    assert_eq!(ac_label(AcStatus::ConnectedSlow), "Connected slow");
    assert_eq!(ac_label(AcStatus::Unknown), "Unknown");
    assert_eq!(battery_label(BatteryStatus::Charging), "Charging");
    assert_eq!(battery_label(BatteryStatus::Discharging), "Discharging");
    assert_eq!(battery_label(BatteryStatus::Full), "Full");
}

#[test]
fn key_file_names_match_the_published_directory() {
    assert_eq!(key_file_name(PublishKey::AcStatus), "ac_status");
    assert_eq!(key_file_name(PublishKey::BatteryPercent), "battery_percent");
    assert_eq!(key_file_name(PublishKey::BatteryStatus), "battery_status");
    assert_eq!(
        key_file_name(PublishKey::SecsUntilBatteryFull),
        "secs_until_battery_full"
    );
    assert_eq!(
        key_file_name(PublishKey::SecsUntilShutdownRequest),
        "secs_until_shutdown_request"
    );
}

#[test]
fn derived_state_texts_follow_presence() {
    let d = DerivedState {
        ac_status: AcStatus::Connected,
        battery_percent: Some(91_000_000),
        battery_status: Some(BatteryStatus::Charging),
        secs_until_full: Some(3_600_000_000),
        secs_until_shutdown: None,
    };
    assert_eq!(d.ac_status_text(), "Connected");
    assert_eq!(d.battery_percent_text().unwrap(), "91");
    assert_eq!(d.battery_status_text().unwrap(), "Charging");
    assert_eq!(d.secs_until_full_text().unwrap(), "3600");
    assert!(d.secs_until_shutdown_text().is_none());
}

#[test]
fn raw_telemetry_empty_has_no_readings() {
    let t = RawTelemetry::empty();
    assert!(t.charge_full.is_none());
    assert!(t.charge_now.is_none());
    assert!(t.hw_status.is_none());
    assert!(t.pd_contract_status.is_none());
    let _ = Config::default();
}
