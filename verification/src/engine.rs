//! State-inference engine.
//!
//! Each tick the engine combines the normalized readings with the previous
//! tick's derived state and the configuration, and produces the published
//! signals: AC connection status, battery percentage, charge/discharge
//! status, and the two time projections. Every derivation tolerates missing
//! inputs by producing an absent result; none of them can panic.

use crate::fixed::{
    cdiv, div_ceil, div_trunc, iabs, opt128, opt64, opt_fp_ok, opt_str, tdiv, FP_MAX, SCALE,
};
use vstd::prelude::*;

verus! {

/// Whether external power is currently delivering power.
#[derive(Clone, Copy, PartialEq, Eq, Structural, Debug)]
pub enum AcStatus {
    Disconnected,
    Connected,
    /// A freshly negotiated power-delivery link still under-reporting power.
    ConnectedSlow,
    Unknown,
}

/// The charge/discharge status published for the battery.
#[derive(Clone, Copy, PartialEq, Eq, Structural, Debug)]
pub enum BatteryStatus {
    Charging,
    Discharging,
    Full,
}

/// Upper edge of the power band that marks a freshly connected link as
/// slow: 30 watts, in micro-volts times micro-amps (pico-watts).
pub const PD_SLOW_MAX_PICOWATTS: i128 = 30_000_000_000_000;

/// Percentage (in micro-percent) at or above which an idle battery is
/// reported as full: 89.5%.
pub const NEAR_FULL_PERCENT: i64 = 89_500_000;

/// Positive sentinel (in micro-seconds of projection) published while the
/// charge sits below the shutdown threshold but external power is connected.
pub const SHUTDOWN_SENTINEL: i64 = 1_000_000;

/// String equality, decided by contents.
pub fn str_eq(a: &str, b: &str) -> (r: bool)
    ensures
        r == (a@ == b@),
{
    let x: String = a.to_owned();
    let y: String = b.to_owned();
    x == y
}

/// Derived instantaneous power draw, in fixed point: `voltage_now` times the
/// current reading, or times the power-file reading when no current file
/// exists on this device. Absent when the operands are.
pub open spec fn spec_power_now(
    voltage_now: Option<int>,
    current_now: Option<int>,
    power_file: Option<int>,
) -> Option<int> {
    match voltage_now {
        Some(v) => match current_now {
            Some(c) => Some(tdiv(v * c, SCALE as int)),
            None => match power_file {
                Some(p) => Some(tdiv(v * p, SCALE as int)),
                None => None,
            },
        },
        None => None,
    }
}

/// Battery percentage in micro-percent: `charge_now / charge_full * 100`.
/// Absent when either operand is absent, when `charge_full` is zero, or when
/// the quotient leaves the representable range.
pub open spec fn spec_battery_percent(charge_now: Option<int>, charge_full: Option<int>) -> Option<
    int,
> {
    match charge_now {
        Some(cn) => match charge_full {
            Some(cf) => if cf == 0 {
                None
            } else {
                let p = tdiv(cn * (100 * SCALE as int), cf);
                if iabs(p) <= FP_MAX as int {
                    Some(p)
                } else {
                    None
                }
            },
            None => None,
        },
        None => None,
    }
}

/// The charge level at which a shutdown is requested:
/// `charge_full * shutdown_battery_percent / 100`.
pub open spec fn spec_charge_shutdown(charge_full: Option<int>, shutdown_percent: int) -> Option<
    int,
> {
    match charge_full {
        Some(cf) => Some(tdiv(cf * shutdown_percent, 100 * SCALE as int)),
        None => None,
    }
}

/// AC status, in priority order: the power-delivery contract when the sensor
/// reports one, else the binary online indicator, else the hardware status
/// string. A fresh plug-in transition (previous tick disconnected) whose
/// negotiated power lies strictly inside (0, 30) watts is reported as
/// `ConnectedSlow`.
pub open spec fn spec_ac_status(
    pdcs: Option<u8>,
    pd_voltage: Option<int>,
    pd_current: Option<int>,
    online: Option<Seq<char>>,
    hw_status: Option<Seq<char>>,
    prev_ac: Option<AcStatus>,
) -> AcStatus {
    match pdcs {
        Some(bits) => {
            let connected = bits & 0x01 != 0;
            let sink = bits & 0x10 == 0;
            if connected && sink {
                let pd_power = match pd_voltage {
                    Some(v) => match pd_current {
                        Some(c) => v * c,
                        None => 0,
                    },
                    None => 0,
                };
                if prev_ac == Some(AcStatus::Disconnected) && 0 < pd_power && pd_power
                    < PD_SLOW_MAX_PICOWATTS as int {
                    AcStatus::ConnectedSlow
                } else {
                    AcStatus::Connected
                }
            } else {
                AcStatus::Disconnected
            }
        },
        None => match online {
            Some(s) => if s == "1"@ {
                AcStatus::Connected
            } else {
                AcStatus::Disconnected
            },
            None => match hw_status {
                Some(s) => if s == "Full"@ || s == "Charging"@ {
                    AcStatus::Connected
                } else if s == "Discharging"@ {
                    AcStatus::Disconnected
                } else {
                    AcStatus::Unknown
                },
                None => AcStatus::Unknown,
            },
        },
    }
}

/// The near-full fallback: an inconclusive trend with the percentage at or
/// above [`NEAR_FULL_PERCENT`] is reported as full, else nothing is reported.
pub open spec fn spec_near_full(percent: Option<int>) -> Option<BatteryStatus> {
    let p = match percent {
        Some(p) => p,
        None => 0,
    };
    if p >= NEAR_FULL_PERCENT as int {
        Some(BatteryStatus::Full)
    } else {
        None
    }
}

/// Battery status, in priority order: the hardware string when it is
/// decisive, then the percent trend against the previous tick, then the
/// near-full fallback.
pub open spec fn spec_battery_status(
    hw_status: Option<Seq<char>>,
    ac: AcStatus,
    percent: Option<int>,
    prev_percent: Option<int>,
) -> Option<BatteryStatus> {
    if hw_status == Some("Full"@) {
        Some(BatteryStatus::Full)
    } else if hw_status == Some("Discharging"@) {
        Some(BatteryStatus::Discharging)
    } else if hw_status == Some("Charging"@) && ac == AcStatus::Connected {
        Some(BatteryStatus::Charging)
    } else {
        match percent {
            Some(p) => match prev_percent {
                Some(q) => if p > q {
                    Some(BatteryStatus::Charging)
                } else if p < q {
                    Some(BatteryStatus::Discharging)
                } else {
                    spec_near_full(percent)
                },
                None => spec_near_full(percent),
            },
            None => spec_near_full(percent),
        }
    }
}

/// Seconds (in fixed point) until the battery is full:
/// `(charge_full - charge_now) * voltage_min_design / power_now * 3600`.
/// Zero once the charge has reached capacity; absent when an operand is
/// missing, the power draw is not positive, or the projection leaves the
/// representable range.
pub open spec fn spec_secs_until_full(
    charge_full: Option<int>,
    charge_now: Option<int>,
    voltage_min_design: Option<int>,
    power_now: Option<int>,
) -> Option<int> {
    match (charge_full, charge_now, voltage_min_design, power_now) {
        (Some(cf), Some(cn), Some(vm), Some(p)) => if p <= 0 {
            None
        } else if cf <= cn {
            Some(0)
        } else {
            let secs = tdiv((cf - cn) * vm * 3600, p);
            if 0 <= secs && secs <= FP_MAX as int {
                Some(secs)
            } else {
                None
            }
        },
        _ => None,
    }
}

/// Seconds (in fixed point) until a shutdown is requested. Below or at the
/// threshold the value is discrete: zero (request now) unless external power
/// is connected, in which case a positive sentinel suppresses the request.
/// Above the threshold the projection counts down toward the threshold and
/// is rounded up, so it stays positive until the threshold is crossed.
pub open spec fn spec_secs_until_shutdown(
    charge_now: Option<int>,
    charge_shutdown: Option<int>,
    voltage_min_design: Option<int>,
    power_now: Option<int>,
    ac: AcStatus,
) -> Option<int> {
    match (charge_now, charge_shutdown) {
        (Some(cn), Some(cs)) => if cn <= cs {
            if ac == AcStatus::Connected {
                Some(SHUTDOWN_SENTINEL as int)
            } else {
                Some(0)
            }
        } else {
            match (voltage_min_design, power_now) {
                (Some(vm), Some(p)) => if p <= 0 || vm <= 0 {
                    None
                } else {
                    let secs = cdiv((cn - cs) * vm * 3600, p);
                    if secs <= FP_MAX as int {
                        Some(secs)
                    } else {
                        None
                    }
                },
                _ => None,
            }
        },
        _ => None,
    }
}

/// Computes the derived power draw. See [`spec_power_now`].
pub fn power_now(voltage_now: Option<i64>, current_now: Option<i64>, power_file: Option<i64>) -> (r:
    Option<i128>)
    requires
        opt_fp_ok(voltage_now),
        opt_fp_ok(current_now),
        opt_fp_ok(power_file),
    ensures
        opt128(r) == spec_power_now(opt64(voltage_now), opt64(current_now), opt64(power_file)),
        r matches Some(p) ==> iabs(p as int) <= FP_MAX as int * FP_MAX as int,
{
    match (voltage_now, current_now, power_file) {
        (Some(v), Some(c), _) => {
            proof {
                crate::fixed::lemma_fp_mul_bound(v as int, c as int);
            }
            let prod: i128 = (v as i128) * (c as i128);
            Some(div_trunc(prod, SCALE as i128))
        },
        (Some(v), None, Some(p)) => {
            proof {
                crate::fixed::lemma_fp_mul_bound(v as int, p as int);
            }
            let prod: i128 = (v as i128) * (p as i128);
            Some(div_trunc(prod, SCALE as i128))
        },
        _ => None,
    }
}

/// Computes the battery percentage. See [`spec_battery_percent`].
pub fn battery_percent(charge_now: Option<i64>, charge_full: Option<i64>) -> (r: Option<i64>)
    requires
        opt_fp_ok(charge_now),
        opt_fp_ok(charge_full),
    ensures
        opt64(r) == spec_battery_percent(opt64(charge_now), opt64(charge_full)),
        opt_fp_ok(r),
{
    match (charge_now, charge_full) {
        (Some(cn), Some(cf)) => {
            if cf == 0 {
                None
            } else {
                proof {
                    crate::fixed::lemma_fp_mul_bound(cn as int, 100 * SCALE as int);
                }
                let num: i128 = (cn as i128) * (100 * SCALE as i128);
                let q: i128 = div_trunc(num, cf as i128);
                if -FP_MAX as i128 <= q && q <= FP_MAX as i128 {
                    Some(q as i64)
                } else {
                    None
                }
            }
        },
        _ => None,
    }
}

/// Computes the shutdown threshold charge. See [`spec_charge_shutdown`].
pub fn charge_shutdown(charge_full: Option<i64>, shutdown_percent: i64) -> (r: Option<i64>)
    requires
        opt_fp_ok(charge_full),
        0 <= shutdown_percent <= 100 * SCALE,
    ensures
        opt64(r) == spec_charge_shutdown(opt64(charge_full), shutdown_percent as int),
        opt_fp_ok(r),
{
    match charge_full {
        Some(cf) => {
            proof {
                crate::fixed::lemma_fp_mul_bound(cf as int, shutdown_percent as int);
            }
            let num: i128 = (cf as i128) * (shutdown_percent as i128);
            let q: i128 = div_trunc(num, 100 * SCALE as i128);
            proof {
                let d: int = 100 * SCALE as int;
                assert(iabs(num as int) <= FP_MAX as int * d) by (nonlinear_arith)
                    requires
                        iabs(cf as int) <= FP_MAX as int,
                        0 <= shutdown_percent <= d,
                        num == cf as int * shutdown_percent,
                ;
                assert(iabs(num as int) / d <= FP_MAX as int) by (nonlinear_arith)
                    requires
                        iabs(num as int) <= FP_MAX as int * d,
                        d > 0,
                ;
            }
            Some(q as i64)
        },
        None => None,
    }
}

/// Computes the AC status. See [`spec_ac_status`].
pub fn ac_status(
    pdcs: Option<u8>,
    pd_voltage: Option<i64>,
    pd_current: Option<i64>,
    online: &Option<String>,
    hw_status: &Option<String>,
    prev_ac: Option<AcStatus>,
) -> (r: AcStatus)
    requires
        opt_fp_ok(pd_voltage),
        opt_fp_ok(pd_current),
    ensures
        r == spec_ac_status(
            pdcs,
            opt64(pd_voltage),
            opt64(pd_current),
            opt_str(*online),
            opt_str(*hw_status),
            prev_ac,
        ),
{
    match pdcs {
        Some(bits) => {
            let connected = bits & 0x01 != 0;
            let sink = bits & 0x10 == 0;
            if connected && sink {
                let pd_power: i128 = match (pd_voltage, pd_current) {
                    (Some(v), Some(c)) => {
                        proof {
                            crate::fixed::lemma_fp_mul_bound(v as int, c as int);
                        }
                        (v as i128) * (c as i128)
                    },
                    _ => 0,
                };
                let was_disconnected = match prev_ac {
                    Some(AcStatus::Disconnected) => true,
                    _ => false,
                };
                if was_disconnected && 0 < pd_power && pd_power < PD_SLOW_MAX_PICOWATTS {
                    AcStatus::ConnectedSlow
                } else {
                    AcStatus::Connected
                }
            } else {
                AcStatus::Disconnected
            }
        },
        None => match online {
            Some(s) => {
                if str_eq(s.as_str(), "1") {
                    AcStatus::Connected
                } else {
                    AcStatus::Disconnected
                }
            },
            None => match hw_status {
                Some(s) => {
                    if str_eq(s.as_str(), "Full") || str_eq(s.as_str(), "Charging") {
                        AcStatus::Connected
                    } else if str_eq(s.as_str(), "Discharging") {
                        AcStatus::Disconnected
                    } else {
                        AcStatus::Unknown
                    }
                },
                None => AcStatus::Unknown,
            },
        },
    }
}

/// Computes the battery status. See [`spec_battery_status`].
pub fn battery_status(
    hw_status: &Option<String>,
    ac: AcStatus,
    percent: Option<i64>,
    prev_percent: Option<i64>,
) -> (r: Option<BatteryStatus>)
    ensures
        r == spec_battery_status(opt_str(*hw_status), ac, opt64(percent), opt64(prev_percent)),
{
    let is_full = match hw_status {
        Some(s) => str_eq(s.as_str(), "Full"),
        None => false,
    };
    let is_discharging = match hw_status {
        Some(s) => str_eq(s.as_str(), "Discharging"),
        None => false,
    };
    let is_charging = match hw_status {
        Some(s) => str_eq(s.as_str(), "Charging"),
        None => false,
    };
    if is_full {
        Some(BatteryStatus::Full)
    } else if is_discharging {
        Some(BatteryStatus::Discharging)
    } else if is_charging && ac == AcStatus::Connected {
        Some(BatteryStatus::Charging)
    } else {
        match (percent, prev_percent) {
            (Some(p), Some(q)) => {
                if p > q {
                    Some(BatteryStatus::Charging)
                } else if p < q {
                    Some(BatteryStatus::Discharging)
                } else {
                    near_full(percent)
                }
            },
            _ => near_full(percent),
        }
    }
}

/// Computes the near-full fallback. See [`spec_near_full`].
fn near_full(percent: Option<i64>) -> (r: Option<BatteryStatus>)
    ensures
        r == spec_near_full(opt64(percent)),
{
    let p = match percent {
        Some(p) => p,
        None => 0,
    };
    if p >= NEAR_FULL_PERCENT {
        Some(BatteryStatus::Full)
    } else {
        None
    }
}

/// Computes the time-to-full projection. See [`spec_secs_until_full`].
pub fn secs_until_full(
    charge_full: Option<i64>,
    charge_now: Option<i64>,
    voltage_min_design: Option<i64>,
    power_now: Option<i128>,
) -> (r: Option<i64>)
    requires
        opt_fp_ok(charge_full),
        opt_fp_ok(charge_now),
        opt_fp_ok(voltage_min_design),
        power_now matches Some(p) ==> iabs(p as int) <= FP_MAX as int * FP_MAX as int,
    ensures
        opt64(r) == spec_secs_until_full(
            opt64(charge_full),
            opt64(charge_now),
            opt64(voltage_min_design),
            opt128(power_now),
        ),
        opt_fp_ok(r),
{
    match (charge_full, charge_now, voltage_min_design, power_now) {
        (Some(cf), Some(cn), Some(vm), Some(p)) => {
            if p <= 0 {
                None
            } else if cf <= cn {
                Some(0)
            } else {
                proof {
                    lemma_projection_num_bound(cf as int - cn as int, vm as int);
                }
                let delta: i128 = (cf as i128) - (cn as i128);
                let num: i128 = delta * (vm as i128) * 3600;
                let secs: i128 = div_trunc(num, p);
                if 0 <= secs && secs <= FP_MAX as i128 {
                    Some(secs as i64)
                } else {
                    None
                }
            }
        },
        _ => None,
    }
}

/// Computes the time-to-shutdown projection. See [`spec_secs_until_shutdown`].
pub fn secs_until_shutdown(
    charge_now: Option<i64>,
    charge_shutdown: Option<i64>,
    voltage_min_design: Option<i64>,
    power_now: Option<i128>,
    ac: AcStatus,
) -> (r: Option<i64>)
    requires
        opt_fp_ok(charge_now),
        opt_fp_ok(charge_shutdown),
        opt_fp_ok(voltage_min_design),
        power_now matches Some(p) ==> iabs(p as int) <= FP_MAX as int * FP_MAX as int,
    ensures
        opt64(r) == spec_secs_until_shutdown(
            opt64(charge_now),
            opt64(charge_shutdown),
            opt64(voltage_min_design),
            opt128(power_now),
            ac,
        ),
        opt_fp_ok(r),
{
    match (charge_now, charge_shutdown) {
        (Some(cn), Some(cs)) => {
            if cn <= cs {
                if ac == AcStatus::Connected {
                    Some(SHUTDOWN_SENTINEL)
                } else {
                    Some(0)
                }
            } else {
                match (voltage_min_design, power_now) {
                    (Some(vm), Some(p)) => {
                        if p <= 0 || vm <= 0 {
                            None
                        } else {
                            proof {
                                lemma_projection_num_bound(cn as int - cs as int, vm as int);
                            }
                            let delta: i128 = (cn as i128) - (cs as i128);
                            let num: i128 = delta * (vm as i128) * 3600;
                            let secs: i128 = div_ceil(num, p);
                            if secs <= FP_MAX as i128 {
                                Some(secs as i64)
                            } else {
                                None
                            }
                        }
                    },
                    _ => None,
                }
            }
        },
        _ => None,
    }
}

/// The numerator of a time projection fits well inside an `i128`.
proof fn lemma_projection_num_bound(delta: int, vm: int)
    requires
        iabs(delta) <= 2 * FP_MAX as int,
        iabs(vm) <= FP_MAX as int,
    ensures
        iabs(delta * vm * 3600) <= 2 * FP_MAX as int * FP_MAX as int * 3600,
        2 * FP_MAX as int * FP_MAX as int * 3600 < i128::MAX,
{
    assert(iabs(delta * vm) <= 2 * FP_MAX as int * FP_MAX as int) by (nonlinear_arith)
        requires
            iabs(delta) <= 2 * FP_MAX as int,
            iabs(vm) <= FP_MAX as int,
    ;
    assert(iabs(delta * vm * 3600) <= 2 * FP_MAX as int * FP_MAX as int * 3600)
        by (nonlinear_arith)
        requires
            iabs(delta * vm) <= 2 * FP_MAX as int * FP_MAX as int,
    ;
}

/// Default shutdown threshold: half a percent of capacity.
pub const DEFAULT_SHUTDOWN_BATTERY_PERCENT: i64 = 500_000;

/// Default grace period before the forced shutdown: ten seconds.
pub const DEFAULT_GRACE_PERIOD_SECS: i64 = 10_000_000;

/// Immutable process configuration, in fixed point: the battery percentage
/// at which a shutdown is requested, and the grace period the controller
/// waits before executing it.
#[derive(Clone, Copy, PartialEq, Eq, Structural, Debug)]
pub struct Config {
    pub shutdown_battery_percent: i64,
    pub shutdown_grace_period_secs: i64,
}

impl Config {
    /// The threshold is a percentage and the grace period a nonnegative
    /// representable duration.
    pub open spec fn wf(&self) -> bool {
        &&& 0 <= self.shutdown_battery_percent <= 100 * SCALE
        &&& 0 <= self.shutdown_grace_period_secs <= FP_MAX
    }

    /// Builds a configuration from loaded values, refusing out-of-range
    /// ones so that a malformed file can fall back to the defaults.
    pub fn new(shutdown_battery_percent: i64, shutdown_grace_period_secs: i64) -> (c: Option<
        Config,
    >)
        ensures
            c is Some <==> (0 <= shutdown_battery_percent <= 100 * SCALE && 0
                <= shutdown_grace_period_secs <= FP_MAX),
            c matches Some(cfg) ==> cfg.wf() && cfg.shutdown_battery_percent
                == shutdown_battery_percent && cfg.shutdown_grace_period_secs
                == shutdown_grace_period_secs,
    {
        if 0 <= shutdown_battery_percent && shutdown_battery_percent <= 100 * SCALE && 0
            <= shutdown_grace_period_secs && shutdown_grace_period_secs <= FP_MAX {
            Some(
                Config {
                    shutdown_battery_percent: shutdown_battery_percent,
                    shutdown_grace_period_secs: shutdown_grace_period_secs,
                },
            )
        } else {
            None
        }
    }
}

impl Default for Config {
    /// The documented defaults.
    fn default() -> (c: Config)
        ensures
            c.wf(),
            c.shutdown_battery_percent == DEFAULT_SHUTDOWN_BATTERY_PERCENT,
            c.shutdown_grace_period_secs == DEFAULT_GRACE_PERIOD_SECS,
    {
        Config {
            shutdown_battery_percent: DEFAULT_SHUTDOWN_BATTERY_PERCENT,
            shutdown_grace_period_secs: DEFAULT_GRACE_PERIOD_SECS,
        }
    }
}

/// What one tick hands to the next: the previous AC status and battery
/// percentage, and nothing older. Updated exactly once per tick, after the
/// derived state has been computed.
pub struct PrevTick {
    pub ac_status: Option<AcStatus>,
    pub battery_percent: Option<i64>,
}

impl PrevTick {
    /// The carried percentage lies in the fixed-point range.
    pub open spec fn wf(&self) -> bool {
        opt_fp_ok(self.battery_percent)
    }

    /// Before the first tick nothing is known.
    pub fn initial() -> (p: PrevTick)
        ensures
            p.wf(),
            p.ac_status is None,
            p.battery_percent is None,
    {
        PrevTick { ac_status: None, battery_percent: None }
    }

    /// Carries a published tick forward, replacing the previous one.
    pub fn advance(&mut self, d: &DerivedState)
        requires
            d.wf(),
        ensures
            final(self).ac_status == Some(d.ac_status),
            final(self).battery_percent == d.battery_percent,
            final(self).wf(),
    {
        self.ac_status = Some(d.ac_status);
        self.battery_percent = d.battery_percent;
    }
}

/// One tick's published signals.
pub struct DerivedState {
    pub ac_status: AcStatus,
    pub battery_percent: Option<i64>,
    pub battery_status: Option<BatteryStatus>,
    pub secs_until_full: Option<i64>,
    pub secs_until_shutdown: Option<i64>,
}

impl DerivedState {
    /// Every numeric signal lies in the fixed-point range.
    pub open spec fn wf(&self) -> bool {
        &&& opt_fp_ok(self.battery_percent)
        &&& opt_fp_ok(self.secs_until_full)
        &&& opt_fp_ok(self.secs_until_shutdown)
    }
}

/// Derives one tick's signals from the raw readings, the previous tick and
/// the configuration. Every clause ties a field to its defining spec
/// function; missing inputs surface as absent outputs, never as a failure.
pub fn derive_tick(raw: &crate::telemetry::RawTelemetry, prev: &PrevTick, config: &Config) -> (d:
    DerivedState)
    requires
        raw.wf(),
        prev.wf(),
        config.wf(),
    ensures
        d.wf(),
        d.ac_status == spec_ac_status(
            raw.pd_contract_status,
            opt64(raw.pd_voltage),
            opt64(raw.pd_current),
            opt_str(raw.online),
            opt_str(raw.hw_status),
            prev.ac_status,
        ),
        opt64(d.battery_percent) == spec_battery_percent(
            opt64(raw.charge_now),
            opt64(raw.charge_full),
        ),
        d.battery_status == spec_battery_status(
            opt_str(raw.hw_status),
            d.ac_status,
            opt64(d.battery_percent),
            opt64(prev.battery_percent),
        ),
        opt64(d.secs_until_full) == spec_secs_until_full(
            opt64(raw.charge_full),
            opt64(raw.charge_now),
            opt64(raw.voltage_min_design),
            spec_power_now(opt64(raw.voltage_now), opt64(raw.current_now), opt64(raw.power_file)),
        ),
        opt64(d.secs_until_shutdown) == spec_secs_until_shutdown(
            opt64(raw.charge_now),
            spec_charge_shutdown(opt64(raw.charge_full), config.shutdown_battery_percent as int),
            opt64(raw.voltage_min_design),
            spec_power_now(opt64(raw.voltage_now), opt64(raw.current_now), opt64(raw.power_file)),
            d.ac_status,
        ),
{
    let ac = ac_status(
        raw.pd_contract_status,
        raw.pd_voltage,
        raw.pd_current,
        &raw.online,
        &raw.hw_status,
        prev.ac_status,
    );
    let percent = battery_percent(raw.charge_now, raw.charge_full);
    let status = battery_status(&raw.hw_status, ac, percent, prev.battery_percent);
    let power = power_now(raw.voltage_now, raw.current_now, raw.power_file);
    let threshold = charge_shutdown(raw.charge_full, config.shutdown_battery_percent);
    let until_full = secs_until_full(raw.charge_full, raw.charge_now, raw.voltage_min_design, power);
    let until_shutdown = secs_until_shutdown(
        raw.charge_now,
        threshold,
        raw.voltage_min_design,
        power,
        ac,
    );
    DerivedState {
        ac_status: ac,
        battery_percent: percent,
        battery_status: status,
        secs_until_full: until_full,
        secs_until_shutdown: until_shutdown,
    }
}

/// Law: a tick on which `charge_full` or `charge_now` is missing publishes
/// no battery percentage. A non-finite reading can never reach this point
/// at all: `parse_micro` turns it into a missing one, so no not-a-number
/// value is ever published.
pub proof fn lemma_percent_absent_without_charge(charge_now: Option<int>, charge_full: Option<int>)
    requires
        charge_now is None || charge_full is None,
    ensures
        spec_battery_percent(charge_now, charge_full) is None,
{
}

/// Law: when the hardware string is not one of the three decisive words —
/// so in particular for "Unknown" and "Not charging" — the percent trend
/// against the previous tick decides: strictly rising means charging,
/// strictly falling means discharging.
pub proof fn lemma_trend_decides_status(hw: Option<Seq<char>>, ac: AcStatus, p: int, q: int)
    requires
        hw != Some("Full"@),
        hw != Some("Discharging"@),
        hw != Some("Charging"@),
    ensures
        p > q ==> spec_battery_status(hw, ac, Some(p), Some(q)) == Some(BatteryStatus::Charging),
        p < q ==> spec_battery_status(hw, ac, Some(p), Some(q)) == Some(BatteryStatus::Discharging),
{
}

/// Law: a known charge at or below the known threshold, with external power
/// not connected, makes the published time-to-shutdown exactly zero — the
/// signal the shutdown controller triggers on.
pub proof fn lemma_threshold_requests_shutdown(
    charge_now: int,
    charge_shutdown: int,
    voltage_min_design: Option<int>,
    power_now: Option<int>,
    ac: AcStatus,
)
    requires
        charge_now <= charge_shutdown,
        ac != AcStatus::Connected,
    ensures
        spec_secs_until_shutdown(
            Some(charge_now),
            Some(charge_shutdown),
            voltage_min_design,
            power_now,
            ac,
        ) == Some(0int),
{
}

/// Law: while external power is connected, a charge at or below the
/// threshold yields the positive sentinel instead — the shutdown request is
/// suppressed no matter how far below the threshold the charge sits.
pub proof fn lemma_connected_suppresses_shutdown(
    charge_now: int,
    charge_shutdown: int,
    voltage_min_design: Option<int>,
    power_now: Option<int>,
)
    requires
        charge_now <= charge_shutdown,
    ensures
        spec_secs_until_shutdown(
            Some(charge_now),
            Some(charge_shutdown),
            voltage_min_design,
            power_now,
            AcStatus::Connected,
        ) == Some(SHUTDOWN_SENTINEL as int),
        SHUTDOWN_SENTINEL > 0,
{
}

/// Law: the time-to-shutdown signal is zero exactly under the discrete
/// condition — both charge figures known, charge at or below the threshold,
/// external power not connected. Above the threshold the projection is
/// rounded up, so it can never collapse to zero and trigger early.
pub proof fn lemma_shutdown_trigger_discrete(
    charge_now: Option<int>,
    charge_shutdown: Option<int>,
    voltage_min_design: Option<int>,
    power_now: Option<int>,
    ac: AcStatus,
)
    ensures
        spec_secs_until_shutdown(charge_now, charge_shutdown, voltage_min_design, power_now, ac)
            == Some(0int) <==> {
            &&& charge_now is Some
            &&& charge_shutdown is Some
            &&& spec_below_threshold(charge_now, charge_shutdown)
            &&& ac != AcStatus::Connected
        },
{
    if charge_now is Some && charge_shutdown is Some {
        let cn = charge_now->0;
        let cs = charge_shutdown->0;
        if cn > cs {
            if voltage_min_design is Some && power_now is Some {
                let vm = voltage_min_design->0;
                let p = power_now->0;
                if p > 0 && vm > 0 {
                    let num = (cn - cs) * vm * 3600;
                    assert(num >= 3600) by (nonlinear_arith)
                        requires
                            cn - cs >= 1,
                            vm >= 1,
                            num == (cn - cs) * vm * 3600,
                    ;
                    assert((num + p - 1) / p >= 1) by (nonlinear_arith)
                        requires
                            num >= 1,
                            p >= 1,
                    ;
                    assert(cdiv(num, p) >= 1);
                }
            }
        }
    }
}

/// Law: on a sane battery — a charge level between zero and a positive
/// capacity — the published percentage lies in [0, 100].
pub proof fn lemma_percent_range(charge_now: int, charge_full: int)
    requires
        0 <= charge_now <= charge_full,
        0 < charge_full,
    ensures
        spec_battery_percent(Some(charge_now), Some(charge_full)) matches Some(p) && 0 <= p <= 100
            * SCALE,
{
    let num = charge_now * (100 * SCALE as int);
    assert(0 <= num <= charge_full * (100 * SCALE as int)) by (nonlinear_arith)
        requires
            0 <= charge_now <= charge_full,
            num == charge_now * (100 * SCALE as int),
    ;
    assert(num / charge_full <= (charge_full * (100 * SCALE as int)) / charge_full
        && (charge_full * (100 * SCALE as int)) / charge_full == 100 * SCALE as int && 0 <= num
        / charge_full) by (nonlinear_arith)
        requires
            0 < charge_full,
            0 <= num <= charge_full * (100 * SCALE as int),
    ;
}

/// Law: a published time projection is never negative: both `Some` values
/// of the two projections carry a nonnegative number of seconds.
pub proof fn lemma_projections_nonnegative(
    charge_full: Option<int>,
    charge_now: Option<int>,
    charge_shutdown: Option<int>,
    voltage_min_design: Option<int>,
    power_now: Option<int>,
    ac: AcStatus,
)
    ensures
        spec_secs_until_full(charge_full, charge_now, voltage_min_design, power_now) matches Some(
            s,
        ) ==> s >= 0,
        spec_secs_until_shutdown(
            charge_now,
            charge_shutdown,
            voltage_min_design,
            power_now,
            ac,
        ) matches Some(s) ==> s >= 0,
{
    if charge_now is Some && charge_shutdown is Some {
        let cn = charge_now->0;
        let cs = charge_shutdown->0;
        if cn > cs && voltage_min_design is Some && power_now is Some {
            let vm = voltage_min_design->0;
            let p = power_now->0;
            if p > 0 && vm > 0 {
                let num = (cn - cs) * vm * 3600;
                assert(num >= 0) by (nonlinear_arith)
                    requires
                        cn - cs >= 1,
                        vm >= 1,
                        num == (cn - cs) * vm * 3600,
                ;
                assert((num + p - 1) / p >= 0) by (nonlinear_arith)
                    requires
                        num >= 0,
                        p >= 1,
                ;
            }
        }
    }
}

/// The discrete shutdown condition: the charge is known to sit at or below
/// the known threshold.
pub open spec fn spec_below_threshold(charge_now: Option<int>, charge_shutdown: Option<int>) -> bool {
    charge_now is Some && charge_shutdown is Some && charge_now->0 <= charge_shutdown->0
}

} // verus!
