//! Battery-telemetry inference library.
//!
//! Models the state-inference core of a 1 Hz battery daemon: normalizing raw
//! sysfs readings, deriving AC/battery status and time projections from them,
//! and driving the forced-shutdown state machine. All quantities are held in
//! signed fixed-point with six decimal places (micro-units), so the arithmetic
//! is exact and free of non-finite values by construction.

pub mod fixed;
pub mod publish;
pub mod engine;

pub mod shutdown;
pub mod telemetry;
