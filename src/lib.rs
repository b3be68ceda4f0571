//! An alarm-multiplexing time driver: a small fixed table of software alarms
//! served by one one-shot hardware countdown timer.
//!
//! The library holds the driver's decisions. It never touches hardware: every
//! operation that would program the countdown timer returns a [`command::TimerCommand`]
//! that the platform layer carries out while it still holds the critical
//! section in which the operation ran.
pub mod command;
pub mod driver;
pub mod laws;
pub mod status;
