//! Fan-curve control and hardware profile engine for TUXEDO/Clevo laptops.
//!
//! Everything here is pure: values read from sysfs/procfs come in as plain
//! arguments, and the writes to perform go out as plain values.

pub mod profile;
pub mod text;
pub mod fan_daemon;
pub mod store;
pub mod hardware;
pub mod keyboard;
pub mod monitor;
pub mod controller;
pub mod daemon_manager;
