//! The host side: what the machine whose screen is shown decides.
//!
//! Times are nanoseconds of one monotonic clock, which the caller reads.

pub mod autostart;
pub mod capture;
pub mod clock;
pub mod control;
pub mod discovery;
pub mod encoder;
pub mod gpu;
pub mod gui;
pub mod input;
pub mod logging;
pub mod settings;
pub mod startup;
pub mod stats;
pub mod supervisor;
pub mod transport;
pub mod vdd;
pub mod vdd_settings;
