//! Peripherals: hardware, emulated hardware and instruments.

pub mod analog_i_rev_2;
pub mod calibration;
pub mod deimos_daq_rev7;
pub mod hootl;
pub mod hootl_mockup;
pub mod id;
pub mod instruments;
pub mod registry;
