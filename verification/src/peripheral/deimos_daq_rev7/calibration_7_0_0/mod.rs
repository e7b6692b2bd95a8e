//! Rev7 DAQ 7.0.0 calibration procedure.
//!
//! Collects and postprocesses manually assisted calibration runs for 4-20 mA,
//! RTD, thermocouple, and voltage inputs.

pub mod capture;
pub mod channels;
pub mod extract;
pub mod plot;
pub mod procedure;
pub mod records;
pub mod reports;
pub mod segments;
pub mod statistics;
