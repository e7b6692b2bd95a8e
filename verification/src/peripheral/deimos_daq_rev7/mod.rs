//! The seventh revision of the DAQ board.

pub mod board;
pub mod calibration_7_0_0;
