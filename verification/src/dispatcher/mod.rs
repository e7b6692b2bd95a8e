//! Dispatchers send data to an outside consumer, usually a database or display.

pub mod channel_filter;
pub mod csv;
pub mod decimation;
pub mod df;
pub mod latest;
pub mod lines;
pub mod low_pass;
pub mod read_back;
pub mod reporting;
pub mod row;
pub mod row_files;
pub mod tsdb;
pub mod wire;
