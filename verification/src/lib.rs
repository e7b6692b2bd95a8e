//! Verified logic of the Deimos realtime data acquisition and control program.

pub mod binary64;
pub mod bytes;
pub mod datetime;
pub mod dimension_names;
pub mod dispatcher;
pub mod ip_literal;
pub mod json;
pub mod math;
pub mod paths;
pub mod peripheral;
pub mod si_units;
pub mod socket;
pub mod span;
pub mod text;
pub mod units;
