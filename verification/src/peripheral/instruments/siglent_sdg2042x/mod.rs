//! Siglent SDG2042X basic-wave generator integration.
//!
//! A disabled channel is driven to 0 V DC before its output relay is opened.
//! Startup, controller loss, explicit disable, worker failure, and shutdown all
//! use this safe state.

pub mod config;
pub mod driver;
pub mod peripheral;
pub mod settings;
pub mod worker;
