//! Laboratory instruments behind the peripheral protocol.

pub mod dmm_worker;
pub mod keithley_dmm6500;
pub mod packets;
pub mod protocol;
pub mod responder;
pub mod scpi;
pub mod siglent_sdg2042x;
