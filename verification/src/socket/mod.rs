//! Packetized message-passing to and from peripherals on different I/O media.

pub mod address_book;
pub mod orchestrator;
pub mod packet;
pub mod thread_channel;
pub mod udp;
pub mod unix;
pub mod worker;
