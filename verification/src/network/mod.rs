pub mod mdns;
pub mod tcp;
pub mod udp;
