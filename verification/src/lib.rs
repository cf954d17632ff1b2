//! Receiving side of a LAN audio relay: the UDP packet format, the jitter
//! buffer that reorders and paces packets, the draining of decoded frames
//! into the output device buffer, and the admission rules of the handshake.

pub mod app;
pub mod audio;
pub mod network;
pub mod protocol;
