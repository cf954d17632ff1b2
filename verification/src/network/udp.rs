use vstd::prelude::*;
use crate::audio::jitter::{JitterBuffer, JitterView};
use crate::protocol::packet::{parse_packet, parse_spec, HEADER_LEN};

verus! {

/// Buffered time that one received packet stands for, in milliseconds.
pub const PACKET_DURATION_MS: u32 = 10;

/// What became of a received datagram.
#[derive(Debug, Clone, Copy, PartialEq, Eq, Structural)]
pub enum DatagramOutcome {
    /// Shorter than a packet header; ignored.
    TooShort,
    /// Not a complete packet; ignored.
    Malformed,
    /// Queued in the jitter buffer, which counts one more packet of time.
    Queued,
    /// The received counter is at its maximum (2^64 - 1 packets), so the
    /// packet cannot be counted; the buffer is left unchanged.
    CounterOverflow,
}

/// Feeds one received datagram to the jitter buffer: a complete packet is
/// pushed and one packet duration is accumulated; anything else leaves the
/// buffer unchanged.
pub fn receive_datagram(jitter: &mut JitterBuffer, datagram: &[u8]) -> (r: DatagramOutcome)
    requires
        old(jitter)@.valid(),
    ensures
        final(jitter)@.valid(),
        datagram@.len() < HEADER_LEN ==> r == DatagramOutcome::TooShort && final(jitter)@ == old(
            jitter,
        )@,
        datagram@.len() >= HEADER_LEN ==> match parse_spec(datagram@) {
            None => r == DatagramOutcome::Malformed && final(jitter)@ == old(jitter)@,
            Some(p) => if old(jitter)@.push_fits() {
                &&& r == DatagramOutcome::Queued
                &&& final(jitter)@ == old(jitter)@.after_push(p).after_accumulate(
                    PACKET_DURATION_MS as nat,
                )
            } else {
                r == DatagramOutcome::CounterOverflow && final(jitter)@ == old(jitter)@
            },
        },
{
    if datagram.len() < HEADER_LEN {
        return DatagramOutcome::TooShort;
    }
    match parse_packet(datagram) {
        None => DatagramOutcome::Malformed,
        Some(packet) => {
            if !jitter.can_push() {
                return DatagramOutcome::CounterOverflow;
            }
            jitter.push(packet);
            jitter.accumulate(PACKET_DURATION_MS);
            DatagramOutcome::Queued
        },
    }
}

} // verus!
