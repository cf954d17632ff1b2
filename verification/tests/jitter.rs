use audiocast::audio::jitter::{JitterBuffer, JitterPacket};
use audiocast::protocol::packet::AudioPacket;

fn pkt(sequence: u32, timestamp: u64) -> AudioPacket {
    AudioPacket { sequence, timestamp, payload: vec![sequence as u8] }
}

fn ready_buffer() -> JitterBuffer {
    let mut jb = JitterBuffer::new(60);
    jb.accumulate(200);
    jb
}

#[test]
fn new_clamps_target() {
    assert_eq!(JitterBuffer::new(10).target_ms(), 60);
    assert_eq!(JitterBuffer::new(80).target_ms(), 80);
    assert_eq!(JitterBuffer::new(500).target_ms(), 120);
    let jb = JitterBuffer::new(80);
    assert_eq!(jb.current_ms(), 0);
    assert_eq!(jb.packet_count(), 0);
    assert_eq!(jb.packets_received(), 0);
    assert_eq!(jb.packets_lost(), 0);
    assert_eq!(jb.consecutive_losses(), 0);
}

#[test]
fn set_target_clamps() {
    let mut jb = JitterBuffer::new(80);
    jb.set_target_ms(59);
    assert_eq!(jb.target_ms(), 60);
    jb.set_target_ms(121);
    assert_eq!(jb.target_ms(), 120);
    jb.set_target_ms(100);
    assert_eq!(jb.target_ms(), 100);
}

#[test]
fn accumulate_caps_at_200() {
    let mut jb = JitterBuffer::new(80);
    jb.accumulate(70);
    assert_eq!(jb.current_ms(), 70);
    jb.accumulate(100);
    assert_eq!(jb.current_ms(), 170);
    jb.accumulate(100);
    assert_eq!(jb.current_ms(), 200);
    jb.accumulate(u32::MAX);
    assert_eq!(jb.current_ms(), 200);
}

#[test]
fn ready_once_target_reached() {
    let mut jb = JitterBuffer::new(80);
    jb.accumulate(70);
    assert!(!jb.is_ready());
    jb.accumulate(10);
    assert!(jb.is_ready());
}

#[test]
fn pop_before_ready_returns_none_and_keeps_packets() {
    let mut jb = JitterBuffer::new(80);
    jb.push(pkt(1, 100));
    jb.accumulate(10);
    assert!(jb.pop().is_none());
    assert_eq!(jb.packet_count(), 1);
    assert_eq!(jb.current_ms(), 10);
}

#[test]
fn pop_returns_packets_in_timestamp_order() {
    let mut jb = ready_buffer();
    jb.push(pkt(1, 300));
    jb.push(pkt(2, 100));
    jb.push(pkt(3, 200));
    let a = jb.pop().unwrap();
    let b = jb.pop().unwrap();
    let c = jb.pop().unwrap();
    assert_eq!((a.timestamp, b.timestamp, c.timestamp), (100, 200, 300));
    assert_eq!((a.sequence, b.sequence, c.sequence), (2, 3, 1));
    assert_eq!(a.payload, vec![2]);
}

#[test]
fn pop_lowers_accumulated_time_by_one_frame() {
    let mut jb = JitterBuffer::new(60);
    jb.accumulate(75);
    jb.push(pkt(1, 5));
    jb.pop().unwrap();
    assert_eq!(jb.current_ms(), 65);
}

#[test]
fn pop_hands_out_timestamp_zero_packets() {
    let mut jb = JitterBuffer::new(60);
    jb.push(AudioPacket { sequence: 1, timestamp: 0, payload: vec![1] });
    jb.push(AudioPacket { sequence: 2, timestamp: 5, payload: vec![2] });
    jb.accumulate(100);
    let p = jb.pop().unwrap();
    assert_eq!(p.sequence, 1);
    assert_eq!(p.timestamp, 0);
    assert_eq!(p.payload, vec![1]);
    assert_eq!(jb.packet_count(), 1);
    assert_eq!(jb.current_ms(), 90);
}

#[test]
fn pop_of_empty_ready_buffer_changes_nothing() {
    let mut jb = ready_buffer();
    assert!(jb.pop().is_none());
    assert_eq!(jb.packet_count(), 0);
    assert_eq!(jb.current_ms(), 200);
}

#[test]
fn equal_timestamps_leave_in_arrival_order() {
    let mut jb = ready_buffer();
    jb.push(pkt(1, 10));
    jb.push(pkt(2, 10));
    assert_eq!(jb.pop().unwrap().sequence, 1);
    assert_eq!(jb.pop().unwrap().sequence, 2);
}

#[test]
fn in_order_packets_count_no_loss() {
    let mut jb = JitterBuffer::new(80);
    for s in 0..5u32 {
        jb.push(pkt(s, 10 + s as u64));
    }
    assert_eq!(jb.packets_received(), 5);
    assert_eq!(jb.packets_lost(), 0);
    assert_eq!(jb.consecutive_losses(), 0);
    assert_eq!(jb.packet_count(), 5);
}

#[test]
fn sequence_gap_counts_losses() {
    let mut jb = JitterBuffer::new(80);
    jb.push(pkt(10, 1));
    jb.push(pkt(14, 2));
    assert_eq!(jb.packets_lost(), 3);
    assert_eq!(jb.consecutive_losses(), 3);
    jb.push(pkt(16, 3));
    assert_eq!(jb.packets_lost(), 4);
    assert_eq!(jb.consecutive_losses(), 4);
    jb.push(pkt(17, 4));
    assert_eq!(jb.packets_lost(), 4);
    assert_eq!(jb.consecutive_losses(), 0);
}

#[test]
fn first_packet_never_counts_loss() {
    let mut jb = JitterBuffer::new(80);
    jb.push(pkt(1000, 1));
    assert_eq!(jb.packets_lost(), 0);
    assert_eq!(jb.packets_received(), 1);
}

#[test]
fn sequence_wraps_around() {
    let mut jb = JitterBuffer::new(80);
    jb.push(pkt(u32::MAX, 1));
    jb.push(pkt(0, 2));
    assert_eq!(jb.packets_lost(), 0);
    jb.push(pkt(2, 3));
    assert_eq!(jb.packets_lost(), 1);
}

#[test]
fn received_plus_lost_covers_span() {
    let mut jb = JitterBuffer::new(80);
    for s in [5u32, 6, 9, 10, 15] {
        jb.push(pkt(s, s as u64));
    }
    assert_eq!(jb.packets_received() + jb.packets_lost(), 15 - 5 + 1);
}

#[test]
fn reset_consecutive_losses_clears_run() {
    let mut jb = JitterBuffer::new(80);
    jb.push(pkt(1, 1));
    jb.push(pkt(5, 2));
    assert_eq!(jb.consecutive_losses(), 3);
    jb.reset_consecutive_losses();
    assert_eq!(jb.consecutive_losses(), 0);
    assert_eq!(jb.packets_lost(), 3);
}

#[test]
fn underflow_when_empty_and_below_target() {
    let mut jb = JitterBuffer::new(80);
    assert!(jb.has_underflow());
    jb.push(pkt(1, 1));
    assert!(!jb.has_underflow());
    let mut jb2 = JitterBuffer::new(80);
    jb2.accumulate(80);
    assert!(!jb2.has_underflow());
}

#[test]
fn late_packet_after_loss_is_queued_without_loss() {
    let mut jb = JitterBuffer::new(80);
    jb.push(pkt(1, 10));
    jb.push(pkt(4, 40));
    assert_eq!(jb.packets_lost(), 2);
    assert_eq!(jb.consecutive_losses(), 2);
    assert!(jb.can_push());
    jb.push(pkt(3, 30));
    assert_eq!(jb.packets_received(), 3);
    assert_eq!(jb.packets_lost(), 2);
    assert_eq!(jb.consecutive_losses(), 2);
    assert_eq!(jb.packet_count(), 3);
    jb.push(pkt(5, 50));
    assert_eq!(jb.packets_lost(), 2);
    assert_eq!(jb.consecutive_losses(), 0);
    jb.accumulate(200);
    let order: Vec<u32> = (0..4).map(|_| jb.pop().unwrap().sequence).collect();
    assert_eq!(order, vec![1, 3, 4, 5]);
}

#[test]
fn late_packet_does_not_move_last_sequence() {
    let mut jb = JitterBuffer::new(80);
    jb.push(pkt(10, 1));
    jb.push(pkt(8, 2));
    jb.push(pkt(12, 3));
    assert_eq!(jb.packets_lost(), 1);
    assert_eq!(jb.consecutive_losses(), 1);
    assert_eq!(jb.packets_received(), 3);
}

#[test]
fn counts_follow_operation_history() {
    let mut jb = JitterBuffer::new(100);
    jb.push(pkt(1, 3));
    jb.set_target_ms(30);
    jb.push(pkt(2, 1));
    jb.accumulate(200);
    assert!(jb.pop().is_some());
    jb.reset_consecutive_losses();
    jb.push(pkt(3, 2));
    assert!(jb.pop().is_some());
    assert_eq!(jb.packets_received(), 3);
    assert_eq!(jb.packet_count(), 3 - 2);
    assert_eq!(jb.target_ms(), 60);
}

#[test]
fn jitter_packet_from_audio_packet() {
    let jp = JitterPacket::from(AudioPacket { sequence: 4, timestamp: 9, payload: vec![1, 2] });
    assert_eq!(jp.sequence, 4);
    assert_eq!(jp.timestamp, 9);
    assert_eq!(jp.payload, vec![1, 2]);
}
