use audiocast::audio::decoder::{new_pcm_buffer, PcmFrame, SAMPLES_PER_FRAME};
use audiocast::audio::output::drain_into_output;
use std::collections::VecDeque;

fn frame(samples: Vec<i16>) -> PcmFrame {
    PcmFrame { samples, timestamp: 0 }
}

#[test]
fn drain_empty_queue_gives_silence() {
    let mut q: VecDeque<PcmFrame> = VecDeque::new();
    let out = drain_into_output(&mut q, 3);
    assert_eq!(out, vec![None, None, None]);
}

#[test]
fn drain_copies_frames_in_order_then_silence() {
    let mut q = VecDeque::new();
    q.push_back(frame(vec![1, 2]));
    q.push_back(frame(vec![3]));
    let out = drain_into_output(&mut q, 5);
    assert_eq!(out, vec![Some(1), Some(2), Some(3), None, None]);
    assert!(q.is_empty());
}

#[test]
fn drain_drops_rest_of_partially_used_frame() {
    let mut q = VecDeque::new();
    q.push_back(frame(vec![1, 2, 3, 4]));
    q.push_back(frame(vec![5, 6]));
    let out = drain_into_output(&mut q, 3);
    assert_eq!(out, vec![Some(1), Some(2), Some(3)]);
    assert_eq!(q.len(), 1);
    assert_eq!(q[0].samples, vec![5, 6]);
}

#[test]
fn drain_zero_slots_consumes_nothing() {
    let mut q = VecDeque::new();
    q.push_back(frame(vec![1]));
    let out = drain_into_output(&mut q, 0);
    assert!(out.is_empty());
    assert_eq!(q.len(), 1);
}

#[test]
fn drain_consumes_empty_frames() {
    let mut q = VecDeque::new();
    q.push_back(frame(vec![]));
    q.push_back(frame(vec![7]));
    let out = drain_into_output(&mut q, 1);
    assert_eq!(out, vec![Some(7)]);
    assert!(q.is_empty());
}

#[test]
fn pcm_buffer_is_one_zeroed_frame() {
    let b = new_pcm_buffer();
    assert_eq!(b.len(), SAMPLES_PER_FRAME);
    assert_eq!(b.len(), 960);
    assert!(b.iter().all(|s| *s == 0));
}

#[test]
fn frame_with_timestamp_keeps_samples() {
    let f = PcmFrame::with_timestamp(vec![1, -1], 42);
    assert_eq!(f.samples, vec![1, -1]);
    assert_eq!(f.timestamp, 42);
}
