use pluely::{downmix_to_mono, packet_to_mono, PollResult, SampleBridge};

#[test]
fn samples_come_out_in_order() {
    let mut b = SampleBridge::new();
    assert!(!b.push_batch(&[1, 2]));
    assert!(!b.push_batch(&[3]));
    assert_eq!(b.poll_next(), PollResult::Ready(1));
    assert_eq!(b.poll_next(), PollResult::Ready(2));
    assert_eq!(b.poll_next(), PollResult::Ready(3));
}

#[test]
fn empty_poll_registers_and_push_claims_wake() {
    let mut b = SampleBridge::new();
    assert_eq!(b.poll_next(), PollResult::Pending);
    assert!(b.push_batch(&[5]));
    assert!(!b.push_batch(&[6]));
    assert_eq!(b.poll_next(), PollResult::Ready(5));
}

#[test]
fn shutdown_drains_then_finishes() {
    let mut b = SampleBridge::new();
    b.push_batch(&[9]);
    assert_eq!(b.poll_next(), PollResult::Ready(9));
    assert_eq!(b.poll_next(), PollResult::Pending);
    assert!(b.shut_down());
    assert!(b.is_shut_down());
    assert_eq!(b.poll_next(), PollResult::Finished);
    assert_eq!(b.poll_next(), PollResult::Finished);
}

#[test]
fn downmix_averages_frames() {
    assert_eq!(downmix_to_mono(&[2, 4, -3, -4, 7], 2), vec![3, -4]);
    assert_eq!(downmix_to_mono(&[32767, 32767, -32768, -32768], 2), vec![32767, -32768]);
    assert_eq!(downmix_to_mono(&[1, 2, 3], 1), vec![1, 2, 3]);
}

#[test]
fn silent_packet_becomes_zeros() {
    assert_eq!(packet_to_mono(true, 3, &[], 2), vec![0, 0, 0]);
    assert_eq!(packet_to_mono(false, 1, &[10, 20], 2), vec![15]);
}
