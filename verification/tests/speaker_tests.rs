use room_egress::mixer::MixerData;
use room_egress::speaker::SpeakerChannel;

fn chunk(sid: &str, data: Vec<i16>) -> MixerData {
    MixerData { sid: sid.to_string(), data }
}

#[test]
fn new_speaker_is_silent() {
    let mut s = SpeakerChannel::new("a".to_string());
    assert_eq!(s.sid(), "a");
    assert_eq!(s.pts(), 0);
    assert_eq!(s.next_samples(1024, 1024), None);
    assert_eq!(s.next_samples(2048, 1024), None);
    assert_eq!(s.next_samples(3072, 1024), None);
    assert_eq!(s.pts(), 3072);
}

#[test]
fn half_full_buffer_is_padded_at_the_tail() {
    let mut s = SpeakerChannel::new("a".to_string());
    s.put(chunk("a", vec![7; 512]));
    let frame = s.next_samples(1024, 1024).unwrap();
    assert_eq!(frame.len(), 1024);
    assert_eq!(&frame[..512], &vec![7i16; 512][..]);
    assert_eq!(&frame[512..], &vec![0i16; 512][..]);
    assert_eq!(s.next_samples(2048, 1024), None);
}

#[test]
fn short_buffer_keeps_order_and_pads() {
    let mut s = SpeakerChannel::new("a".to_string());
    s.put(chunk("a", vec![1, 2, 3]));
    assert_eq!(s.next_samples(8, 8), Some(vec![1, 2, 3, 0, 0, 0, 0, 0]));
}

#[test]
fn samples_leave_in_arrival_order_across_chunks() {
    let mut s = SpeakerChannel::new("a".to_string());
    s.put(chunk("a", vec![1, 2, 3]));
    s.put(chunk("a", vec![4]));
    s.put(chunk("a", vec![5, 6, 7, 8, 9]));
    assert_eq!(s.next_samples(4, 4), Some(vec![1, 2, 3, 4]));
    assert_eq!(s.next_samples(8, 4), Some(vec![5, 6, 7, 8]));
    assert_eq!(s.next_samples(12, 4), Some(vec![9, 0, 0, 0]));
    assert_eq!(s.next_samples(16, 4), None);
}

#[test]
fn a_large_chunk_feeds_several_windows() {
    let mut s = SpeakerChannel::new("a".to_string());
    s.put(chunk("a", (0..10).collect()));
    assert_eq!(s.next_samples(3, 3), Some(vec![0, 1, 2]));
    assert_eq!(s.next_samples(6, 3), Some(vec![3, 4, 5]));
    s.put(chunk("a", vec![100, 101]));
    assert_eq!(s.next_samples(9, 3), Some(vec![6, 7, 8]));
    assert_eq!(s.next_samples(12, 3), Some(vec![9, 100, 101]));
    assert_eq!(s.next_samples(15, 3), None);
}

#[test]
fn empty_chunks_hold_no_samples() {
    let mut s = SpeakerChannel::new("a".to_string());
    s.put(chunk("a", vec![]));
    assert_eq!(s.next_samples(4, 4), None);
    s.put(chunk("a", vec![]));
    s.put(chunk("a", vec![5]));
    s.put(chunk("a", vec![]));
    s.put(chunk("a", vec![6]));
    assert_eq!(s.next_samples(8, 4), Some(vec![5, 6, 0, 0]));
    assert_eq!(s.next_samples(12, 4), None);
}

#[test]
fn a_request_for_no_samples_takes_none() {
    let mut s = SpeakerChannel::new("a".to_string());
    s.put(chunk("a", vec![1, 2]));
    assert_eq!(s.next_samples(10, 0), None);
    assert_eq!(s.pts(), 10);
    assert_eq!(s.next_samples(12, 2), Some(vec![1, 2]));
}

#[test]
fn a_speaker_that_resumes_is_heard_again() {
    let mut s = SpeakerChannel::new("a".to_string());
    s.put(chunk("a", vec![1, 1]));
    assert_eq!(s.next_samples(2, 2), Some(vec![1, 1]));
    assert_eq!(s.next_samples(4, 2), None);
    s.put(chunk("a", vec![2, 2]));
    assert_eq!(s.next_samples(6, 2), Some(vec![2, 2]));
}

#[test]
fn negative_positions_are_recorded_as_given() {
    let mut s = SpeakerChannel::new("a".to_string());
    assert_eq!(s.next_samples(-5, 2), None);
    assert_eq!(s.pts(), -5);
}
