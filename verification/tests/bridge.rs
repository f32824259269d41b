use diseq::bridge::{
    read_observed_or_silence, read_or_silence, Bridge, Fill, LOUDEST, NO_TIME,
};
use diseq::ring::RingError;

fn bridge() -> Bridge<f32> {
    let mut bridge = Bridge::new(2, 4_096, 0.0);
    bridge.set_safety_offset(512);
    bridge
}

#[test]
fn nothing_plays_before_the_capture_side_starts() {
    let mut bridge = bridge();
    assert_eq!(bridge.position_for(1_000), Fill::Silence);
}

#[test]
fn nothing_plays_while_capture_is_stopped_even_with_audio_held() {
    let mut bridge = bridge();
    bridge.wrote_through(10_000);
    assert_eq!(bridge.position_for(1_000), Fill::Silence);
}

#[test]
fn the_first_aligned_callback_is_silent_and_the_next_one_reads() {
    let mut bridge = bridge();
    bridge.set_capturing(true);
    bridge.wrote_through(10_000);

    assert_eq!(bridge.position_for(1_000), Fill::Silence);
    // offset = 10_000 - 1_000 = 9_000; the next callback reads
    // 1_512 + 9_000 - 512.
    assert_eq!(
        bridge.position_for(1_512),
        Fill::Read {
            from: 1_512 + 9_000 - 512
        }
    );
}

#[test]
fn the_reader_trails_the_writer_by_the_safety_offset() {
    let mut bridge = bridge();
    bridge.set_capturing(true);
    bridge.wrote_through(10_000);
    bridge.position_for(1_000);

    // With both clocks stopped, the read position sits exactly one safety
    // offset behind what the writer has published.
    let Fill::Read { from } = bridge.position_for(1_000) else {
        panic!("expected a read");
    };
    assert_eq!(from, 10_000 - 512);
}

#[test]
fn a_realignment_makes_the_next_callback_take_the_offset_again() {
    let mut bridge = bridge();
    bridge.set_capturing(true);
    bridge.wrote_through(10_000);
    bridge.position_for(1_000);
    assert!(matches!(bridge.position_for(1_100), Fill::Read { .. }));

    bridge.realign();
    // The writer has moved on; the new offset has to reflect that.
    bridge.wrote_through(20_000);
    assert_eq!(bridge.position_for(2_000), Fill::Silence);
    let Fill::Read { from } = bridge.position_for(2_000) else {
        panic!("expected a read");
    };
    assert_eq!(from, 20_000 - 512);
    assert_eq!(bridge.realignments(), 1);
}

#[test]
fn the_observed_offset_is_the_safety_offset_when_the_clocks_agree() {
    let mut bridge = bridge();
    bridge.set_capturing(true);
    bridge.wrote_through(10_000);
    bridge.position_for(1_000);
    bridge.position_for(1_000);
    assert_eq!(bridge.observed_offset(), Some(512));
}

#[test]
fn a_reader_falling_behind_shows_a_growing_offset() {
    let mut bridge = bridge();
    bridge.set_capturing(true);
    bridge.wrote_through(10_000);
    bridge.position_for(1_000);

    // The writer advanced 480 frames; the reader only asked for 440.
    bridge.wrote_through(10_480);
    bridge.position_for(1_440);
    assert_eq!(bridge.observed_offset(), Some(512 + 40));
}

#[test]
fn the_offset_is_unknowable_before_alignment() {
    let mut bridge = bridge();
    assert_eq!(bridge.observed_offset(), None);
    bridge.set_capturing(true);
    bridge.wrote_through(10_000);
    assert_eq!(bridge.observed_offset(), None);
}

#[test]
fn reset_forgets_both_timelines() {
    let mut bridge = bridge();
    bridge.set_capturing(true);
    bridge.wrote_through(10_000);
    bridge.position_for(1_000);
    bridge.reset();

    assert!(!bridge.is_capturing());
    assert_eq!(bridge.input_time(), NO_TIME);
    assert_eq!(bridge.observed_offset(), None);
    assert_eq!(bridge.position_for(1_000), Fill::Silence);
}

#[test]
fn a_read_that_cannot_be_satisfied_silences_and_realigns() {
    let mut bridge = bridge();
    bridge.set_capturing(true);

    let mut left = [1.0f32; 64];
    let mut right = [1.0f32; 64];
    let mut destination: [&mut [f32]; 2] = [&mut left, &mut right];

    // Nothing was ever written, so the ring holds nothing at all. The read
    // still succeeds: it silences what it cannot fill.
    read_or_silence(&mut bridge, &mut destination, 0, 64).expect("read");
    assert!(left.iter().all(|sample| *sample == 0.0));
    assert!(right.iter().all(|sample| *sample == 0.0));
}

#[test]
fn a_read_without_bounds_silences_and_realigns() {
    let mut bridge = bridge();
    let source = [0.5f32; 64];
    bridge.write(&[&source, &source], 0, 64).expect("write");
    let before = bridge.realignments();

    let mut left = [1.0f32; 64];
    let mut right = [1.0f32; 32];
    let mut destination: [&mut [f32]; 2] = [&mut left, &mut right];
    assert_eq!(
        read_observed_or_silence(&mut bridge, None, &mut destination, 0, 48),
        Err(RingError::CpuOverload)
    );
    assert!(left[..48].iter().all(|sample| *sample == 0.0));
    assert!(left[48..].iter().all(|sample| *sample == 1.0));
    assert_eq!(right, [0.0; 32]);
    assert_eq!(bridge.realignments(), before + 1);
}

#[test]
fn a_write_reaches_the_ring_and_the_writer_s_clock() {
    let mut bridge = bridge();
    let left = [0.25f32; 16];
    let right = [0.75f32; 16];
    bridge.write(&[&left, &right], 100, 116).expect("write");
    assert_eq!(bridge.channels(), 2);
    assert_eq!(bridge.ring().valid_range().map(|(_, end)| end), Some(116));

    let mut one = [0.0f32; 16];
    let mut two = [0.0f32; 16];
    let mut destination: [&mut [f32]; 2] = [&mut one, &mut two];
    read_or_silence(&mut bridge, &mut destination, 100, 16).expect("read");
    assert_eq!(one, left);
    assert_eq!(two, right);
}

#[test]
fn the_meter_keeps_the_loudest_sample_until_it_is_read() {
    let mut bridge = bridge();
    bridge.observe_peak(0.25f32.to_bits());
    bridge.observe_peak(0.75f32.to_bits());
    bridge.observe_peak(0.5f32.to_bits());
    assert_eq!(f32::from_bits(bridge.take_peak()), 0.75);
    assert_eq!(bridge.take_peak(), 0);
    // What is not a number is no level.
    bridge.observe_peak(f32::NAN.to_bits());
    assert_eq!(bridge.take_peak(), 0);
    bridge.observe_peak(f32::INFINITY.to_bits());
    assert_eq!(bridge.take_peak(), LOUDEST);
}

#[test]
fn the_safety_offset_is_the_one_that_was_set() {
    let mut bridge = bridge();
    assert_eq!(bridge.safety_offset(), 512);
    bridge.set_safety_offset(96);
    assert_eq!(bridge.safety_offset(), 96);
}

#[test]
fn the_offset_is_held_while_the_clocks_stay_related() {
    let mut bridge = bridge();
    bridge.set_capturing(true);
    bridge.wrote_through(10_000);
    bridge.position_for(1_000);
    assert_eq!(bridge.position_for(1_100), Fill::Read { from: 9_588 });
    // However far the writer gets, the next position follows the playback clock.
    bridge.wrote_through(50_000);
    bridge.observe_peak(0.5f32.to_bits());
    assert_eq!(bridge.position_for(1_200), Fill::Read { from: 9_688 });
    assert_eq!(bridge.position_for(1_150), Fill::Read { from: 9_638 });
}

#[test]
fn a_bridge_is_read_before_zero_where_it_is_asked_to() {
    let mut bridge = bridge();
    bridge.write(&[&[1.0f32, 2.0], &[3.0f32, 4.0]], 0, 2).expect("write");
    let mut left = [9.0f32; 4];
    let mut right = [9.0f32; 4];
    let mut destination: [&mut [f32]; 2] = [&mut left, &mut right];
    read_or_silence(&mut bridge, &mut destination, -2, 4).expect("read");
    assert_eq!(left, [0.0, 0.0, 1.0, 2.0]);
    assert_eq!(right, [0.0, 0.0, 3.0, 4.0]);
}
