use diseq::format::{client_format, planar, prepared, BufferShape, BYTES_PER_SAMPLE, CHANNELS};
use diseq::ring::silence_planes;

use objc2_core_audio_types::{
    kAudioFormatFlagIsFloat, kAudioFormatFlagIsNonInterleaved, kAudioFormatFlagIsPacked,
    kAudioFormatLinearPCM,
};

#[test]
fn the_client_format_is_packed_float_planar() {
    let format = client_format(48_000.0f64.to_bits(), 2);
    assert_eq!(format.bytes_per_frame, 4);
    assert_eq!(format.bytes_per_packet, 4);
    assert_eq!(format.frames_per_packet, 1);
    assert_eq!(format.bits_per_channel, 32);
    assert_eq!(format.channels_per_frame, 2);
    assert!(format.format_flags & kAudioFormatFlagIsNonInterleaved != 0);
    assert!(format.format_flags & kAudioFormatFlagIsFloat != 0);
    assert!(format.format_flags & kAudioFormatFlagIsPacked != 0);
    assert_eq!(format.format_id, kAudioFormatLinearPCM);
    assert_eq!(f64::from_bits(format.sample_rate_bits), 48_000.0);
}

#[test]
fn the_stereo_buffer_list_lays_its_second_buffer_out_contiguously() {
    let seen = prepared(512);
    assert_eq!(seen.len(), CHANNELS);
    for buffer in seen {
        assert_eq!(buffer.bytes, 512 * 4);
        assert_eq!(buffer.channels, 1);
        assert!(!buffer.present);
    }
}

#[test]
fn planar_views_borrow_the_buffers_they_are_given() {
    let mut left = [1.0f32; 8];
    let mut right = [2.0f32; 8];
    let filled = prepared(8).map(|buffer| BufferShape { present: true, ..buffer });

    let shape = planar(&filled, 8);
    assert_eq!(shape.count, 2);
    assert_eq!(&left[..shape.frames[0]], &[1.0; 8]);
    assert_eq!(&right[..shape.frames[1]], &[2.0; 8]);

    {
        let mut planes: [&mut [f32]; 2] = [&mut left, &mut right];
        silence_planes(&mut planes, 0.0);
    }
    assert_eq!(left, [0.0; 8]);
    assert_eq!(right, [0.0; 8]);
}

#[test]
fn a_shorter_buffer_yields_a_shorter_slice() {
    let [first, second] = prepared(4);
    let buffers = [
        BufferShape { present: true, ..first },
        BufferShape { present: false, ..second },
    ];
    // Asking for more frames than the buffer holds must not walk past it.
    let shape = planar(&buffers, 64);
    assert_eq!(shape.frames[0], 4);
    assert_eq!(shape.frames[1], 0);
    assert_eq!(BYTES_PER_SAMPLE, 4);
}

#[test]
fn more_buffers_than_channels_are_left_alone() {
    let buffer = BufferShape { channels: 1, bytes: 64, present: true };
    let shape = planar(&[buffer, buffer, buffer], 4);
    assert_eq!(shape.frames, [4, 4]);
    assert_eq!(shape.count, CHANNELS);
    let nothing = planar(&[], 4);
    assert_eq!(nothing.count, 0);
}
