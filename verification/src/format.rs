//! The one audio format the engine works in, and the shape in which the
//! system's buffer lists are seen.
//!
//! Everything downstream of the driver is 32-bit float, non-interleaved,
//! stereo: the same shape [`crate::ring::Ring`] stores and the same shape the
//! system's standard format uses, so no conversion happens anywhere in the
//! signal path.

use vstd::prelude::*;

verus! {

/// Channels the engine carries. Stereo: it is what the driver publishes, and
/// what every consumer path here assumes.
pub const CHANNELS: usize = 2;

/// Bytes of one sample.
pub const BYTES_PER_SAMPLE: u32 = 4;

/// The system's description of a stream.
#[derive(Clone, Copy, Debug, PartialEq, Eq, Structural)]
pub struct StreamFormat {
    /// The bits of the sample rate, a double-precision number.
    pub sample_rate_bits: u64,
    pub format_id: u32,
    pub format_flags: u32,
    pub bytes_per_packet: u32,
    pub frames_per_packet: u32,
    pub bytes_per_frame: u32,
    pub channels_per_frame: u32,
    pub bits_per_channel: u32,
}

/// `kAudioFormatLinearPCM` of `objc2_core_audio_types`: the four characters
/// `lpcm`.
#[verifier::external_body]
fn linear_pcm() -> (id: u32)
    ensures
        id == 0x6c70_636d,
{
    objc2_core_audio_types::kAudioFormatLinearPCM
}

/// `kAudioFormatFlagIsFloat` of `objc2_core_audio_types`: the first bit.
#[verifier::external_body]
fn flag_is_float() -> (flag: u32)
    ensures
        flag == 1,
{
    objc2_core_audio_types::kAudioFormatFlagIsFloat
}

/// `kAudioFormatFlagIsPacked` of `objc2_core_audio_types`: the fourth bit.
#[verifier::external_body]
fn flag_is_packed() -> (flag: u32)
    ensures
        flag == 8,
{
    objc2_core_audio_types::kAudioFormatFlagIsPacked
}

/// `kAudioFormatFlagIsNonInterleaved` of `objc2_core_audio_types`: the sixth
/// bit.
#[verifier::external_body]
fn flag_is_non_interleaved() -> (flag: u32)
    ensures
        flag == 32,
{
    objc2_core_audio_types::kAudioFormatFlagIsNonInterleaved
}

/// Float, non-interleaved, packed: one sample of four bytes, one buffer per
/// channel.
pub fn client_format(sample_rate_bits: u64, channels: u32) -> (format: StreamFormat)
    ensures
        format == (StreamFormat {
            sample_rate_bits,
            format_id: 0x6c70_636d,
            format_flags: 41,
            // The per-frame and per-packet sizes describe one channel's buffer,
            // not the whole frame.
            bytes_per_packet: 4,
            frames_per_packet: 1,
            bytes_per_frame: 4,
            channels_per_frame: channels,
            bits_per_channel: 32,
        }),
{
    let format_flags: u32 = flag_is_float() | flag_is_packed() | flag_is_non_interleaved();
    assert(1u32 | 8u32 | 32u32 == 41u32) by (bit_vector);
    StreamFormat {
        sample_rate_bits,
        format_id: linear_pcm(),
        format_flags,
        bytes_per_packet: BYTES_PER_SAMPLE,
        frames_per_packet: 1,
        bytes_per_frame: BYTES_PER_SAMPLE,
        channels_per_frame: channels,
        bits_per_channel: BYTES_PER_SAMPLE * 8,
    }
}

/// One entry of a buffer list: whether it has data at all, and how many bytes.
#[derive(Clone, Copy, Debug, PartialEq, Eq, Structural)]
pub struct BufferShape {
    pub channels: u32,
    pub bytes: u32,
    pub present: bool,
}

/// How a buffer list is borrowed as planes: the frames of each, and how many of
/// them are real.
#[derive(Clone, Copy, Debug)]
pub struct PlanarShape {
    pub frames: [usize; 2],
    pub count: usize,
}

/// The frames of `buffer` that are borrowed when `frames` are wanted: whatever
/// it actually holds, so a smaller buffer yields a shorter plane rather than a
/// read past its end.
pub open spec fn borrowed(buffer: BufferShape, frames: int) -> int {
    if !buffer.present {
        0
    } else if buffer.bytes as int / 4 < frames {
        buffer.bytes as int / 4
    } else {
        frames
    }
}

fn borrowed_frames(buffer: &BufferShape, frames: usize) -> (count: usize)
    ensures
        count == borrowed(*buffer, frames as int),
{
    if !buffer.present {
        return 0;
    }
    let available: usize = buffer.bytes as usize / 4;
    if available < frames {
        available
    } else {
        frames
    }
}

/// Which of up to [`CHANNELS`] buffers of a list are borrowed as planes, and
/// how long each is. A plane that is missing between two others is empty.
pub fn planar(buffers: &[BufferShape], frames: usize) -> (shape: PlanarShape)
    ensures
        forall|index: int|
            #![trigger shape.frames@[index]]
            0 <= index < CHANNELS ==> shape.frames@[index] == (if index < buffers@.len() {
                borrowed(buffers@[index], frames as int)
            } else {
                0
            }),
        shape.count == (if buffers@.len() > 1 && buffers@[1].present {
            2int
        } else if buffers@.len() > 0 && buffers@[0].present {
            1
        } else {
            0
        }),
{
    let mut lengths: [usize; 2] = [0, 0];
    let mut count: usize = 0;
    if buffers.len() > 0 {
        lengths[0] = borrowed_frames(&buffers[0], frames);
        if buffers[0].present {
            count = 1;
        }
    }
    if buffers.len() > 1 {
        lengths[1] = borrowed_frames(&buffers[1], frames);
        if buffers[1].present {
            count = 2;
        }
    }
    PlanarShape { frames: lengths, count }
}

/// The descriptors of a stereo list with no data yet, for the system to fill
/// in: stale values from the last render would describe a buffer that no longer
/// exists.
pub fn prepared(frames: usize) -> (buffers: [BufferShape; 2])
    requires
        frames * BYTES_PER_SAMPLE <= u32::MAX,
    ensures
        forall|index: int|
            #![trigger buffers@[index]]
            0 <= index < CHANNELS ==> buffers@[index] == (BufferShape {
                channels: 1,
                bytes: (frames * BYTES_PER_SAMPLE) as u32,
                present: false,
            }),
{
    let bytes: u32 = frames as u32 * BYTES_PER_SAMPLE;
    let buffer = BufferShape { channels: 1, bytes, present: false };
    [buffer, buffer]
}

/// What plays is 32-bit float, packed, each channel in a buffer of its own.
pub proof fn law_the_format_is_planar_float(rate: u64, channels: u32, format: StreamFormat)
    requires
        call_ensures(client_format, (rate, channels), format),
    ensures
        format.sample_rate_bits == rate,
        format.channels_per_frame == channels,
        format.format_id == 0x6c70_636du32,
        format.format_flags == 1 + 8 + 32,
        format.bits_per_channel == 32,
        format.bytes_per_frame * 8 == format.bits_per_channel,
        format.frames_per_packet == 1,
        format.bytes_per_packet == format.bytes_per_frame * format.frames_per_packet,
{
}

/// A buffer lends the frames it holds, no more than were asked for, and none
/// where it is not there. Buffers count up to the last that is there.
pub proof fn law_a_buffer_lends_what_it_holds(
    buffers: &[BufferShape],
    frames: usize,
    shape: PlanarShape,
    index: int,
)
    requires
        call_ensures(planar, (buffers, frames), shape),
        0 <= index < 2,
    ensures
        index >= buffers@.len() || !buffers@[index].present ==> shape.frames@[index] == 0,
        index < buffers@.len() && buffers@[index].present ==> {
            &&& shape.frames@[index] <= frames
            &&& shape.frames@[index] * 4 <= buffers@[index].bytes
            &&& shape.frames@[index] < frames ==> (shape.frames@[index] + 1) * 4
                > buffers@[index].bytes
        },
        shape.count <= 2,
        shape.count > index <==> exists|i: int|
            index <= i < 2 && i < buffers@.len() && (#[trigger] buffers@[i]).present,
{
    assert(shape.frames@[index] == shape.frames@[index]);
    if shape.count > index {
        assert(buffers@[shape.count - 1].present);
    }
}

/// A prepared buffer has room for exactly the frames, one channel each.
pub proof fn law_a_prepared_buffer_has_room(
    frames: usize,
    buffers: [BufferShape; 2],
    index: int,
)
    requires
        frames * 4 <= 0xFFFF_FFFF,
        call_ensures(prepared, (frames,), buffers),
        0 <= index < 2,
    ensures
        buffers@[index].channels == 1,
        buffers@[index].bytes == frames * 4,
        !buffers@[index].present,
{
    assert(buffers@[index] == buffers@[index]);
}

} // verus!
