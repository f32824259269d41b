//! The App Mixer: a volume fader per application.
//!
//! Every controlled application is tapped, which takes its audio out of the
//! system mix. A private aggregate device gathers the taps as inputs and the
//! destination device as its output, and one IO proc scales each tap by its
//! fader and sums them back into the destination:
//!
//! ```text
//! Spotify ─▶ tap ─▶ ×0.4 ─┐
//! Brave   ─▶ tap ─▶ ×1.0 ─┼─▶ destination
//! everything untapped ────┘
//! ```
//!
//! The destination is the DisEQ driver when a route is running, so mixed audio
//! still meets the EQ; without the driver it is the hardware directly, and the
//! mixer works on its own.

use vstd::arithmetic::div_mod::{
    lemma_div_is_ordered, lemma_div_multiples_vanish, lemma_fundamental_div_mod,
    lemma_fundamental_div_mod_converse, lemma_mod_bound,
};
use vstd::prelude::*;

use crate::devices::{copied, Device, UNITY};
use crate::lists::{lemma_total_stays, total_of};
use crate::processes::Process;
use crate::ring::silence_planes;
use crate::tap::{Tap, TapError};
use crate::text::{decimal, decimal_signed, digits, signed_digits};

verus! {

/// How many applications can have a fader at once.
///
/// Every tap is a real audio object with its own stream in the aggregate
/// device, so this is a resource limit rather than a UI one. Far more than the
/// number of applications that play audio at the same time in practice.
pub const MAX_FADERS: usize = 16;

#[derive(Clone, Copy, Debug, PartialEq, Eq, Structural)]
pub enum MixerError {
    Tap(TapError),
    /// The system refused the aggregate device.
    Aggregate(i32),
    /// The destination device publishes no UID, so it cannot be named as a
    /// sub-device.
    DestinationHasNoUid,
    /// The IO proc could not be created, or would not start.
    Io(i32),
    /// More applications than [`MAX_FADERS`].
    TooMany,
}

impl MixerError {
    pub open spec fn text(self) -> Seq<char> {
        match self {
            MixerError::Tap(error) => error.text(),
            MixerError::Aggregate(status) => {
                "the aggregate device was refused (status "@ + signed_digits(status as int)
                    + ")"@
            },
            MixerError::DestinationHasNoUid => "the destination device publishes no UID"@,
            MixerError::Io(status) => {
                "the mixer's IO proc was refused (status "@ + signed_digits(status as int)
                    + ")"@
            },
            MixerError::TooMany => {
                "at most "@ + digits(MAX_FADERS as nat) + " applications can have a fader"@
            },
        }
    }

    pub fn message(&self) -> (message: String)
        ensures
            message@ == self.text(),
    {
        match self {
            MixerError::Tap(error) => error.message(),
            MixerError::Aggregate(status) => {
                let mut message = "the aggregate device was refused (status ".to_owned();
                message.append(decimal_signed(*status as i64).as_str());
                message.append(")");
                message
            },
            MixerError::DestinationHasNoUid => "the destination device publishes no UID".to_owned(),
            MixerError::Io(status) => {
                let mut message = "the mixer's IO proc was refused (status ".to_owned();
                message.append(decimal_signed(*status as i64).as_str());
                message.append(")");
                message
            },
            MixerError::TooMany => {
                let mut message = "at most ".to_owned();
                message.append(decimal(MAX_FADERS as u64).as_str());
                message.append(" applications can have a fader");
                message
            },
        }
    }
}

impl From<TapError> for MixerError {
    fn from(error: TapError) -> (mixer_error: Self) {
        MixerError::Tap(error)
    }
}

impl vstd::std_specs::convert::FromSpecImpl<TapError> for MixerError {
    open spec fn obeys_from_spec() -> bool {
        true
    }

    open spec fn from_spec(error: TapError) -> Self {
        MixerError::Tap(error)
    }
}

/// One application's fader.
#[derive(Clone, Copy, Debug, PartialEq, Eq, Structural)]
pub struct Fader {
    /// Linear gain in millionths, not dB: the multiply is in the callback.
    pub gain: u32,
    /// Channels this tap contributes.
    pub channels: u32,
}

/// A gain brought into the range a slider can produce.
pub open spec fn slider_gain(gain: int) -> int {
    if gain < 0 {
        0
    } else if gain > UNITY {
        UNITY as int
    } else {
        gain
    }
}

impl Fader {
    /// At unity, so starting the mixer is inaudible.
    pub fn new() -> (fader: Self)
        ensures
            fader == (Fader { gain: UNITY, channels: 0 }),
    {
        Fader { gain: UNITY, channels: 0 }
    }

    pub fn gain(&self) -> (gain: u32)
        ensures
            gain == self.gain,
    {
        self.gain
    }

    pub fn set_gain(&mut self, gain: i64)
        ensures
            *final(self) == (Fader { gain: slider_gain(gain as int) as u32, ..*old(self) }),
    {
        self.gain = if gain < 0 {
            0
        } else if gain > UNITY as i64 {
            UNITY
        } else {
            gain as u32
        };
    }
}

/// What the IO proc reads.
#[derive(Debug)]
pub struct Faders {
    pub slots: Vec<Fader>,
    /// How many of `slots` correspond to a live tap. Only grows and shrinks
    /// when the mixer is rebuilt, which stops the proc first.
    pub active: usize,
    /// Which input buffer the first tap arrives in.
    ///
    /// The aggregate hands over its sub-device's input streams before its taps.
    /// A destination with no inputs, such as speakers, contributes none and the
    /// taps start at zero; an audio interface with microphone inputs
    /// contributes its own, and mixing from zero mixes the microphone instead.
    pub offset: usize,
}

impl Faders {
    pub open spec fn wf(self) -> bool {
        &&& self.slots@.len() == MAX_FADERS
        &&& self.active <= MAX_FADERS
        &&& forall|i: int| 0 <= i < MAX_FADERS ==> (#[trigger] self.slots@[i]).gain <= UNITY
    }

    pub fn new() -> (faders: Self)
        ensures
            faders.wf(),
            faders.active == 0,
            faders.offset == 0,
            forall|i: int|
                0 <= i < MAX_FADERS ==> (#[trigger] faders.slots@[i]) == (Fader {
                    gain: UNITY,
                    channels: 0,
                }),
    {
        let mut slots: Vec<Fader> = Vec::new();
        while slots.len() < MAX_FADERS
            invariant
                slots@.len() <= MAX_FADERS,
                forall|i: int|
                    0 <= i < slots@.len() ==> (#[trigger] slots@[i]) == (Fader {
                        gain: UNITY,
                        channels: 0,
                    }),
            decreases MAX_FADERS - slots@.len(),
        {
            slots.push(Fader::new());
        }
        Faders { slots, active: 0, offset: 0 }
    }
}

// --- the mix ----------------------------------------------------------------

/// One input buffer: interleaved samples, and how many channels a frame has.
pub struct Source<'a, T> {
    pub channels: u32,
    pub samples: &'a [T],
}

/// At least one channel, whatever a buffer declares.
pub open spec fn at_least_one(channels: u32) -> int {
    if channels == 0 {
        1
    } else {
        channels as int
    }
}

/// Where output channel `channel` comes from in a source of `channels`.
///
/// A mono tap feeds every output channel, and one with fewer channels than the
/// destination repeats its last.
pub open spec fn source_channel(channels: int, channel: int) -> int {
    if channels < channel + 1 {
        channels - 1
    } else {
        channel
    }
}

/// How many of the taps are mixed: those whose buffers actually arrived.
pub open spec fn mixed_taps(inputs: int, offset: int, active: int) -> int {
    let available = if inputs < offset {
        0
    } else {
        inputs - offset
    };
    if available < active {
        available
    } else {
        active
    }
}

/// How many channels of a tap are folded onto output channel `channel`, besides
/// the one it comes from: a tap with more channels than the destination has its
/// extras folded onto the last one rather than dropped.
pub open spec fn folded(channels: int, sinks: int, channel: int) -> nat {
    if channel == sinks - 1 && sinks < channels {
        (channels - sinks) as nat
    } else {
        0
    }
}

/// What one frame of a tap puts on an output channel, in order: the sample the
/// channel comes from, then those that are folded onto it.
pub open spec fn frame_parts<T>(
    samples: Seq<T>,
    start: int,
    channels: int,
    sinks: int,
    channel: int,
    gain: u32,
) -> Seq<(T, u32)> {
    Seq::new(
        1 + folded(channels, sinks, channel),
        |part: int|
            if part == 0 {
                (samples[start + source_channel(channels, channel)], gain)
            } else {
                (samples[start + sinks + part - 1], gain)
            },
    )
}

/// What one tap contributes to a frame and channel of an output of `sinks`
/// channels, with its gain: nothing where it is muted, absent or too short.
pub open spec fn contribution<'a, T>(
    fader: Fader,
    source: Option<Source<'a, T>>,
    sinks: int,
    frame: int,
    channel: int,
) -> Seq<(T, u32)> {
    match source {
        None => Seq::empty(),
        Some(source) => {
            let channels = at_least_one(source.channels);
            if fader.gain == 0 || frame >= source.samples@.len() as int / channels {
                Seq::empty()
            } else {
                frame_parts(
                    source.samples@,
                    frame * channels,
                    channels,
                    sinks,
                    channel,
                    fader.gain,
                )
            }
        },
    }
}

/// What the first `taps` taps contribute, in order.
pub open spec fn contributions<'a, T>(
    faders: Faders,
    inputs: Seq<Option<Source<'a, T>>>,
    taps: int,
    sinks: int,
    frame: int,
    channel: int,
) -> Seq<(T, u32)>
    decreases taps,
{
    if taps <= 0 {
        Seq::empty()
    } else {
        contributions(faders, inputs, taps - 1, sinks, frame, channel) + contribution(
            faders.slots@[taps - 1],
            inputs[faders.offset + taps - 1],
            sinks,
            frame,
            channel,
        )
    }
}

/// Adding `part` to `sum` can give `to`.
pub open spec fn adds<T, F: Fn(T, T, u32) -> T>(
    accumulate: F,
    sum: T,
    part: (T, u32),
    to: T,
) -> bool {
    call_ensures(accumulate, (sum, part.0, part.1), to)
}

/// Adding the parts one after the other to `from` can give `to`.
pub open spec fn summed<T, F: Fn(T, T, u32) -> T>(
    accumulate: F,
    parts: Seq<(T, u32)>,
    from: T,
    to: T,
) -> bool
    decreases parts.len(),
{
    if parts.len() == 0 {
        to == from
    } else {
        exists|so_far: T|
            summed(accumulate, parts.drop_last(), from, so_far) && #[trigger] adds(
                accumulate,
                so_far,
                parts.last(),
                to,
            )
    }
}

/// Parts can be added in two goes.
proof fn lemma_summed_on<T, F: Fn(T, T, u32) -> T>(
    accumulate: F,
    first: Seq<(T, u32)>,
    second: Seq<(T, u32)>,
    from: T,
    middle: T,
    to: T,
)
    requires
        summed(accumulate, first, from, middle),
        summed(accumulate, second, middle, to),
    ensures
        summed(accumulate, first + second, from, to),
    decreases second.len(),
{
    if second.len() == 0 {
        assert(first + second == first);
    } else {
        let so_far = choose|so_far: T|
            summed(accumulate, second.drop_last(), middle, so_far) && #[trigger] adds(
                accumulate,
                so_far,
                second.last(),
                to,
            );
        lemma_summed_on(accumulate, first, second.drop_last(), from, middle, so_far);
        assert((first + second).drop_last() == first + second.drop_last());
        assert((first + second).last() == second.last());
        assert(adds(accumulate, so_far, (first + second).last(), to));
    }
}

/// One part more is added.
proof fn lemma_summed_next<T, F: Fn(T, T, u32) -> T>(
    accumulate: F,
    parts: Seq<(T, u32)>,
    count: int,
    from: T,
    so_far: T,
    to: T,
)
    requires
        0 <= count < parts.len(),
        summed(accumulate, parts.take(count), from, so_far),
        adds(accumulate, so_far, parts[count], to),
    ensures
        summed(accumulate, parts.take(count + 1), from, to),
{
    let more = parts.take(count + 1);
    assert(more.drop_last() == parts.take(count));
    assert(more.last() == parts[count]);
    assert(adds(accumulate, so_far, more.last(), to));
}

proof fn lemma_frame_inside(frame: int, from: int, channels: int, samples: int)
    requires
        0 < channels,
        0 <= from < channels,
        0 <= frame < samples / channels,
    ensures
        0 <= frame * channels,
        frame * channels + from < samples,
{
    lemma_fundamental_div_mod(samples, channels);
    lemma_mod_bound(samples, channels);
    let frames = samples / channels;
    assert(0 <= frame * channels && frame * channels + channels <= channels * frames) by (nonlinear_arith)
        requires
            0 <= frame < frames,
            0 < channels,
    ;
}

/// The mix itself: every tap that arrived, scaled by its fader, summed into the
/// sink.
///
/// Input buffers arrive one per tap, in the order the tap list named them,
/// interleaved within each buffer; one without data is `None`. Everything is
/// summed into the first output buffer, since the destination is one device
/// with one output stream; any others are left silent rather than filled with a
/// guess. A tap with fewer channels than the destination repeats its last; one
/// with more has its extras folded onto the last output channel. `accumulate` adds a sample at a gain in millionths to a sum.
pub fn mix<'a, T: Copy, F: Fn(T, T, u32) -> T>(
    faders: &Faders,
    inputs: &[Option<Source<'a, T>>],
    sink: &mut [T],
    sink_channels: u32,
    others: &mut [&mut [T]],
    silence: T,
    accumulate: F,
)
    requires
        faders.wf(),
        forall|sum: T, sample: T, gain: u32| #[trigger]
            call_requires(accumulate, (sum, sample, gain)),
    ensures
        final(sink)@.len() == old(sink)@.len(),
        forall|position: int|
            #![trigger final(sink)@[position]]
            0 <= position < final(sink)@.len() ==> ({
                let channels = at_least_one(sink_channels);
                let frame = position / channels;
                if frame < final(sink)@.len() as int / channels {
                    summed(
                        accumulate,
                        contributions(
                            *faders,
                            inputs@,
                            mixed_taps(
                                inputs@.len() as int,
                                faders.offset as int,
                                faders.active as int,
                            ),
                            channels,
                            frame,
                            position % channels,
                        ),
                        silence,
                        final(sink)@[position],
                    )
                } else {
                    final(sink)@[position] == silence
                }
            }),
        final(others)@.len() == old(others)@.len(),
        forall|p: int|
            #![trigger final(others)@[p]]
            0 <= p < final(others)@.len() ==> final(others)@[p]@.len() == old(others)@[p]@.len()
                && final(final(others)@[p])@ == final(old(others)@[p])@,
        forall|p: int, i: int|
            #![trigger final(others)@[p]@[i]]
            0 <= p < final(others)@.len() && 0 <= i < final(others)@[p]@.len() ==> final(others)@[p]@[i] == silence,
{
    silence_planes(others, silence);
    // The buffer arrives holding whatever the last cycle left in it.
    let total: usize = sink.len();
    let mut cleared: usize = 0;
    while cleared < total
        invariant
            cleared <= total,
            sink@.len() == total,
            sink@.len() == old(sink)@.len(),
            forall|i: int| 0 <= i < cleared ==> (#[trigger] sink@[i]) == silence,
        decreases total - cleared,
    {
        sink[cleared] = silence;
        cleared += 1;
    }
    let channels: usize = if sink_channels == 0 {
        1
    } else {
        sink_channels as usize
    };
    let sink_frames: usize = total / channels;
    let available: usize = if inputs.len() < faders.offset {
        0
    } else {
        inputs.len() - faders.offset
    };
    let taps: usize = if available < faders.active {
        available
    } else {
        faders.active
    };
    let mut index: usize = 0;
    while index < taps
        invariant
            index <= taps,
            faders.wf(),
            taps <= MAX_FADERS,
            faders.offset + taps <= inputs@.len() || taps == 0,
            channels == at_least_one(sink_channels),
            sink@.len() == total,
            sink@.len() == old(sink)@.len(),
            sink_frames == total as int / channels as int,
            forall|sum: T, sample: T, gain: u32| #[trigger]
                call_requires(accumulate, (sum, sample, gain)),
            forall|position: int|
                #![trigger sink@[position]]
                0 <= position < total ==> if (position / channels as int) < sink_frames {
                    summed(
                        accumulate,
                        contributions(
                            *faders,
                            inputs@,
                            index as int,
                            channels as int,
                            position / channels as int,
                            position % channels as int,
                        ),
                        silence,
                        sink@[position],
                    )
                } else {
                    sink@[position] == silence
                },
        decreases taps - index,
    {
        mix_one(
            faders,
            inputs,
            index,
            sink,
            channels,
            silence,
            &accumulate,
        );
        index += 1;
    }
}

/// `after` is what adding one tap to position `i` of the sink can give.
spec fn sample_added<'a, T, F: Fn(T, T, u32) -> T>(
    accumulate: F,
    fader: Fader,
    source: Option<Source<'a, T>>,
    channels: int,
    before: Seq<T>,
    i: int,
    after: T,
) -> bool {
    summed(
        accumulate,
        contribution(fader, source, channels, i / channels, i % channels),
        before[i],
        after,
    )
}

/// One tap was added to the first samples of the sink.
spec fn added<'a, T, F: Fn(T, T, u32) -> T>(
    accumulate: F,
    fader: Fader,
    source: Option<Source<'a, T>>,
    channels: int,
    before: Seq<T>,
    after: Seq<T>,
) -> bool {
    forall|i: int|
        #![trigger after[i]]
        0 <= i < after.len() ==> sample_added(
            accumulate,
            fader,
            source,
            channels,
            before,
            i,
            after[i],
        )
}

/// Adds one frame of a tap to one channel of the output. `start` is where the
/// frame begins.
fn add_frame<T: Copy, F: Fn(T, T, u32) -> T>(
    samples: &[T],
    start: usize,
    channels: usize,
    sinks: usize,
    channel: usize,
    gain: u32,
    from: T,
    accumulate: &F,
) -> (to: T)
    requires
        0 < channels,
        channel < sinks,
        start + channels <= samples@.len(),
        forall|sum: T, sample: T, gain: u32| #[trigger]
            call_requires(*accumulate, (sum, sample, gain)),
    ensures
        summed(
            *accumulate,
            frame_parts(
                samples@,
                start as int,
                channels as int,
                sinks as int,
                channel as int,
                gain,
            ),
            from,
            to,
        ),
{
    let ghost parts = frame_parts(
        samples@,
        start as int,
        channels as int,
        sinks as int,
        channel as int,
        gain,
    );
    let length: usize = samples.len();
    let source: usize = if channels - 1 < channel {
        channels - 1
    } else {
        channel
    };
    let sample: T = samples[start + source];
    let mut sum: T = (*accumulate)(from, sample, gain);
    proof {
        assert(parts.take(0) =~= Seq::<(T, u32)>::empty());
        assert(parts[0] == (sample, gain));
        assert(adds(*accumulate, from, parts[0], sum));
        lemma_summed_next(*accumulate, parts, 0, from, from, sum);
    }
    if channel == sinks - 1 {
        let mut extra: usize = sinks;
        while extra < channels
            invariant
                0 < channels,
                channel == sinks - 1,
                sinks <= extra,
                extra <= channels || extra == sinks,
                length == samples@.len(),
                start + channels <= length,
                parts == frame_parts(
                    samples@,
                    start as int,
                    channels as int,
                    sinks as int,
                    channel as int,
                    gain,
                ),
                forall|sum: T, sample: T, gain: u32| #[trigger]
                    call_requires(*accumulate, (sum, sample, gain)),
                summed(*accumulate, parts.take(1 + extra - sinks), from, sum),
            decreases channels - extra,
        {
            let sample: T = samples[start + extra];
            let so_far: T = sum;
            sum = (*accumulate)(so_far, sample, gain);
            proof {
                let count = 1 + extra - sinks;
                assert(parts[count] == (sample, gain));
                assert(adds(*accumulate, so_far, parts[count], sum));
                lemma_summed_next(*accumulate, parts, count, from, so_far, sum);
            }
            extra += 1;
        }
        assert(parts.take(1 + extra - sinks) == parts);
    } else {
        assert(parts.take(1) == parts);
    }
    sum
}

/// Adds tap `index` to the sink.
fn mix_one<'a, T: Copy, F: Fn(T, T, u32) -> T>(
    faders: &Faders,
    inputs: &[Option<Source<'a, T>>],
    index: usize,
    sink: &mut [T],
    channels: usize,
    silence: T,
    accumulate: &F,
)
    requires
        faders.wf(),
        index < MAX_FADERS,
        faders.offset + index < inputs@.len(),
        0 < channels,
        forall|sum: T, sample: T, gain: u32| #[trigger]
            call_requires(*accumulate, (sum, sample, gain)),
        forall|position: int|
            #![trigger old(sink)@[position]]
            0 <= position < old(sink)@.len() ==> if (position / channels as int) < old(sink)@.len() as int / channels as int {
                summed(
                    *accumulate,
                    contributions(
                        *faders,
                        inputs@,
                        index as int,
                        channels as int,
                        position / channels as int,
                        position % channels as int,
                    ),
                    silence,
                    old(sink)@[position],
                )
            } else {
                old(sink)@[position] == silence
            },
    ensures
        final(sink)@.len() == old(sink)@.len(),
        forall|position: int|
            #![trigger final(sink)@[position]]
            0 <= position < final(sink)@.len() ==> if (position / channels as int) < final(sink)@.len() as int / channels as int {
                summed(
                    *accumulate,
                    contributions(
                        *faders,
                        inputs@,
                        index + 1,
                        channels as int,
                        position / channels as int,
                        position % channels as int,
                    ),
                    silence,
                    final(sink)@[position],
                )
            } else {
                final(sink)@[position] == silence
            },
{
    let gain: u32 = faders.slots[index].gain();
    // A muted application costs nothing beyond staying tapped.
    if gain == 0 {
        return ;
    }
    let arrived: usize = inputs.len();
    assert(faders.offset + index < arrived);
    let source: &Source<'a, T> = match &inputs[faders.offset + index] {
        Some(source) => source,
        None => {
            return ;
        },
    };
    let source_channels: usize = if source.channels == 0 {
        1
    } else {
        source.channels as usize
    };
    let source_samples: usize = source.samples.len();
    let source_frames: usize = source_samples / source_channels;
    let total: usize = sink.len();
    let sink_frames: usize = total / channels;
    let frames: usize = if sink_frames < source_frames {
        sink_frames
    } else {
        source_frames
    };
    proof {
        lemma_fundamental_div_mod(total as int, channels as int);
        lemma_mod_bound(total as int, channels as int);
        assert(0 <= frames * channels <= channels * sink_frames) by (nonlinear_arith)
            requires
                0 <= frames <= sink_frames,
                0 < channels,
        ;
    }
    let end: usize = frames * channels;
    let ghost before = sink@;
    let mut position: usize = 0;
    while position < end
        invariant
            position <= end <= total,
            end == frames * channels,
            faders.wf(),
            index < MAX_FADERS,
            faders.offset + index < inputs@.len(),
            0 < channels,
            gain == faders.slots@[index as int].gain,
            gain != 0,
            inputs@[faders.offset + index] == Some(*source),
            source_channels == at_least_one(source.channels),
            source_samples == source.samples@.len(),
            source_frames == source_samples as int / source_channels as int,
            sink_frames == total as int / channels as int,
            frames == (if sink_frames < source_frames {
                sink_frames
            } else {
                source_frames
            }),
            before.len() == total,
            sink@.len() == total,
            forall|sum: T, sample: T, gain: u32| #[trigger]
                call_requires(*accumulate, (sum, sample, gain)),
            forall|i: int| position <= i < total ==> (#[trigger] sink@[i]) == before[i],
            added(
                *accumulate,
                faders.slots@[index as int],
                inputs@[faders.offset + index],
                channels as int,
                before,
                sink@.take(position as int),
            ),
        decreases end - position,
    {
        let frame: usize = position / channels;
        let channel: usize = position % channels;
        proof {
            lemma_position_frames(position as int, channels as int, frames as int);
            lemma_frame_inside(
                frame as int,
                source_channels - 1,
                source_channels as int,
                source.samples@.len() as int,
            );
        }
        let value: T = add_frame(
            source.samples,
            frame * source_channels,
            source_channels,
            channels,
            channel,
            gain,
            sink[position],
            accumulate,
        );
        proof {
            assert(sink@[position as int] == before[position as int]);
            assert(sample_added(
                *accumulate,
                faders.slots@[index as int],
                inputs@[faders.offset + index],
                channels as int,
                before,
                position as int,
                value,
            ));
        }
        let ghost earlier = sink@;
        sink[position] = value;
        position += 1;
        proof {
            let done = sink@.take(position as int);
            assert forall|i: int|
                #![trigger done[i]]
                0 <= i < done.len() implies sample_added(
                *accumulate,
                faders.slots@[index as int],
                inputs@[faders.offset + index],
                channels as int,
                before,
                i,
                done[i],
            ) by {
                if i < position - 1 {
                    assert(done[i] == earlier.take(position - 1)[i]);
                }
            }
        }
    }
    proof {
        assert forall|i: int|
            #![trigger sink@[i]]
            0 <= i < total implies if (i / channels as int) < sink_frames {
            summed(
                *accumulate,
                contributions(
                    *faders,
                    inputs@,
                    index + 1,
                    channels as int,
                    i / channels as int,
                    i % channels as int,
                ),
                silence,
                sink@[i],
            )
        } else {
            sink@[i] == silence
        } by {
            let frame = i / channels as int;
            let channel = i % channels as int;
            lemma_position_frames(i, channels as int, frames as int);
            assert(before[i] == old(sink)@[i]);
            let so_far = contributions(
                *faders,
                inputs@,
                index as int,
                channels as int,
                frame,
                channel,
            );
            let part = contribution(
                faders.slots@[index as int],
                inputs@[faders.offset + index],
                channels as int,
                frame,
                channel,
            );
            if i < end {
                assert(sink@[i] == sink@.take(end as int)[i]);
                lemma_summed_on(*accumulate, so_far, part, silence, before[i], sink@[i]);
            } else {
                if frame < sink_frames {
                    assert(frame >= source_frames);
                    assert(so_far + part == so_far);
                }
                assert(sink@[i] == before[i]);
            }
        }
    }
}

/// A position lies in the first `frames` frames exactly when its frame does.
proof fn lemma_position_frames(position: int, channels: int, frames: int)
    requires
        0 < channels,
        0 <= position,
        0 <= frames,
    ensures
        (position < frames * channels) == (position / channels < frames),
        0 <= position % channels < channels,
        0 <= position / channels,
{
    lemma_fundamental_div_mod(position, channels);
    lemma_mod_bound(position, channels);
    let quotient = position / channels;
    assert(quotient >= 0 && (position < frames * channels) == (quotient < frames)) by (nonlinear_arith)
        requires
            position == channels * quotient + position % channels,
            0 <= position % channels < channels,
            0 <= position,
            0 < channels,
            0 <= frames,
    ;
}

/// A muted application is not heard at all.
pub proof fn law_a_muted_application_contributes_nothing<'a, T>(
    fader: Fader,
    source: Option<Source<'a, T>>,
    sinks: int,
    frame: int,
    channel: int,
)
    requires
        fader.gain == 0,
    ensures
        contribution(fader, source, sinks, frame, channel) == Seq::<(T, u32)>::empty(),
{
}

/// What the destination itself picks up, in the buffers before the taps, is
/// never mixed: a microphone is not heard, whatever it delivers.
pub proof fn law_inputs_before_the_taps_are_never_heard<'a, T>(
    faders: Faders,
    inputs: Seq<Option<Source<'a, T>>>,
    others: Seq<Option<Source<'a, T>>>,
    taps: int,
    sinks: int,
    frame: int,
    channel: int,
)
    requires
        forall|i: int| faders.offset <= i ==> (#[trigger] inputs[i]) == others[i],
    ensures
        contributions(faders, inputs, taps, sinks, frame, channel) == contributions(
            faders,
            others,
            taps,
            sinks,
            frame,
            channel,
        ),
    decreases taps,
{
    if taps > 0 {
        law_inputs_before_the_taps_are_never_heard(
            faders,
            inputs,
            others,
            taps - 1,
            sinks,
            frame,
            channel,
        );
        assert(inputs[faders.offset + taps - 1] == others[faders.offset + taps - 1]);
    }
}

/// No channel of a tap is lost: each is heard on some channel of the output,
/// and one the output has is heard on that channel.
pub proof fn law_every_channel_of_a_tap_is_heard<'a, T>(
    fader: Fader,
    source: Source<'a, T>,
    sinks: int,
    frame: int,
    from: int,
)
    requires
        0 < sinks,
        fader.gain != 0,
        0 <= frame < source.samples@.len() as int / at_least_one(source.channels),
        0 <= from < at_least_one(source.channels),
    ensures
        contribution(
            fader,
            Some(source),
            sinks,
            frame,
            if from < sinks {
                from
            } else {
                sinks - 1
            },
        ).contains(
            (source.samples@[frame * at_least_one(source.channels) + from], fader.gain),
        ),
{
    let channel = if from < sinks {
        from
    } else {
        sinks - 1
    };
    let parts = contribution(fader, Some(source), sinks, frame, channel);
    let at = if from < sinks {
        0
    } else {
        from - sinks + 1
    };
    assert(parts[at] == (
        source.samples@[frame * at_least_one(source.channels) + from],
        fader.gain,
    ));
}

/// Channel `from` of a tap of `channels` is heard on channel `channel` of an
/// output of `sinks`: on its own channel, on the last one where the output has
/// no such channel, and on every channel that the tap has none for where it is
/// the tap's last.
pub open spec fn lands_on(from: int, channels: int, sinks: int, channel: int) -> bool {
    ||| from == channel
    ||| channel < from && channel == sinks - 1
    ||| from < channel && from == channels - 1
}

/// How loud one tap is at a frame and channel of an output, where `weigh` is how
/// loud a sample is at a gain.
pub open spec fn loudness<'a, T>(
    gain: u32,
    source: Option<Source<'a, T>>,
    sinks: int,
    frame: int,
    channel: int,
    weigh: spec_fn(T, u32) -> int,
) -> int {
    match source {
        None => 0,
        Some(source) => {
            let channels = if source.channels == 0 {
                1
            } else {
                source.channels as int
            };
            if gain == 0 || source.samples@.len() < frame * channels + channels {
                0
            } else {
                total_of(
                    channels,
                    |from: int|
                        if lands_on(from, channels, sinks, channel) {
                            weigh(source.samples@[frame * channels + from], gain)
                        } else {
                            0
                        },
                )
            }
        },
    }
}

/// Every application is heard, each at its own fader and none twice: where
/// adding a sample at a gain adds what `weigh` says of it, a channel of a frame
/// comes to the sum over all active taps whose buffers arrived.
pub proof fn law_every_application_is_heard<'a, T: Copy, F: Fn(T, T, u32) -> T>(
    faders: Faders,
    inputs: &[Option<Source<'a, T>>],
    sink: &mut [T],
    sink_channels: u32,
    others: &mut [&mut [T]],
    silence: T,
    accumulate: F,
    value: spec_fn(T) -> int,
    weigh: spec_fn(T, u32) -> int,
    frame: int,
    channel: int,
)
    requires
        faders.wf(),
        call_ensures(
            mix::<T, F>,
            (&faders, inputs, sink, sink_channels, others, silence, accumulate),
            (),
        ),
        forall|sum: T, sample: T, gain: u32, to: T| #[trigger]
            call_ensures(accumulate, (sum, sample, gain), to) ==> value(to) == value(sum) + weigh(
                sample,
                gain,
            ),
        0 <= channel < sink_channels,
        0 <= frame,
        frame * sink_channels + sink_channels <= old(sink)@.len(),
    ensures
        value(final(sink)@[frame * sink_channels + channel]) == value(silence) + total_of(
            faders.active as int,
            |tap: int|
                if faders.offset + tap < inputs@.len() {
                    loudness(
                        faders.slots@[tap].gain,
                        inputs@[faders.offset + tap],
                        sink_channels as int,
                        frame,
                        channel,
                        weigh,
                    )
                } else {
                    0
                },
        ),
{
    let sinks = sink_channels as int;
    let position = frame * sinks + channel;
    assert(0 <= position && position < final(sink)@.len() && position / sinks == frame && position
        % sinks == channel) by {
        lemma_fundamental_div_mod_converse(position, sinks, frame, channel);
        assert(0 <= frame * sinks) by (nonlinear_arith)
            requires
                0 <= frame,
                0 < sinks,
        ;
    }
    assert(frame < final(sink)@.len() as int / sinks) by {
        lemma_div_is_ordered(frame * sinks + sinks, final(sink)@.len() as int, sinks);
        lemma_div_multiples_vanish(frame + 1, sinks);
        assert(sinks * (frame + 1) == frame * sinks + sinks) by (nonlinear_arith);
    }
    let taps = mixed_taps(inputs@.len() as int, faders.offset as int, faders.active as int);
    let parts = contributions(faders, inputs@, taps, sinks, frame, channel);
    let term = |tap: int|
        if faders.offset + tap < inputs@.len() {
            loudness(
                faders.slots@[tap].gain,
                inputs@[faders.offset + tap],
                sinks,
                frame,
                channel,
                weigh,
            )
        } else {
            0
        };
    assert(summed(accumulate, parts, silence, final(sink)@[position]));
    lemma_summed_value(accumulate, value, weigh, parts, silence, final(sink)@[position]);
    lemma_contributions_weigh(faders, inputs@, taps, sinks, frame, channel, weigh, term);
    lemma_total_stays(taps, faders.active as int, term);
}

/// What some parts weigh together.
spec fn weight<T>(parts: Seq<(T, u32)>, weigh: spec_fn(T, u32) -> int) -> int {
    total_of(parts.len() as int, |i: int| weigh(parts[i].0, parts[i].1))
}

proof fn lemma_weight_prefix<T>(
    parts: Seq<(T, u32)>,
    other: Seq<(T, u32)>,
    count: int,
    weigh: spec_fn(T, u32) -> int,
)
    requires
        0 <= count <= parts.len(),
        count <= other.len(),
        forall|i: int| 0 <= i < count ==> #[trigger] parts[i] == other[i],
    ensures
        total_of(count, |i: int| weigh(parts[i].0, parts[i].1)) == total_of(
            count,
            |i: int| weigh(other[i].0, other[i].1),
        ),
    decreases count,
{
    if count > 0 {
        lemma_weight_prefix(parts, other, count - 1, weigh);
        assert(parts[count - 1] == other[count - 1]);
    }
}

proof fn lemma_weight_add<T>(
    first: Seq<(T, u32)>,
    second: Seq<(T, u32)>,
    weigh: spec_fn(T, u32) -> int,
)
    ensures
        weight(first + second, weigh) == weight(first, weigh) + weight(second, weigh),
    decreases second.len(),
{
    if second.len() == 0 {
        assert(first + second == first);
    } else {
        let shorter = second.drop_last();
        lemma_weight_add(first, shorter, weigh);
        lemma_weight_prefix(
            first + second,
            first + shorter,
            (first + shorter).len() as int,
            weigh,
        );
        lemma_weight_prefix(second, shorter, shorter.len() as int, weigh);
    }
}

proof fn lemma_summed_value<T, F: Fn(T, T, u32) -> T>(
    accumulate: F,
    value: spec_fn(T) -> int,
    weigh: spec_fn(T, u32) -> int,
    parts: Seq<(T, u32)>,
    from: T,
    to: T,
)
    requires
        summed(accumulate, parts, from, to),
        forall|sum: T, sample: T, gain: u32, to: T| #[trigger]
            call_ensures(accumulate, (sum, sample, gain), to) ==> value(to) == value(sum) + weigh(
                sample,
                gain,
            ),
    ensures
        value(to) == value(from) + weight(parts, weigh),
    decreases parts.len(),
{
    if parts.len() > 0 {
        let so_far = choose|so_far: T|
            summed(accumulate, parts.drop_last(), from, so_far) && #[trigger] adds(
                accumulate,
                so_far,
                parts.last(),
                to,
            );
        lemma_summed_value(accumulate, value, weigh, parts.drop_last(), from, so_far);
        lemma_weight_prefix(parts, parts.drop_last(), parts.len() - 1, weigh);
    }
}

/// The first `count` channels of a tap weigh what the parts they make up do.
proof fn lemma_frame_weighs<T>(
    samples: Seq<T>,
    start: int,
    channels: int,
    sinks: int,
    channel: int,
    gain: u32,
    weigh: spec_fn(T, u32) -> int,
    term: spec_fn(int) -> int,
    count: int,
)
    requires
        0 < channels,
        0 <= channel < sinks,
        0 <= count <= channels,
        forall|from: int|
            0 <= from < channels ==> #[trigger] term(from) == (if lands_on(
                from,
                channels,
                sinks,
                channel,
            ) {
                weigh(samples[start + from], gain)
            } else {
                0
            }),
    ensures
        ({
            let parts = frame_parts(samples, start, channels, sinks, channel, gain);
            let made = if count <= source_channel(channels, channel) {
                0
            } else if channel == sinks - 1 && sinks < count {
                1 + count - sinks
            } else {
                1
            };
            total_of(count, term) == total_of(made, |i: int| weigh(parts[i].0, parts[i].1))
        }),
    decreases count,
{
    if count > 0 {
        lemma_frame_weighs(
            samples,
            start,
            channels,
            sinks,
            channel,
            gain,
            weigh,
            term,
            count - 1,
        );
        let parts = frame_parts(samples, start, channels, sinks, channel, gain);
        let weighed = |i: int| weigh(parts[i].0, parts[i].1);
        reveal_with_fuel(total_of, 2);
        assert(term(count - 1) == term(count - 1));
    }
}

proof fn lemma_contribution_weighs<'a, T>(
    fader: Fader,
    source: Option<Source<'a, T>>,
    sinks: int,
    frame: int,
    channel: int,
    weigh: spec_fn(T, u32) -> int,
)
    requires
        0 <= channel < sinks,
        0 <= frame,
    ensures
        weight(contribution(fader, source, sinks, frame, channel), weigh) == loudness(
            fader.gain,
            source,
            sinks,
            frame,
            channel,
            weigh,
        ),
{
    if let Some(source) = source {
        let channels = at_least_one(source.channels);
        let samples = source.samples@;
        let frames = samples.len() as int / channels;
        lemma_fundamental_div_mod(samples.len() as int, channels);
        lemma_mod_bound(samples.len() as int, channels);
        assert((frame < frames) == (frame * channels + channels <= samples.len()))
            by (nonlinear_arith)
            requires
                samples.len() == channels * frames + samples.len() as int % channels,
                0 <= samples.len() as int % channels < channels,
                0 < channels,
        ;
        if fader.gain != 0 && frame < frames {
            let start = frame * channels;
            let term = |from: int|
                if lands_on(from, channels, sinks, channel) {
                    weigh(samples[start + from], fader.gain)
                } else {
                    0
                };
            lemma_frame_weighs(
                samples,
                start,
                channels,
                sinks,
                channel,
                fader.gain,
                weigh,
                term,
                channels,
            );
        }
    }
}

proof fn lemma_contributions_weigh<'a, T>(
    faders: Faders,
    inputs: Seq<Option<Source<'a, T>>>,
    taps: int,
    sinks: int,
    frame: int,
    channel: int,
    weigh: spec_fn(T, u32) -> int,
    term: spec_fn(int) -> int,
)
    requires
        0 <= taps,
        taps == 0 || faders.offset + taps <= inputs.len(),
        0 <= channel < sinks,
        0 <= frame,
        forall|tap: int|
            0 <= tap < taps ==> #[trigger] term(tap) == loudness(
                faders.slots@[tap].gain,
                inputs[faders.offset + tap],
                sinks,
                frame,
                channel,
                weigh,
            ),
    ensures
        weight(contributions(faders, inputs, taps, sinks, frame, channel), weigh) == total_of(
            taps,
            term,
        ),
    decreases taps,
{
    if taps > 0 {
        lemma_contributions_weigh(
            faders,
            inputs,
            taps - 1,
            sinks,
            frame,
            channel,
            weigh,
            term,
        );
        let fader = faders.slots@[taps - 1];
        let source = inputs[faders.offset + taps - 1];
        lemma_weight_add(
            contributions(faders, inputs, taps - 1, sinks, frame, channel),
            contribution(fader, source, sinks, frame, channel),
            weigh,
        );
        lemma_contribution_weighs(fader, source, sinks, frame, channel, weigh);
        assert(term(taps - 1) == loudness(
            faders.slots@[taps - 1].gain,
            source,
            sinks,
            frame,
            channel,
            weigh,
        ));
    }
}

// --- the aggregate device ---------------------------------------------------

/// One entry of an aggregate device's lists: what it is called by, and whether
/// the system reconciles its clock with the device's.
#[derive(Debug)]
pub struct Part {
    pub uid: String,
    pub drift_compensation: u32,
}

/// The private aggregate device that the mixer runs on.
#[derive(Debug)]
pub struct Aggregate {
    pub uid: String,
    pub name: &'static str,
    pub is_private: u32,
    pub is_stacked: u32,
    pub main_sub_device: String,
    pub sub_devices: Vec<Part>,
    pub taps: Vec<Part>,
    pub tap_auto_start: u32,
}

/// Describes the aggregate device: the destination as its only sub-device,
/// every tap in its tap list.
pub fn describe_aggregate(destination_uid: &str, taps: &[Tap], process: u32) -> (aggregate:
    Aggregate)
    ensures
        aggregate.uid@ == "com.koshka.DisEQ.mixer."@ + digits(process as nat),
        aggregate.name@ == "DisEQ Mixer"@,
        // Visible to this process only, so it does not appear in every other
        // application's device list.
        aggregate.is_private == 1,
        aggregate.is_stacked == 0,
        aggregate.main_sub_device@ == destination_uid@,
        // The destination sets the clock; the taps follow it.
        aggregate.sub_devices@.len() == 1,
        aggregate.sub_devices@[0].uid@ == destination_uid@,
        aggregate.sub_devices@[0].drift_compensation == 0,
        aggregate.taps@.len() == taps@.len(),
        forall|i: int|
            0 <= i < taps@.len() ==> (#[trigger] aggregate.taps@[i]).uid@ == taps@[i].uid@
                && aggregate.taps@[i].drift_compensation == 1,
        // Left off, the aggregate runs and its IO proc is called on time with
        // buffers full of nothing.
        aggregate.tap_auto_start == 1,
{
    let mut uid = "com.koshka.DisEQ.mixer.".to_owned();
    uid.append(decimal(process as u64).as_str());
    let mut sub_devices: Vec<Part> = Vec::new();
    sub_devices.push(Part { uid: destination_uid.to_owned(), drift_compensation: 0 });
    let mut tap_list: Vec<Part> = Vec::new();
    let mut i: usize = 0;
    while i < taps.len()
        invariant
            i <= taps@.len(),
            tap_list@.len() == i,
            forall|j: int|
                0 <= j < i ==> (#[trigger] tap_list@[j]).uid@ == taps@[j].uid@
                    && tap_list@[j].drift_compensation == 1,
        decreases taps@.len() - i,
    {
        // Taps run on the tapped process's clock, which is not the
        // destination's. Letting the system reconcile them is the whole reason
        // the mixer needs no ring buffer of its own.
        tap_list.push(Part { uid: taps[i].uid().to_owned(), drift_compensation: 1 });
        i += 1;
    }
    Aggregate {
        uid,
        name: "DisEQ Mixer",
        is_private: 1,
        is_stacked: 0,
        main_sub_device: destination_uid.to_owned(),
        sub_devices,
        taps: tap_list,
        tap_auto_start: 1,
    }
}

/// Whether the system made the aggregate device: it says so, and names an
/// object.
pub fn create_aggregate(status: i32, id: u32) -> (result: Result<u32, MixerError>)
    ensures
        result == (if status == 0 && id != 0 {
            Ok(id)
        } else {
            Err(MixerError::Aggregate(status))
        }),
{
    if status != 0 || id == 0 {
        Err(MixerError::Aggregate(status))
    } else {
        Ok(id)
    }
}

// --- the mixer --------------------------------------------------------------

/// What is to be undone when a mixer goes away, in this order. Any other order
/// leaves the real-time thread reading something that has gone away.
#[derive(Clone, Copy, Debug, PartialEq, Eq, Structural)]
pub enum Undo {
    StopProc,
    DestroyProc,
    DestroyAggregate { id: u32 },
    /// Gives an application its audio back.
    DestroyTap { id: u32 },
}

/// What is to be undone where a mixer does not come about, because a further tap
/// or the aggregate device was refused: every application that was tapped by
/// then gets its audio back.
pub fn abandoned(taps: &[Tap]) -> (steps: Vec<Undo>)
    ensures
        steps@ == taps@.map_values(|tap: Tap| Undo::DestroyTap { id: tap.id }),
{
    let mut steps: Vec<Undo> = Vec::new();
    let mut i: usize = 0;
    while i < taps.len()
        invariant
            i <= taps@.len(),
            steps@ == taps@.take(i as int).map_values(
                |tap: Tap| Undo::DestroyTap { id: tap.id },
            ),
        decreases taps@.len() - i,
    {
        steps.push(Undo::DestroyTap { id: taps[i].id() });
        i += 1;
    }
    assert(taps@.take(i as int) == taps@);
    steps
}

/// The first of some taps that belongs to a process is the one at `index`.
pub open spec fn is_slot_among(taps: Seq<Tap>, process: u32, index: int) -> bool {
    &&& 0 <= index < taps.len()
    &&& taps[index].process.id == process
    &&& forall|i: int| 0 <= i < index ==> (#[trigger] taps[i]).process.id != process
}

/// The index of the first of some taps that belongs to a process.
pub open spec fn slot_among(taps: Seq<Tap>, process: u32) -> int {
    choose|index: int| #[trigger] is_slot_among(taps, process, index)
}

/// An App Mixer over some tapped applications.
#[derive(Debug)]
pub struct Mixer {
    pub aggregate: u32,
    /// Whether the IO proc exists.
    pub has_proc: bool,
    pub taps: Vec<Tap>,
    pub faders: Faders,
    pub destination: Device,
    pub running: bool,
}

impl Mixer {
    pub open spec fn wf(self) -> bool {
        &&& self.faders.wf()
        &&& self.taps@.len() <= MAX_FADERS
        &&& self.faders.active == self.taps@.len()
        &&& self.running ==> self.has_proc
    }

    /// Which fader belongs to a process.
    pub open spec fn is_slot_of(self, process: u32, index: int) -> bool {
        is_slot_among(self.taps@, process, index)
    }

    /// The index of a process's fader.
    pub open spec fn slot(self, process: u32) -> int {
        slot_among(self.taps@, process)
    }

    proof fn lemma_slot(self, process: u32, index: int)
        requires
            self.is_slot_of(process, index),
        ensures
            self.slot(process) == index,
    {
        assert(is_slot_among(self.taps@, process, index));
        let chosen = self.slot(process);
        assert(self.is_slot_of(process, chosen));
        if chosen < index {
            assert(self.taps@[chosen].process.id != process);
        }
        if index < chosen {
            assert(self.taps@[index].process.id != process);
        }
    }

    proof fn lemma_has_slot(self, process: u32)
        requires
            self.has_fader(process),
        ensures
            exists|index: int| #[trigger] self.is_slot_of(process, index),
    {
        let at = choose|i: int|
            0 <= i < self.taps@.len() && (#[trigger] self.taps@[i]).process.id == process;
        self.lemma_slot_before(process, at);
    }

    proof fn lemma_slot_before(self, process: u32, at: int)
        requires
            0 <= at < self.taps@.len(),
            self.taps@[at].process.id == process,
        ensures
            exists|index: int| #[trigger] self.is_slot_of(process, index),
        decreases at,
    {
        if forall|i: int| 0 <= i < at ==> (#[trigger] self.taps@[i]).process.id != process {
            assert(self.is_slot_of(process, at));
        } else {
            let earlier = choose|i: int|
                0 <= i < at && (#[trigger] self.taps@[i]).process.id == process;
            self.lemma_slot_before(process, earlier);
        }
    }

    /// `after` is this mixer with one application's fader moved, where it has
    /// one.
    pub open spec fn regained(self, process: u32, gain: i64, after: Mixer) -> bool {
        &&& after.faders.slots@ == (if self.has_fader(process) {
            self.faders.slots@.update(
                self.slot(process),
                (Fader {
                    gain: slider_gain(gain as int) as u32,
                    ..self.faders.slots@[self.slot(process)]
                }),
            )
        } else {
            self.faders.slots@
        })
        &&& after.taps == self.taps
        &&& after.faders.active == self.faders.active
        &&& after.faders.offset == self.faders.offset
        &&& after.running == self.running
        &&& after.has_proc == self.has_proc
        &&& after.aggregate == self.aggregate
        &&& after.destination == self.destination
    }

    /// A process has a fader.
    pub open spec fn has_fader(self, process: u32) -> bool {
        exists|i: int| 0 <= i < self.taps@.len() && (#[trigger] self.taps@[i]).process.id == process
    }

    /// Whether the applications can be mixed into `destination` at all, before
    /// anything is tapped; the UID it is named by where they can.
    pub fn check(processes: &[Process], destination: &Device) -> (uid: Result<String, MixerError>)
        ensures
            match uid {
                Ok(uid) => processes@.len() <= MAX_FADERS && destination.uid == Some(uid),
                Err(error) => error == (if processes@.len() > MAX_FADERS {
                    MixerError::TooMany
                } else {
                    MixerError::DestinationHasNoUid
                }) && (processes@.len() > MAX_FADERS || destination.uid is None),
            },
    {
        if processes.len() > MAX_FADERS {
            return Err(MixerError::TooMany);
        }
        match &destination.uid {
            Some(uid) => Ok(uid.clone()),
            None => Err(MixerError::DestinationHasNoUid),
        }
    }

    /// The mixer over taps that exist, on an aggregate device that exists, whose
    /// IO proc does not yet. `input_buffers` is how many input streams the
    /// destination has of its own.
    ///
    /// Faders start at unity, so starting the mixer is inaudible.
    pub fn start(taps: Vec<Tap>, destination: &Device, input_buffers: u32, aggregate: u32) -> (mixer:
        Self)
        requires
            taps@.len() <= MAX_FADERS,
        ensures
            mixer.wf(),
            mixer.aggregate == aggregate,
            !mixer.has_proc,
            !mixer.running,
            mixer.taps == taps,
            mixer.destination == *destination,
            mixer.faders.offset == input_buffers,
            forall|i: int|
                0 <= i < MAX_FADERS ==> (#[trigger] mixer.faders.slots@[i]).gain == UNITY,
            forall|i: int|
                0 <= i < taps@.len() ==> (#[trigger] mixer.faders.slots@[i]).channels == (
                match taps@[i].format_channels {
                    Some(channels) => if channels > 0 {
                        channels as int
                    } else {
                        2
                    },
                    None => 2,
                }),
    {
        let mut faders = Faders::new();
        let mut i: usize = 0;
        while i < taps.len()
            invariant
                i <= taps@.len() <= MAX_FADERS,
                faders.wf(),
                faders.active == 0,
                forall|j: int|
                    0 <= j < MAX_FADERS ==> (#[trigger] faders.slots@[j]).gain == UNITY,
                forall|j: int|
                    0 <= j < i ==> (#[trigger] faders.slots@[j]).channels == (
                    match taps@[j].format_channels {
                        Some(channels) => if channels > 0 {
                            channels as int
                        } else {
                            2
                        },
                        None => 2,
                    }),
            decreases taps@.len() - i,
        {
            let channels: u32 = taps[i].channels() as u32;
            faders.slots[i] = Fader { gain: UNITY, channels };
            i += 1;
        }
        faders.active = taps.len();
        faders.offset = input_buffers as usize;
        Mixer {
            aggregate,
            has_proc: false,
            taps,
            faders,
            destination: destination.clone(),
            running: false,
        }
    }

    /// Takes the system's answer to the creation of the IO proc.
    pub fn proc_created(&mut self, status: i32, created: bool) -> (result: Result<(), MixerError>)
        requires
            old(self).wf(),
            !old(self).running,
        ensures
            final(self).wf(),
            result == (if status == 0 && created {
                Ok(())
            } else {
                Err(MixerError::Io(status))
            }),
            *final(self) == (Mixer {
                has_proc: old(self).has_proc || result is Ok,
                ..*old(self)
            }),
    {
        if status != 0 || !created {
            return Err(MixerError::Io(status));
        }
        self.has_proc = true;
        Ok(())
    }

    /// Takes the system's answer to the start of the device.
    pub fn started(&mut self, status: i32) -> (result: Result<(), MixerError>)
        requires
            old(self).wf(),
            old(self).has_proc,
        ensures
            final(self).wf(),
            result == (if status == 0 {
                Ok(())
            } else {
                Err(MixerError::Io(status))
            }),
            *final(self) == (Mixer {
                running: old(self).running || result is Ok,
                ..*old(self)
            }),
    {
        if status != 0 {
            return Err(MixerError::Io(status));
        }
        self.running = true;
        Ok(())
    }

    pub fn destination(&self) -> (destination: &Device)
        ensures
            *destination == self.destination,
    {
        &self.destination
    }

    pub fn is_running(&self) -> (running: bool)
        ensures
            running == self.running,
    {
        self.running
    }

    /// The applications with a fader and their gains, in the order their gains
    /// are indexed.
    pub fn faders(&self) -> (faders: Vec<(Process, u32)>)
        requires
            self.wf(),
        ensures
            faders@ == Seq::new(
                self.taps@.len(),
                |i: int| (self.taps@[i].process, self.faders.slots@[i].gain),
            ),
    {
        let mut faders: Vec<(Process, u32)> = Vec::new();
        let mut i: usize = 0;
        while i < self.taps.len()
            invariant
                self.wf(),
                i <= self.taps@.len(),
                faders@.len() == i,
                forall|j: int|
                    0 <= j < i ==> (#[trigger] faders@[j]) == (
                        self.taps@[j].process,
                        self.faders.slots@[j].gain,
                    ),
            decreases self.taps@.len() - i,
        {
            faders.push((self.taps[i].process().clone(), self.faders.slots[i].gain()));
            i += 1;
        }
        faders
    }

    /// Sets one application's volume, in millionths, linear.
    ///
    /// Returns false if that process has no fader: it started playing after the
    /// mixer was built, and the mixer has to be rebuilt to include it.
    pub fn set_gain(&mut self, process: u32, gain: i64) -> (set: bool)
        requires
            old(self).wf(),
        ensures
            final(self).wf(),
            set == old(self).has_fader(process),
            old(self).regained(process, gain, *final(self)),
    {
        match self.slot_of(process) {
            Some(index) => {
                let mut fader: Fader = self.faders.slots[index];
                fader.set_gain(gain);
                self.faders.slots[index] = fader;
                proof {
                    old(self).lemma_slot(process, index as int);
                }
                true
            },
            None => false,
        }
    }

    pub fn gain(&self, process: u32) -> (gain: Option<u32>)
        requires
            self.wf(),
        ensures
            gain == (if self.has_fader(process) {
                Some(self.faders.slots@[self.slot(process)].gain)
            } else {
                None
            }),
    {
        match self.slot_of(process) {
            Some(index) => {
                proof {
                    self.lemma_slot(process, index as int);
                }
                Some(self.faders.slots[index].gain())
            },
            None => None,
        }
    }

    /// The bundle of the application a process's fader belongs to.
    pub fn bundle_of(&self, process: u32) -> (bundle: Option<String>)
        ensures
            bundle == (if self.has_fader(process) {
                self.taps@[self.slot(process)].process.bundle_id
            } else {
                None
            }),
    {
        match self.slot_of(process) {
            Some(index) => {
                proof {
                    self.lemma_slot(process, index as int);
                }
                copied(&self.taps[index].process().bundle_id)
            },
            None => None,
        }
    }

    fn slot_of(&self, process: u32) -> (slot: Option<usize>)
        ensures
            match slot {
                Some(index) => self.is_slot_of(process, index as int) && self.has_fader(process),
                None => !self.has_fader(process),
            },
    {
        let mut i: usize = 0;
        while i < self.taps.len()
            invariant
                i <= self.taps@.len(),
                forall|j: int| 0 <= j < i ==> (#[trigger] self.taps@[j]).process.id != process,
            decreases self.taps@.len() - i,
        {
            if self.taps[i].process().id == process {
                assert(self.taps@[i as int].process.id == process);
                return Some(i);
            }
            i += 1;
        }
        None
    }

    /// Whether the set of applications this mixer covers still matches what is
    /// playing.
    ///
    /// Adding a fader means new taps and a new aggregate device, so the caller
    /// rebuilds rather than mutating.
    pub fn covers(&self, processes: &[Process]) -> (covers: bool)
        ensures
            covers == (processes@.len() == self.taps@.len() && forall|i: int|
                0 <= i < processes@.len() ==> self.has_fader((#[trigger] processes@[i]).id)),
    {
        if processes.len() != self.taps.len() {
            return false;
        }
        let mut i: usize = 0;
        while i < processes.len()
            invariant
                i <= processes@.len(),
                forall|j: int| 0 <= j < i ==> self.has_fader((#[trigger] processes@[j]).id),
            decreases processes@.len() - i,
        {
            if self.slot_of(processes[i].id).is_none() {
                assert(!self.has_fader(processes@[i as int].id));
                return false;
            }
            i += 1;
        }
        true
    }

    /// What is to be undone now that the mixer goes away: the proc is stopped
    /// and unregistered, the device destroyed, and only then the taps.
    pub fn teardown(&self) -> (steps: Vec<Undo>)
        ensures
            steps@ == (if self.has_proc {
                seq![Undo::StopProc, Undo::DestroyProc]
            } else {
                Seq::<Undo>::empty()
            }) + seq![Undo::DestroyAggregate { id: self.aggregate }] + Seq::new(
                self.taps@.len(),
                |i: int| Undo::DestroyTap { id: self.taps@[i].id },
            ),
    {
        let mut steps: Vec<Undo> = Vec::new();
        if self.has_proc {
            steps.push(Undo::StopProc);
            steps.push(Undo::DestroyProc);
        }
        steps.push(Undo::DestroyAggregate { id: self.aggregate });
        let ghost head = steps@;
        let mut i: usize = 0;
        while i < self.taps.len()
            invariant
                i <= self.taps@.len(),
                steps@ == head + Seq::new(
                    i as nat,
                    |j: int| Undo::DestroyTap { id: self.taps@[j].id },
                ),
            decreases self.taps@.len() - i,
        {
            steps.push(Undo::DestroyTap { id: self.taps[i].id() });
            i += 1;
        }
        steps
    }
}

/// A level that was set is the one read back, within a slider's range, and no
/// other application's level moves with it.
pub proof fn law_a_set_level_reads_back(
    before: Mixer,
    process: u32,
    gain: i64,
    after: Mixer,
    other: u32,
)
    requires
        before.wf(),
        before.has_fader(process),
        before.regained(process, gain, after),
    ensures
        after.has_fader(process),
        after.faders.slots@[after.slot(process)].gain == slider_gain(gain as int),
        before.has_fader(other) == after.has_fader(other),
        other != process && before.has_fader(other) ==> after.faders.slots@[after.slot(other)]
            == before.faders.slots@[before.slot(other)],
{
    before.lemma_has_slot(process);
    let index = choose|index: int| #[trigger] before.is_slot_of(process, index);
    assert(after.is_slot_of(process, index));
    before.lemma_slot(process, index);
    after.lemma_slot(process, index);
    assert(after.taps@[index].process.id == process);
    if before.has_fader(other) {
        let at = choose|i: int|
            0 <= i < before.taps@.len() && (#[trigger] before.taps@[i]).process.id == other;
        assert(after.taps@[at].process.id == other);
        before.lemma_has_slot(other);
        let slot = choose|index: int| #[trigger] before.is_slot_of(other, index);
        assert(after.is_slot_of(other, slot));
        before.lemma_slot(other, slot);
        after.lemma_slot(other, slot);
    }
    if after.has_fader(other) {
        let at = choose|i: int|
            0 <= i < after.taps@.len() && (#[trigger] after.taps@[i]).process.id == other;
        assert(before.taps@[at].process.id == other);
    }
}

/// What no tap reaches is silent: every other output buffer, and what is left of
/// the sink behind its last whole frame.
pub proof fn law_what_is_not_mixed_is_silent<'a, T: Copy, F: Fn(T, T, u32) -> T>(
    faders: Faders,
    inputs: &[Option<Source<'a, T>>],
    sink: &mut [T],
    sink_channels: u32,
    others: &mut [&mut [T]],
    silence: T,
    accumulate: F,
    other: int,
    position: int,
)
    requires
        faders.wf(),
        call_ensures(
            mix::<T, F>,
            (&faders, inputs, sink, sink_channels, others, silence, accumulate),
            (),
        ),
        sink_channels > 0,
    ensures
        final(sink)@.len() == old(sink)@.len(),
        0 <= other < old(others)@.len() && 0 <= position < old(others)@[other]@.len()
            ==> final(others)@[other]@[position] == silence,
        old(sink)@.len() - old(sink)@.len() as int % sink_channels as int <= position < old(sink)@.len() ==> final(sink)@[position] == silence,
        faders.active == 0 && 0 <= position < old(sink)@.len() ==> final(sink)@[position]
            == silence,
{
    let sinks = sink_channels as int;
    let total = old(sink)@.len() as int;
    if total - total % sinks <= position < total {
        lemma_fundamental_div_mod(total, sinks);
        lemma_div_is_ordered(total - total % sinks, position, sinks);
        lemma_div_multiples_vanish(total / sinks, sinks);
        lemma_div_is_ordered(position, total, sinks);
        assert(final(sink)@[position] == silence);
    }
}

/// A level that was set is the one read back, brought into the range of a
/// slider, and it moves no other application's level. There is none to set for a
/// process that has no tap.
pub proof fn law_a_fader_keeps_the_level_it_is_set_to(
    mixer: &mut Mixer,
    process: u32,
    gain: i64,
    set: bool,
    other: u32,
    before: Option<u32>,
    after: Option<u32>,
)
    requires
        old(mixer).wf(),
        call_ensures(Mixer::set_gain, (mixer, process, gain), set),
        call_ensures(Mixer::gain, (&*old(mixer), other), before),
        call_ensures(Mixer::gain, (&*final(mixer), other), after),
    ensures
        set == exists|i: int|
            0 <= i < old(mixer).taps@.len() && (#[trigger] old(mixer).taps@[i]).process.id
                == process,
        after is Some == exists|i: int|
            0 <= i < old(mixer).taps@.len() && (#[trigger] old(mixer).taps@[i]).process.id
                == other,
        other != process ==> after == before,
        other == process && set ==> after is Some && after->0 == (if gain < 0 {
            0
        } else if gain > 1_000_000 {
            1_000_000
        } else {
            gain as int
        }),
        final(mixer).taps == old(mixer).taps,
        final(mixer).destination == old(mixer).destination,
        final(mixer).faders.active == old(mixer).faders.active,
        final(mixer).faders.offset == old(mixer).faders.offset,
        final(mixer).running == old(mixer).running,
{
    if old(mixer).has_fader(process) {
        law_a_set_level_reads_back(*old(mixer), process, gain, *final(mixer), other);
    }
    assert(final(mixer).has_fader(other) == old(mixer).has_fader(other));
}

/// Starting the mixer is inaudible: every application that was tapped has a
/// fader, at unity, and takes the input buffer after those of the destination
/// itself.
pub proof fn law_a_mixer_starts_at_unity(
    taps: Vec<Tap>,
    destination: Device,
    input_buffers: u32,
    aggregate: u32,
    mixer: Mixer,
    tap: int,
    gain: Option<u32>,
)
    requires
        call_ensures(Mixer::start, (taps, &destination, input_buffers, aggregate), mixer),
        0 <= tap < taps@.len(),
        call_ensures(Mixer::gain, (&mixer, taps@[tap].process.id), gain),
    ensures
        gain == Some(1_000_000u32),
        mixer.taps == taps,
        mixer.destination == destination,
        mixer.aggregate == aggregate,
        mixer.faders.active == taps@.len(),
        mixer.faders.offset == input_buffers,
        !mixer.running,
{
    let process = taps@[tap].process.id;
    assert(mixer.taps@[tap].process.id == process);
    mixer.lemma_has_slot(process);
    let index = choose|index: int| #[trigger] mixer.is_slot_of(process, index);
    mixer.lemma_slot(process, index);
    assert(mixer.faders.slots@[index].gain == UNITY);
}

/// Each application is listed with the level its fader stands at, in the order
/// of the taps.
pub proof fn law_the_faders_are_listed_with_their_levels(
    mixer: Mixer,
    faders: Vec<(Process, u32)>,
    tap: int,
    gain: Option<u32>,
)
    requires
        mixer.wf(),
        call_ensures(Mixer::faders, (&mixer,), faders),
        0 <= tap < mixer.taps@.len(),
        forall|i: int|
            0 <= i < tap ==> (#[trigger] mixer.taps@[i]).process.id
                != mixer.taps@[tap].process.id,
        call_ensures(Mixer::gain, (&mixer, mixer.taps@[tap].process.id), gain),
    ensures
        faders@.len() == mixer.taps@.len(),
        faders@[tap].0 == mixer.taps@[tap].process,
        gain == Some(faders@[tap].1),
{
    assert(mixer.is_slot_of(mixer.taps@[tap].process.id, tap));
    mixer.lemma_slot(mixer.taps@[tap].process.id, tap);
}

/// The mixer is current exactly while what is playing is what it has tapped,
/// whatever order either is listed in.
pub proof fn law_a_mixer_covers_exactly_what_it_tapped(
    mixer: Mixer,
    processes: &[Process],
    covers: bool,
)
    requires
        call_ensures(Mixer::covers, (&mixer, processes), covers),
        forall|i: int, j: int|
            0 <= i < j < processes@.len() ==> (#[trigger] processes@[i]).id != (
            #[trigger] processes@[j]).id,
        forall|i: int, j: int|
            0 <= i < j < mixer.taps@.len() ==> (#[trigger] mixer.taps@[i]).process.id != (
            #[trigger] mixer.taps@[j]).process.id,
    ensures
        covers ==> processes@.len() == mixer.taps@.len(),
        covers ==> forall|i: int|
            0 <= i < processes@.len() ==> exists|j: int|
                0 <= j < mixer.taps@.len() && (#[trigger] mixer.taps@[j]).process.id == (
                #[trigger] processes@[i]).id,
        !covers ==> processes@.len() != mixer.taps@.len() || exists|i: int|
            0 <= i < processes@.len() && forall|j: int|
                0 <= j < mixer.taps@.len() ==> (#[trigger] mixer.taps@[j]).process.id != (
                #[trigger] processes@[i]).id,
{
    if !covers && processes@.len() == mixer.taps@.len() {
        let i = choose|i: int|
            0 <= i < processes@.len() && !mixer.has_fader((#[trigger] processes@[i]).id);
        assert(!mixer.has_fader(processes@[i].id));
        assert forall|j: int| 0 <= j < mixer.taps@.len() implies (
        #[trigger] mixer.taps@[j]).process.id != processes@[i].id by {}
    }
}

/// A mixer goes away from the outside in: the proc is stopped and unregistered
/// before the device is destroyed, and only after that every application gets
/// its audio back, each of them.
pub proof fn law_a_mixer_goes_away_from_the_outside_in(mixer: Mixer, steps: Vec<Undo>, tap: int)
    requires
        call_ensures(Mixer::teardown, (&mixer,), steps),
        0 <= tap < mixer.taps@.len(),
    ensures
        ({
            let device = if mixer.has_proc {
                2int
            } else {
                0
            };
            &&& mixer.has_proc ==> steps@[0] == Undo::StopProc && steps@[1] == Undo::DestroyProc
            &&& steps@[device] == (Undo::DestroyAggregate { id: mixer.aggregate })
            &&& steps@[device + 1 + tap] == (Undo::DestroyTap { id: mixer.taps@[tap].id })
            &&& steps@.len() == device + 1 + mixer.taps@.len()
        }),
{
}

/// A mixer that does not come about gives every application it tapped its audio
/// back, and touches nothing else.
pub proof fn law_an_abandoned_mixer_gives_every_tap_back(taps: &[Tap], steps: Vec<Undo>, tap: int)
    requires
        call_ensures(abandoned, (taps,), steps),
        0 <= tap < taps@.len(),
    ensures
        steps@.len() == taps@.len(),
        steps@[tap] == (Undo::DestroyTap { id: taps@[tap].id }),
{
}

/// The aggregate device is private, plays to the destination, runs on its clock
/// and takes in every tap.
pub proof fn law_the_aggregate_takes_in_every_tap(
    destination_uid: &str,
    taps: &[Tap],
    process: u32,
    aggregate: Aggregate,
    tap: int,
)
    requires
        call_ensures(describe_aggregate, (destination_uid, taps, process), aggregate),
        0 <= tap < taps@.len(),
    ensures
        aggregate.is_private == 1,
        aggregate.is_stacked == 0,
        aggregate.tap_auto_start == 1,
        aggregate.main_sub_device@ == destination_uid@,
        aggregate.sub_devices@.len() == 1,
        aggregate.sub_devices@[0].uid@ == destination_uid@,
        aggregate.sub_devices@[0].drift_compensation == 0,
        aggregate.taps@.len() == taps@.len(),
        aggregate.taps@[tap].uid@ == taps@[tap].uid@,
        aggregate.taps@[tap].drift_compensation == 1,
{
}

/// A mixer is refused before anything is tapped exactly where there are more
/// than sixteen applications, or the destination cannot be named.
pub proof fn law_a_mixer_is_refused_before_anything_is_tapped(
    processes: &[Process],
    destination: Device,
    uid: Result<String, MixerError>,
)
    requires
        call_ensures(Mixer::check, (processes, &destination), uid),
    ensures
        uid is Ok <==> processes@.len() <= 16 && destination.uid is Some,
        uid is Ok ==> uid->Ok_0@ == (destination.uid->0)@,
        uid == Err::<String, MixerError>(MixerError::TooMany) <==> processes@.len() > 16,
        uid is Err && processes@.len() <= 16 ==> uid->Err_0 == MixerError::DestinationHasNoUid,
{
}

/// A mixer runs once its proc was made and its device started, and what the
/// system refused is reported with its status.
pub proof fn law_a_mixer_runs_once_the_system_agreed(
    mixer: &mut Mixer,
    made: i32,
    created: bool,
    procured: Result<(), MixerError>,
    then: &mut Mixer,
    status: i32,
    started: Result<(), MixerError>,
)
    requires
        old(mixer).wf(),
        !old(mixer).running,
        !old(mixer).has_proc,
        call_ensures(Mixer::proc_created, (mixer, made, created), procured),
        *old(then) == *final(mixer),
        call_ensures(Mixer::started, (then, status), started),
    ensures
        procured is Ok <==> made == 0 && created,
        procured is Err ==> procured->Err_0 == MixerError::Io(made),
        started is Ok <==> status == 0,
        started is Err ==> started->Err_0 == MixerError::Io(status),
        final(mixer).has_proc <==> procured is Ok,
        !final(mixer).running,
        final(then).running <==> started is Ok,
        final(then).taps == old(mixer).taps,
        final(then).faders == old(mixer).faders,
{
}

/// An aggregate is made where the system gave it an id and no error.
pub proof fn law_an_aggregate_is_made_without_an_error(
    status: i32,
    id: u32,
    made: Result<u32, MixerError>,
)
    requires
        call_ensures(create_aggregate, (status, id), made),
    ensures
        made is Ok <==> status == 0 && id != 0,
        made matches Ok(aggregate) ==> aggregate == id,
        made matches Err(error) ==> error == MixerError::Aggregate(status),
{
}

/// A process's bundle is that of its tap, and none where it has no tap; where no
/// process is tapped twice.
pub proof fn law_a_bundle_is_its_tap_s(
    mixer: Mixer,
    process: u32,
    bundle: Option<String>,
    index: int,
    destination: &Device,
)
    requires
        call_ensures(Mixer::bundle_of, (&mixer, process), bundle),
        call_ensures(Mixer::destination, (&mixer,), destination),
        0 <= index <= mixer.taps@.len(),
        index < mixer.taps@.len() ==> mixer.taps@[index].process.id == process,
        forall|i: int|
            0 <= i < mixer.taps@.len() && i != index ==> (#[trigger] mixer.taps@[i]).process.id
                != process,
    ensures
        index < mixer.taps@.len() ==> bundle == mixer.taps@[index].process.bundle_id,
        index == mixer.taps@.len() ==> bundle is None,
        *destination == mixer.destination,
{
    if index < mixer.taps@.len() {
        assert(is_slot_among(mixer.taps@, process, index));
        let slot = mixer.slot(process);
        assert(is_slot_among(mixer.taps@, process, slot));
    }
}

/// What went wrong with a mixer is said with the system's own number.
pub proof fn law_a_mixer_error_says_what_went_wrong(
    error: MixerError,
    message: String,
    number: String,
    inner: String,
)
    requires
        call_ensures(MixerError::message, (&error,), message),
        error matches MixerError::Tap(tap) ==> call_ensures(TapError::message, (&tap,), inner),
        error matches MixerError::Aggregate(status) ==> call_ensures(
            decimal_signed,
            (status as i64,),
            number,
        ),
        error matches MixerError::Io(status) ==> call_ensures(
            decimal_signed,
            (status as i64,),
            number,
        ),
    ensures
        match error {
            MixerError::Tap(_) => message@ == inner@,
            MixerError::Aggregate(_) => message@ == "the aggregate device was refused (status "@
                + number@ + ")"@,
            MixerError::DestinationHasNoUid => message@
                == "the destination device publishes no UID"@,
            MixerError::Io(_) => message@ == "the mixer's IO proc was refused (status "@ + number@
                + ")"@,
            MixerError::TooMany => message@ == "at most "@ + seq!['1', '6']
                + " applications can have a fader"@,
        },
{
    reveal_with_fuel(digits, 3);
    assert(digits(16) =~= seq!['1', '6']);
}

/// A fader stands where it was put, within the slider, and starts at the top, as
/// all of a mixer's do.
pub proof fn law_a_fader_stands_where_it_was_put(
    fresh: Fader,
    start: u32,
    fader: &mut Fader,
    gain: i64,
    now: u32,
    faders: Faders,
    i: int,
    mixer: Mixer,
    running: bool,
)
    requires
        call_ensures(Fader::new, (), fresh),
        call_ensures(Fader::gain, (&fresh,), start),
        call_ensures(Fader::set_gain, (fader, gain), ()),
        call_ensures(Fader::gain, (&*final(fader),), now),
        call_ensures(Faders::new, (), faders),
        0 <= i < 16,
        call_ensures(Mixer::is_running, (&mixer,), running),
    ensures
        start == 1_000_000,
        0 <= gain <= 1_000_000 ==> now == gain,
        gain < 0 ==> now == 0,
        gain > 1_000_000 ==> now == 1_000_000,
        final(fader).channels == old(fader).channels,
        faders.slots@.len() == 16,
        faders.slots@[i].gain == 1_000_000 && faders.slots@[i].channels == 0,
        faders.active == 0 && faders.offset == 0,
        running == mixer.running,
{
    assert(faders.slots@[i] == faders.slots@[i]);
}

} // verus!
