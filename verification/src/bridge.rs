//! What the two engines share: the ring and the timing that lines them up.
//!
//! The virtual device and the hardware device run on different clocks. The
//! capture side writes at the driver's sample time; the playback side reads at
//! the hardware's. Neither number means anything to the other, so the first
//! playback callback records the difference between them and everything after
//! reads through that constant. `safety_offset` then holds the reader far
//! enough behind the writer that a late buffer on either side still finds
//! audio rather than a hole.

use vstd::prelude::*;

use crate::ring::{
    law_written_frames_are_heard, silence_destination, Bounds, Ring, RingError,
};

verus! {

/// "No sample time has been seen yet." Not zero: zero is a real sample time,
/// and a device that has just started reports it.
pub const NO_TIME: i64 = i64::MIN;

/// The bits of the largest value a peak meter can show, positive infinity.
/// Among the bits of floating-point numbers that are not negative, a larger
/// number has larger bits; everything above these bits is negative or not a
/// number.
pub const LOUDEST: u32 = 0x7F80_0000;

/// What the playback callback should do with the buffer it was handed.
#[derive(Clone, Copy, Debug, PartialEq, Eq, Structural)]
pub enum Fill {
    /// Read `from..from + frames` out of the ring.
    Read { from: i64 },
    /// Nothing to play: the capture side has not started, or the alignment was
    /// just taken and this buffer is the price of taking it.
    Silence,
}

/// The two clocks and how they are related.
#[derive(Clone, Copy, Debug)]
pub struct Timeline {
    /// Newest sample time the capture side has written through.
    pub input_time: i64,
    /// Newest sample time the playback side has been asked for.
    pub output_time: i64,
    /// `input_time - output_time`, taken once and then held. Converts a
    /// playback sample time into the capture timeline.
    pub sample_offset: i64,
    /// How far behind the writer the reader deliberately stays, in frames.
    pub safety_offset: i64,
    /// Whether `sample_offset` has been taken.
    pub aligned: bool,
    /// Whether the capture side is producing. Cleared on stop so the playback
    /// callback goes silent instead of replaying whatever the ring still holds.
    pub capturing: bool,
    /// Reads that found no audio and forced a re-alignment. Diagnostics only.
    pub realignments: u64,
    /// The bits of the loudest sample the capture side has written since the
    /// meter was last read. A route can be perfectly aligned and still silent;
    /// this is what tells the two apart.
    pub peak: u32,
}

impl Timeline {
    /// Whether there is anything to line the playback side up with.
    pub open spec fn can_play(self) -> bool {
        self.capturing && self.input_time != NO_TIME
    }

    /// Where a reader that is asked for `output_time` finds itself on the
    /// capture timeline.
    pub open spec fn read_position(self, output_time: int) -> int {
        output_time + self.sample_offset - self.safety_offset
    }

    /// The answer to a callback for `output_time`, and the timeline after it.
    pub open spec fn asked(self, output_time: i64) -> (Fill, Timeline) {
        if !self.can_play() {
            (Fill::Silence, self)
        } else if !self.aligned {
            (
                Fill::Silence,
                Timeline {
                    output_time,
                    sample_offset: (self.input_time - output_time) as i64,
                    aligned: true,
                    ..self
                },
            )
        } else {
            (
                Fill::Read { from: self.read_position(output_time as int) as i64 },
                Timeline { output_time, ..self },
            )
        }
    }

    /// No intermediate value of [`Timeline::asked`] leaves the range of sample
    /// times.
    pub open spec fn can_ask(self, output_time: int) -> bool {
        self.can_play() ==> if self.aligned {
            &&& i64::MIN <= output_time + self.sample_offset <= i64::MAX
            &&& i64::MIN <= self.read_position(output_time) <= i64::MAX
        } else {
            i64::MIN <= self.input_time - output_time <= i64::MAX
        }
    }

    /// How far the reader trails the writer can be worked out in machine
    /// integers, where it can be known at all.
    pub open spec fn can_trail(self) -> bool {
        self.trail() matches Some(trail) ==> {
            &&& i64::MIN <= self.output_time + self.sample_offset <= i64::MAX
            &&& i64::MIN <= self.read_position(self.output_time as int) <= i64::MAX
            &&& i64::MIN <= trail <= i64::MAX
        }
    }

    /// How far the reader trails the writer, where that can be known.
    pub open spec fn trail(self) -> Option<int> {
        if self.aligned && self.output_time != NO_TIME && self.input_time != NO_TIME {
            Some(self.input_time - self.read_position(self.output_time as int))
        } else {
            None
        }
    }
}

pub struct Bridge<T> {
    ring: Ring<T>,
    timeline: Timeline,
}

impl<T: Copy> Bridge<T> {
    pub closed spec fn wf(self) -> bool {
        self.ring.wf() && self.timeline.peak <= LOUDEST
    }

    pub closed spec fn buffer(self) -> Ring<T> {
        self.ring
    }

    pub closed spec fn clocks(self) -> Timeline {
        self.timeline
    }

    /// An invariant of every bridge: its ring is sound and its meter shows a
    /// loudness.
    pub proof fn lemma_wf(self)
        requires
            self.wf(),
        ensures
            self.buffer().wf(),
            self.clocks().peak <= LOUDEST,
    {
    }

    pub fn new(channels: usize, capacity: usize, silence: T) -> (bridge: Self)
        requires
            channels > 0,
            capacity > 0,
            capacity <= i64::MAX,
        ensures
            bridge.wf(),
            bridge.buffer().channel_count() == channels,
            bridge.buffer().frames() == capacity,
            bridge.buffer().quiet() == silence,
            bridge.buffer().start() == 0,
            bridge.buffer().end() == 0,
            bridge.clocks() == (Timeline {
                input_time: NO_TIME,
                output_time: NO_TIME,
                sample_offset: 0,
                safety_offset: 0,
                aligned: false,
                capturing: false,
                realignments: 0,
                peak: 0,
            }),
    {
        Bridge {
            ring: Ring::new(channels, capacity, silence),
            timeline: Timeline {
                input_time: NO_TIME,
                output_time: NO_TIME,
                sample_offset: 0,
                safety_offset: 0,
                aligned: false,
                capturing: false,
                realignments: 0,
                peak: 0,
            },
        }
    }

    pub fn ring(&self) -> (ring: &Ring<T>)
        ensures
            *ring == self.buffer(),
    {
        &self.ring
    }

    pub fn channels(&self) -> (channels: usize)
        ensures
            channels == self.buffer().channel_count(),
    {
        self.ring.channels()
    }

    // --- capture side -------------------------------------------------------

    /// Stores what the capture side produced at `start..end`; see
    /// [`Ring::write`].
    pub fn write(&mut self, source: &[&[T]], start: i64, end: i64) -> (result: Result<
        (),
        RingError,
    >)
        requires
            old(self).wf(),
        ensures
            final(self).wf(),
            final(self).clocks() == old(self).clocks(),
            match result {
                Ok(()) => end - start <= old(self).buffer().frames(),
                Err(error) => end - start > old(self).buffer().frames() && error
                    == RingError::TooMuch,
            },
            result is Err || end <= start ==> final(self).buffer() == old(self).buffer(),
            result is Ok && start < end ==> old(self).buffer().stored(
                source@,
                start as int,
                end as int,
                final(self).buffer(),
            ),
    {
        self.ring.write(source, start, end)
    }

    /// Records that the capture side has written up to `end`.
    ///
    /// Called from the capture callback, after the write.
    pub fn wrote_through(&mut self, end: i64)
        requires
            old(self).wf(),
        ensures
            final(self).wf(),
            final(self).buffer() == old(self).buffer(),
            final(self).clocks() == (Timeline { input_time: end, ..old(self).clocks() }),
    {
        self.timeline.input_time = end;
    }

    /// Records the loudest sample in what was just written, given by its bits.
    ///
    /// What is not a number, or not louder than what was seen, changes nothing.
    pub fn observe_peak(&mut self, bits: u32)
        requires
            old(self).wf(),
        ensures
            final(self).wf(),
            final(self).buffer() == old(self).buffer(),
            final(self).clocks() == (Timeline {
                peak: if old(self).clocks().peak < bits <= LOUDEST {
                    bits
                } else {
                    old(self).clocks().peak
                },
                ..old(self).clocks()
            }),
    {
        if bits <= LOUDEST && bits > self.timeline.peak {
            self.timeline.peak = bits;
        }
    }

    /// The bits of the loudest sample written since the last call, and resets
    /// the meter.
    pub fn take_peak(&mut self) -> (bits: u32)
        requires
            old(self).wf(),
        ensures
            final(self).wf(),
            final(self).buffer() == old(self).buffer(),
            final(self).clocks() == (Timeline { peak: 0, ..old(self).clocks() }),
            bits == old(self).clocks().peak,
            bits <= LOUDEST,
    {
        let bits: u32 = self.timeline.peak;
        self.timeline.peak = 0;
        bits
    }

    pub fn input_time(&self) -> (time: i64)
        ensures
            time == self.clocks().input_time,
    {
        self.timeline.input_time
    }

    /// Records whether the capture side is producing.
    ///
    /// The driver resets its sample time whenever IO starts, so audio resuming
    /// after a silent gap arrives on a clock that has jumped backwards. Letting
    /// the alignment go with it costs one silent buffer; keeping it costs a
    /// failed read and a re-alignment, which is the same silence plus a
    /// diagnostic that lies about the cause.
    pub fn set_capturing(&mut self, capturing: bool)
        requires
            old(self).wf(),
        ensures
            final(self).wf(),
            final(self).buffer() == old(self).buffer(),
            final(self).clocks() == (Timeline {
                capturing,
                aligned: old(self).clocks().aligned && !(capturing && !old(self).clocks().capturing),
                ..old(self).clocks()
            }),
    {
        let was: bool = self.timeline.capturing;
        self.timeline.capturing = capturing;
        if capturing && !was {
            self.timeline.aligned = false;
        }
    }

    pub fn is_capturing(&self) -> (capturing: bool)
        ensures
            capturing == self.clocks().capturing,
    {
        self.timeline.capturing
    }

    // --- playback side ------------------------------------------------------

    /// The frame the playback callback should start reading at, given the
    /// sample time the hardware asked for.
    ///
    /// The first call after an alignment was dropped takes the offset and
    /// answers [`Fill::Silence`]: there is no sensible read position until the
    /// two timelines have been related, and one silent buffer is cheaper than a
    /// wrong one.
    pub fn position_for(&mut self, output_time: i64) -> (fill: Fill)
        requires
            old(self).wf(),
            old(self).clocks().can_ask(output_time as int),
        ensures
            final(self).wf(),
            final(self).buffer() == old(self).buffer(),
            (fill, final(self).clocks()) == old(self).clocks().asked(output_time),
    {
        let input_time: i64 = self.input_time();
        if !self.is_capturing() || input_time == NO_TIME {
            return Fill::Silence;
        }
        self.timeline.output_time = output_time;
        if !self.timeline.aligned {
            self.timeline.sample_offset = input_time - output_time;
            self.timeline.aligned = true;
            return Fill::Silence;
        }
        let offset: i64 = self.timeline.sample_offset;
        let safety: i64 = self.timeline.safety_offset;
        Fill::Read { from: output_time + offset - safety }
    }

    /// Drops the alignment so the next playback callback takes it again.
    ///
    /// Called from the callback when a read finds nothing, which means the
    /// clocks have drifted past what the safety margin covers.
    pub fn realign(&mut self)
        requires
            old(self).wf(),
        ensures
            final(self).wf(),
            final(self).buffer() == old(self).buffer(),
            final(self).clocks() == (Timeline {
                aligned: false,
                realignments: if old(self).clocks().realignments == u64::MAX {
                    0
                } else {
                    (old(self).clocks().realignments + 1) as u64
                },
                ..old(self).clocks()
            }),
    {
        self.timeline.aligned = false;
        self.timeline.realignments = self.timeline.realignments.wrapping_add(1);
    }

    pub fn realignments(&self) -> (count: u64)
        ensures
            count == self.clocks().realignments,
    {
        self.timeline.realignments
    }

    // --- setup and monitoring ----------------------------------------------

    /// How far behind the writer the reader should sit. Set once the devices
    /// are known: it is the sum of both safety offsets and both buffer sizes,
    /// which is the worst case either side can be late by.
    pub fn set_safety_offset(&mut self, frames: i64)
        requires
            old(self).wf(),
        ensures
            final(self).wf(),
            final(self).buffer() == old(self).buffer(),
            final(self).clocks() == (Timeline { safety_offset: frames, ..old(self).clocks() }),
    {
        self.timeline.safety_offset = frames;
    }

    pub fn safety_offset(&self) -> (frames: i64)
        ensures
            frames == self.clocks().safety_offset,
    {
        self.timeline.safety_offset
    }

    /// How far the reader actually trails the writer right now, in frames.
    ///
    /// Equal to [`Self::safety_offset`] when the clocks agree. Drifting above
    /// it means the reader is falling behind and latency is growing; below it
    /// means the reader is catching up and will run out of audio. The
    /// difference is what the varispeed controller corrects.
    pub fn observed_offset(&self) -> (offset: Option<i64>)
        requires
            self.clocks().can_trail(),
        ensures
            match self.clocks().trail() {
                Some(trail) => offset is Some && offset->0 == trail,
                None => offset is None,
            },
    {
        if !self.timeline.aligned {
            return None;
        }
        let output_time: i64 = self.timeline.output_time;
        if output_time == NO_TIME {
            return None;
        }
        let input_time: i64 = self.input_time();
        if input_time == NO_TIME {
            return None;
        }
        let offset: i64 = self.timeline.sample_offset;
        let safety: i64 = self.timeline.safety_offset;
        Some(input_time - (output_time + offset - safety))
    }

    /// Forgets everything about both timelines. For a full restart: a device
    /// change, or the engines being stopped.
    pub fn reset(&mut self)
        requires
            old(self).wf(),
        ensures
            final(self).wf(),
            final(self).buffer() == old(self).buffer(),
            final(self).clocks() == (Timeline {
                capturing: false,
                aligned: false,
                input_time: NO_TIME,
                output_time: NO_TIME,
                sample_offset: 0,
                realignments: 0,
                peak: 0,
                safety_offset: old(self).clocks().safety_offset,
            }),
    {
        self.timeline.capturing = false;
        self.timeline.aligned = false;
        self.timeline.input_time = NO_TIME;
        self.timeline.output_time = NO_TIME;
        self.timeline.sample_offset = 0;
        self.timeline.realignments = 0;
        self.timeline.peak = 0;
    }
}

/// A ring read that silences and re-aligns rather than failing.
///
/// The playback callback has nowhere to report an error to, so a read that
/// cannot be satisfied becomes silence plus a re-alignment: one short gap
/// instead of a permanent one.
pub fn read_or_silence<T: Copy>(
    bridge: &mut Bridge<T>,
    destination: &mut [&mut [T]],
    from: i64,
    frames: usize,
) -> (result: Result<(), RingError>)
    requires
        old(bridge).wf(),
        frames <= i64::MAX,
        from + frames <= i64::MAX,
    ensures
        result is Ok,
        *final(bridge) == *old(bridge),
        final(destination)@.len() == old(destination)@.len(),
        forall|p: int|
            #![trigger final(destination)@[p]]
            0 <= p < final(destination)@.len() ==> final(destination)@[p]@.len() == old(destination)@[p]@.len() && final(final(destination)@[p])@ == final(old(destination)@[p])@,
        forall|p: int, i: int|
            #![trigger final(destination)@[p]@[i]]
            0 <= p < final(destination)@.len() && 0 <= i < final(destination)@[p]@.len() ==> final(destination)@[p]@[i] == (if i < frames {
                old(bridge).buffer().heard(
                    old(bridge).buffer().start(),
                    old(bridge).buffer().end(),
                    p,
                    from + i,
                )
            } else {
                old(destination)@[p]@[i]
            }),
{
    let observed = bridge.ring.observe();
    read_observed_or_silence(bridge, observed, destination, from, frames)
}

/// [`read_or_silence`] by a reader that observed the ring's bounds a moment
/// ago, or was overtaken by the writer every time it looked.
pub fn read_observed_or_silence<T: Copy>(
    bridge: &mut Bridge<T>,
    observed: Option<Bounds>,
    destination: &mut [&mut [T]],
    from: i64,
    frames: usize,
) -> (result: Result<(), RingError>)
    requires
        old(bridge).wf(),
        frames <= i64::MAX,
        from + frames <= i64::MAX,
        observed matches Some(bounds) ==> bounds.end - bounds.start
            <= old(bridge).buffer().frames(),
    ensures
        final(bridge).wf(),
        final(bridge).buffer() == old(bridge).buffer(),
        match result {
            Ok(()) => (observed is Some || frames == 0) && *final(bridge) == *old(bridge),
            Err(error) => {
                &&& observed is None
                &&& frames > 0
                &&& error == RingError::CpuOverload
                &&& final(bridge).clocks() == (Timeline {
                    aligned: false,
                    realignments: final(bridge).clocks().realignments,
                    ..old(bridge).clocks()
                })
                &&& final(bridge).clocks().realignments == (if old(bridge).clocks().realignments
                    == u64::MAX {
                    0
                } else {
                    old(bridge).clocks().realignments + 1
                })
            },
        },
        final(destination)@.len() == old(destination)@.len(),
        forall|p: int|
            #![trigger final(destination)@[p]]
            0 <= p < final(destination)@.len() ==> final(destination)@[p]@.len() == old(destination)@[p]@.len() && final(final(destination)@[p])@ == final(old(destination)@[p])@,
        forall|p: int, i: int|
            #![trigger final(destination)@[p]@[i]]
            0 <= p < final(destination)@.len() && 0 <= i < final(destination)@[p]@.len() ==> final(destination)@[p]@[i] == (if i >= frames {
                old(destination)@[p]@[i]
            } else if result is Ok {
                old(bridge).buffer().heard(
                    observed->0.start as int,
                    observed->0.end as int,
                    p,
                    from + i,
                )
            } else {
                old(bridge).buffer().quiet()
            }),
{
    let result = bridge.ring.read_observed(observed, destination, from, from + frames as i64);
    if result.is_err() {
        let quiet: T = bridge.ring.silent_sample();
        silence_destination(destination, 0, frames, quiet);
        bridge.realign();
    }
    result
}

/// Once the offset is taken, a playback callback reads exactly one safety
/// offset behind what the writer had published when it was taken, moved on by
/// as many frames as the playback clock has advanced since.
pub proof fn law_the_reader_trails_the_writer_by_the_safety_offset(
    clocks: Timeline,
    first: i64,
    later: i64,
)
    requires
        clocks.can_play(),
        !clocks.aligned,
        clocks.can_ask(first as int),
        clocks.asked(first).1.can_ask(later as int),
    ensures
        clocks.asked(first).0 == Fill::Silence,
        clocks.asked(first).1.asked(later).0 == (Fill::Read {
            from: (clocks.input_time - clocks.safety_offset + (later - first)) as i64,
        }),
{
}

/// When both clocks have advanced by the same number of frames since the
/// offset was taken, the reader is observed to trail by the safety offset.
pub proof fn law_the_observed_offset_is_the_safety_offset_when_the_clocks_agree(
    clocks: Timeline,
    first: i64,
    later: i64,
    written: i64,
)
    requires
        clocks.can_play(),
        !clocks.aligned,
        clocks.can_ask(first as int),
        written != NO_TIME,
        later != NO_TIME,
        written - clocks.input_time == later - first,
    ensures
        ({
            let taken = clocks.asked(first).1;
            let moved = (Timeline { input_time: written, ..taken }).asked(later).1;
            moved.trail() == Some(clocks.safety_offset as int)
        }),
{
}

/// The offset is taken once and held: as long as the clocks stay related, a
/// callback reads as many frames further on as the playback clock has advanced,
/// whatever the writer and the meter do and however many callbacks came between.
pub proof fn law_the_offset_is_held(
    clocks: Timeline,
    first: i64,
    from: i64,
    between: i64,
    written: i64,
    peak: u32,
    later: i64,
)
    requires
        clocks.can_ask(first as int),
        clocks.asked(first).0 == (Fill::Read { from }),
        written != NO_TIME,
        (Timeline { input_time: written, output_time: between, peak, ..clocks }).can_ask(
            later as int,
        ),
    ensures
        i64::MIN <= from + (later - first) <= i64::MAX,
        (Timeline {
            input_time: written,
            output_time: between,
            peak,
            ..clocks.asked(first).1
        }).asked(later).0 == (Fill::Read { from: (from + (later - first)) as i64 }),
{
}

/// Nothing plays until the capture side has started and written something,
/// whatever the ring still holds.
pub proof fn law_nothing_plays_before_capture(clocks: Timeline, output_time: i64)
    requires
        !clocks.capturing || clocks.input_time == NO_TIME,
    ensures
        clocks.asked(output_time) == (Fill::Silence, clocks),
{
}

// --- what holds of a bridge's calls -----------------------------------------

/// The first buffer after capture began only lines the clocks up; every later
/// one is read the safety offset behind the writer, as far on as the hardware's
/// clock has gone since. Starting over lines them up again.
pub proof fn law_a_bridge_lines_up_once<T: Copy>(
    safe: &mut Bridge<T>,
    frames: i64,
    on: &mut Bridge<T>,
    wrote: &mut Bridge<T>,
    written: i64,
    asks: &mut Bridge<T>,
    first: i64,
    nothing: Fill,
    reads: &mut Bridge<T>,
    later: i64,
    fill: Fill,
    again: &mut Bridge<T>,
    then: &mut Bridge<T>,
    last: i64,
    over: Fill,
    count: u64,
    before: u64,
)
    requires
        old(safe).wf(),
        !old(safe).clocks().capturing,
        call_ensures(Bridge::<T>::realignments, (&*old(safe),), before),
        call_ensures(Bridge::<T>::set_safety_offset, (safe, frames), ()),
        *old(on) == *final(safe),
        call_ensures(Bridge::<T>::set_capturing, (on, true), ()),
        *old(wrote) == *final(on),
        written != i64::MIN,
        call_ensures(Bridge::<T>::wrote_through, (wrote, written), ()),
        *old(asks) == *final(wrote),
        call_ensures(Bridge::<T>::position_for, (asks, first), nothing),
        i64::MIN <= written - first <= i64::MAX,
        *old(reads) == *final(asks),
        call_ensures(Bridge::<T>::position_for, (reads, later), fill),
        i64::MIN <= written - frames + (later - first) <= i64::MAX,
        *old(again) == *final(reads),
        call_ensures(Bridge::<T>::realign, (again,), ()),
        *old(then) == *final(again),
        call_ensures(Bridge::<T>::position_for, (then, last), over),
        call_ensures(Bridge::<T>::realignments, (&*final(then),), count),
        before < u64::MAX,
    ensures
        nothing == Fill::Silence,
        fill == (Fill::Read { from: (written - frames + (later - first)) as i64 }),
        over == Fill::Silence,
        count == before + 1,
        final(then).buffer() == old(safe).buffer(),
{
}

/// Nothing is read while nothing is captured, or before anything was written,
/// and asking leaves the clocks alone.
pub proof fn law_a_bridge_is_silent_until_something_is_written<T: Copy>(
    bridge: &mut Bridge<T>,
    time: i64,
    fill: Fill,
    capturing: bool,
    input: i64,
)
    requires
        old(bridge).wf(),
        call_ensures(Bridge::<T>::is_capturing, (&*old(bridge),), capturing),
        call_ensures(Bridge::<T>::input_time, (&*old(bridge),), input),
        call_ensures(Bridge::<T>::position_for, (bridge, time), fill),
        !capturing || input == i64::MIN,
    ensures
        fill == Fill::Silence,
        final(bridge).clocks() == old(bridge).clocks(),
        final(bridge).buffer() == old(bridge).buffer(),
{
}

/// The offset that is observed is how far the reader trails the writer; without
/// alignment there is none.
pub proof fn law_the_observed_offset_is_the_reader_s_lag<T: Copy>(
    bridge: &mut Bridge<T>,
    time: i64,
    from: i64,
    wrote: &mut Bridge<T>,
    written: i64,
    offset: Option<i64>,
    none: Option<i64>,
    lost: &mut Bridge<T>,
)
    requires
        old(bridge).wf(),
        time != i64::MIN,
        written != i64::MIN,
        old(bridge).clocks().can_ask(time as int),
        call_ensures(Bridge::<T>::position_for, (bridge, time), Fill::Read { from }),
        *old(wrote) == *final(bridge),
        call_ensures(Bridge::<T>::wrote_through, (wrote, written), ()),
        call_ensures(Bridge::<T>::observed_offset, (&*final(wrote),), offset),
        *old(lost) == *final(wrote),
        call_ensures(Bridge::<T>::realign, (lost,), ()),
        call_ensures(Bridge::<T>::observed_offset, (&*final(lost),), none),
    ensures
        offset matches Some(offset) && offset == written - from,
        none is None,
{
}

/// The meter shows the loudest it was told of since it was last taken, and
/// nothing that is not a level.
pub proof fn law_the_meter_shows_the_loudest<T: Copy>(
    taken: &mut Bridge<T>,
    any: u32,
    told: &mut Bridge<T>,
    one: u32,
    again: &mut Bridge<T>,
    two: u32,
    last: &mut Bridge<T>,
    shown: u32,
    over: &mut Bridge<T>,
    nothing: u32,
)
    requires
        old(taken).wf(),
        call_ensures(Bridge::<T>::take_peak, (taken,), any),
        *old(told) == *final(taken),
        call_ensures(Bridge::<T>::observe_peak, (told, one), ()),
        *old(again) == *final(told),
        call_ensures(Bridge::<T>::observe_peak, (again, two), ()),
        *old(last) == *final(again),
        call_ensures(Bridge::<T>::take_peak, (last,), shown),
        *old(over) == *final(last),
        call_ensures(Bridge::<T>::take_peak, (over,), nothing),
    ensures
        ({
            let first: int = if one <= 0x7F80_0000u32 {
                one as int
            } else {
                0
            };
            let second: int = if two <= 0x7F80_0000u32 {
                two as int
            } else {
                0
            };
            shown == if first < second {
                second
            } else {
                first
            }
        }),
        nothing == 0,
{
}

/// Capture that begins lines the clocks up anew; capture that goes on does not.
pub proof fn law_only_a_new_capture_realigns<T: Copy>(
    bridge: &mut Bridge<T>,
    on: bool,
    now: bool,
)
    requires
        old(bridge).wf(),
        call_ensures(Bridge::<T>::set_capturing, (bridge, on), ()),
        call_ensures(Bridge::<T>::is_capturing, (&*final(bridge),), now),
    ensures
        now == on,
        on && !old(bridge).clocks().capturing ==> !final(bridge).clocks().aligned,
        !on || old(bridge).clocks().capturing
            ==> final(bridge).clocks().aligned == old(bridge).clocks().aligned,
        final(bridge).clocks().input_time == old(bridge).clocks().input_time,
        final(bridge).clocks().realignments == old(bridge).clocks().realignments,
{
}

/// A bridge that was reset stands where a new one does, but for the safety
/// offset, which is set up once.
pub proof fn law_a_reset_bridge_starts_over<T: Copy>(
    fresh: Bridge<T>,
    channels: usize,
    capacity: usize,
    silence: T,
    planes: usize,
    bridge: &mut Bridge<T>,
    before: i64,
    after: i64,
)
    requires
        call_ensures(Bridge::<T>::new, (channels, capacity, silence), fresh),
        call_ensures(Bridge::<T>::channels, (&fresh,), planes),
        old(bridge).wf(),
        call_ensures(Bridge::<T>::safety_offset, (&*old(bridge),), before),
        call_ensures(Bridge::<T>::reset, (bridge,), ()),
        call_ensures(Bridge::<T>::safety_offset, (&*final(bridge),), after),
    ensures
        planes == channels,
        after == before,
        fresh.clocks().safety_offset == 0,
        !fresh.clocks().capturing && !fresh.clocks().aligned,
        fresh.clocks().input_time == i64::MIN && fresh.clocks().output_time == i64::MIN,
        fresh.clocks().realignments == 0 && fresh.clocks().peak == 0,
        final(bridge).clocks() == (Timeline { safety_offset: before, ..fresh.clocks() }),
        final(bridge).buffer() == old(bridge).buffer(),
{
}

/// A bridge reads what its ring reads; where the bounds could not be seen it
/// plays silence and lines up anew.
pub proof fn law_a_bridge_reads_its_ring<T: Copy>(
    bridge: &mut Bridge<T>,
    destination: &mut [&mut [T]],
    from: i64,
    frames: usize,
    result: Result<(), RingError>,
    ring: &Ring<T>,
    same: &mut [&mut [T]],
    alone: Result<(), RingError>,
    p: int,
    i: int,
)
    requires
        old(bridge).wf(),
        frames <= i64::MAX,
        from + frames <= i64::MAX,
        call_ensures(read_or_silence::<T>, (bridge, destination, from, frames), result),
        call_ensures(Bridge::<T>::ring, (&*old(bridge),), ring),
        call_ensures(Ring::<T>::read, (ring, same, from, (from + frames) as i64), alone),
        0 <= p < final(destination)@.len() && p < final(same)@.len(),
        0 <= i < final(destination)@[p]@.len() && i < final(same)@[p]@.len(),
    ensures
        result is Ok,
        *final(bridge) == *old(bridge),
        i < frames ==> final(destination)@[p]@[i] == final(same)@[p]@[i],
        i >= frames ==> final(destination)@[p]@[i] == old(destination)@[p]@[i],
{
    assert(final(destination)@[p]@[i] == final(destination)@[p]@[i]);
    assert(final(same)@[p]@[i] == final(same)@[p]@[i]);
}

/// Where the bounds could not be seen, silence is played and the clocks line up
/// anew.
pub proof fn law_an_unseen_ring_is_silence<T: Copy>(
    bridge: &mut Bridge<T>,
    destination: &mut [&mut [T]],
    from: i64,
    frames: usize,
    result: Result<(), RingError>,
    quiet: T,
    p: int,
    i: int,
)
    requires
        old(bridge).wf(),
        0 < frames <= i64::MAX,
        from + frames <= i64::MAX,
        call_ensures(
            read_observed_or_silence::<T>,
            (bridge, None::<Bounds>, destination, from, frames),
            result,
        ),
        call_ensures(Ring::<T>::silent_sample, (&old(bridge).buffer(),), quiet),
        0 <= p < final(destination)@.len(),
        0 <= i < final(destination)@[p]@.len(),
    ensures
        result is Err,
        final(destination)@[p]@[i] == (if i < frames {
            quiet
        } else {
            old(destination)@[p]@[i]
        }),
        !final(bridge).clocks().aligned,
        old(bridge).clocks().realignments < u64::MAX
            ==> final(bridge).clocks().realignments == old(bridge).clocks().realignments + 1,
{
    assert(final(destination)@[p]@[i] == final(destination)@[p]@[i]);
}

/// What is written to a bridge is what its ring takes, and is read from it at
/// the times it was written for; the clocks are told separately.
pub proof fn law_a_bridge_writes_its_ring<T: Copy>(
    bridge: &mut Bridge<T>,
    source: &[&[T]],
    start: i64,
    end: i64,
    result: Result<(), RingError>,
    then: &mut Bridge<T>,
    destination: &mut [&mut [T]],
    from: i64,
    frames: usize,
    read: Result<(), RingError>,
    channels: usize,
    p: int,
    i: int,
)
    requires
        old(bridge).wf(),
        start < end,
        call_ensures(Bridge::<T>::channels, (&*old(bridge),), channels),
        call_ensures(Bridge::<T>::write, (bridge, source, start, end), result),
        result is Ok,
        *old(then) == *final(bridge),
        frames <= i64::MAX,
        from + frames <= i64::MAX,
        call_ensures(read_or_silence::<T>, (then, destination, from, frames), read),
        0 <= p < final(destination)@.len(),
        0 <= i < final(destination)@[p]@.len(),
        i < frames,
        start <= from + i < end,
    ensures
        final(bridge).clocks() == old(bridge).clocks(),
        p < channels && p < source@.len() && from + i - start < source@[p]@.len()
            ==> final(destination)@[p]@[i] == source@[p]@[from + i - start],
{
    assert(final(destination)@[p]@[i] == final(destination)@[p]@[i]);
    old(bridge).lemma_wf();
    if p < channels {
        law_written_frames_are_heard(
            old(bridge).buffer(),
            source@,
            start as int,
            end as int,
            final(bridge).buffer(),
            p,
            from + i,
        );
    }
}

} // verus!
