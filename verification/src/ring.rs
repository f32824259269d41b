//! A circular buffer indexed by sample time.
//!
//! Two audio devices are never sample-locked. The processing engine reads the
//! virtual device on one clock and the output unit writes the hardware on
//! another, and the two drift apart continuously. This buffer is what sits
//! between them: the writer stores at its own sample times, the reader asks for
//! whatever range it needs, and anything outside what the buffer actually holds
//! comes back as silence rather than as a glitch.
//!
//! The buffer moves samples and never computes with them, so it is generic in
//! the sample type; which value is silent is said once, when it is built.

use vstd::arithmetic::div_mod::{
    lemma_mod_add_multiples_vanish, lemma_mod_bound, lemma_small_mod, lemma_sub_mod_noop,
};
use vstd::prelude::*;

verus! {

#[derive(Clone, Copy, Debug, PartialEq, Eq, Structural)]
pub enum RingError {
    /// More frames than the buffer can hold. The caller's buffer is too big or
    /// the ring is too small; either way nothing was written.
    TooMuch,
    /// The bounds could not be read consistently: the writer moved them faster
    /// than the reader could observe them, which in practice means the machine
    /// is overloaded.
    CpuOverload,
}

/// Number of bounds kept in the ring's history. The reader tolerates the writer
/// advancing under it as long as it can find a consistent snapshot within these.
pub const BOUNDS_HISTORY: usize = 32;

/// Attempts the reader makes to observe a consistent snapshot before giving up.
pub const BOUNDS_READ_ATTEMPTS: usize = 8;

/// A sample-time range, and the queue index it was published at. A reader that
/// sees an entry whose index does not match the head has been overtaken.
#[derive(Clone, Copy, Debug)]
pub struct Bounds {
    pub start: i64,
    pub end: i64,
    pub index: i64,
}

/// One look at the published bounds: the head as it was read, and what the
/// head's slot held when it was read after that.
#[derive(Clone, Copy, Debug)]
pub struct Snapshot {
    pub head: i64,
    pub bounds: Bounds,
}

impl Snapshot {
    /// The slot still carries the stamp of the head it was found through.
    pub open spec fn is_consistent(self) -> bool {
        self.bounds.index == self.head
    }
}

/// Whether none of the looks that are taken agrees with itself.
pub open spec fn none_agrees(looks: Seq<Snapshot>) -> bool {
    forall|i: int|
        0 <= i < looks.len() && i < BOUNDS_READ_ATTEMPTS
            ==> !(#[trigger] looks[i]).is_consistent()
}

/// The bounds of the first consistent look among the first
/// [`BOUNDS_READ_ATTEMPTS`], or `None` when the reader was overtaken every time.
pub fn first_consistent(looks: &[Snapshot]) -> (found: Option<Bounds>)
    ensures
        match found {
            Some(bounds) => exists|i: int|
                #![trigger looks@[i]]
                0 <= i < looks@.len() && i < BOUNDS_READ_ATTEMPTS && looks@[i].is_consistent()
                    && looks@[i].bounds == bounds && forall|j: int|
                    0 <= j < i ==> !(#[trigger] looks@[j]).is_consistent(),
            None => forall|i: int|
                0 <= i < looks@.len() && i < BOUNDS_READ_ATTEMPTS
                    ==> !(#[trigger] looks@[i]).is_consistent(),
        },
        found is None ==> none_agrees(looks@),
{
    let mut i: usize = 0;
    while i < looks.len() && i < BOUNDS_READ_ATTEMPTS
        invariant
            0 <= i <= looks@.len(),
            i <= BOUNDS_READ_ATTEMPTS,
            forall|j: int| 0 <= j < i ==> !(#[trigger] looks@[j]).is_consistent(),
        decreases looks@.len() - i,
    {
        if looks[i].bounds.index == looks[i].head {
            assert(looks@[i as int].is_consistent());
            return Some(looks[i].bounds);
        }
        i += 1;
    }
    None
}

/// The part of `start..end` that lies inside `low..high`.
///
/// Empty, and anchored at `low`, when the request lies entirely outside.
pub open spec fn clipped(start: int, end: int, low: int, high: int) -> (int, int) {
    if start > high || end < low {
        (low, low)
    } else {
        let first = if start < low { low } else { start };
        let last = if high < end { high } else { end };
        (first, if last < first { first } else { last })
    }
}

/// The valid sample-time range of the buffer's contents.
///
/// A single-producer queue of stamped entries: the writer publishes into the
/// slot after the head and then advances the head; a reader that finds the
/// slot's stamp still matching the head it read has a consistent snapshot.
pub struct TimeBounds {
    queue: Vec<Bounds>,
    head: i64,
}

impl TimeBounds {
    /// The head's slot carries the head's stamp, so a look that is not raced
    /// by the writer always succeeds.
    pub closed spec fn wf(self) -> bool {
        &&& self.queue@.len() == BOUNDS_HISTORY
        &&& self.queue@[self.head as int % BOUNDS_HISTORY as int].index == self.head
    }

    pub closed spec fn start(self) -> int {
        self.queue@[self.head as int % BOUNDS_HISTORY as int].start as int
    }

    pub closed spec fn end(self) -> int {
        self.queue@[self.head as int % BOUNDS_HISTORY as int].end as int
    }

    pub fn new() -> (bounds: Self)
        ensures
            bounds.wf(),
            bounds.start() == 0,
            bounds.end() == 0,
    {
        let mut queue: Vec<Bounds> = Vec::new();
        while queue.len() < BOUNDS_HISTORY
            invariant
                queue@.len() <= BOUNDS_HISTORY,
                forall|i: int|
                    0 <= i < queue@.len() ==> (#[trigger] queue@[i]) == (Bounds {
                        start: 0,
                        end: 0,
                        index: 0,
                    }),
            decreases BOUNDS_HISTORY - queue@.len(),
        {
            queue.push(Bounds { start: 0, end: 0, index: 0 });
        }
        TimeBounds { queue, head: 0 }
    }

    fn slot(index: i64) -> (slot: usize)
        ensures
            slot == index as int % BOUNDS_HISTORY as int,
            slot < BOUNDS_HISTORY,
    {
        match index.checked_rem_euclid(32) {
            Some(slot) => slot as usize,
            None => 0,
        }
    }

    /// What the head's slot holds. For the writer, which cannot race itself.
    pub fn current(&self) -> (bounds: Bounds)
        requires
            self.wf(),
        ensures
            bounds.start == self.start(),
            bounds.end == self.end(),
    {
        self.queue[Self::slot(self.head)]
    }

    /// Publishes `start..end` in the slot after the head, then moves the head.
    pub fn set(&mut self, start: i64, end: i64)
        requires
            old(self).wf(),
        ensures
            final(self).wf(),
            final(self).start() == start,
            final(self).end() == end,
    {
        let next: i64 = self.head.wrapping_add(1);
        let slot: usize = Self::slot(next);
        self.queue[slot] = Bounds { start, end, index: next };
        self.head = next;
    }

    /// One look at the head and its slot.
    pub fn look(&self) -> (snapshot: Snapshot)
        requires
            self.wf(),
        ensures
            snapshot.is_consistent(),
            snapshot.bounds.start == self.start(),
            snapshot.bounds.end == self.end(),
    {
        Snapshot { head: self.head, bounds: self.queue[Self::slot(self.head)] }
    }

    /// The published bounds, as a reader that nothing races finds them.
    pub fn get(&self) -> (bounds: Option<Bounds>)
        requires
            self.wf(),
        ensures
            bounds is Some,
            bounds->0.start == self.start(),
            bounds->0.end == self.end(),
    {
        let looks: [Snapshot; 1] = [self.look()];
        let found = first_consistent(&looks);
        assert(looks@[0].is_consistent());
        found
    }

    /// Narrows `start..end` to what the buffer actually holds. An empty result
    /// means the request lies entirely outside.
    pub fn clip(&self, start: &mut i64, end: &mut i64) -> (known: bool)
        requires
            self.wf(),
        ensures
            known,
            (*final(start) as int, *final(end) as int) == clipped(
                *old(start) as int,
                *old(end) as int,
                self.start(),
                self.end(),
            ),
    {
        clip_to(self.get(), start, end)
    }
}

/// [`TimeBounds::clip`] against bounds that were observed earlier, if any were.
pub fn clip_to(observed: Option<Bounds>, start: &mut i64, end: &mut i64) -> (known: bool)
    ensures
        known == (observed is Some),
        match observed {
            Some(bounds) => (*final(start) as int, *final(end) as int) == clipped(
                *old(start) as int,
                *old(end) as int,
                bounds.start as int,
                bounds.end as int,
            ),
            None => *final(start) == *old(start) && *final(end) == *old(end),
        },
{
    match observed {
        None => false,
        Some(bounds) => {
            if *start > bounds.end || *end < bounds.start {
                *start = bounds.start;
                *end = bounds.start;
                return true;
            }
            if *start < bounds.start {
                *start = bounds.start;
            }
            if bounds.end < *end {
                *end = bounds.end;
            }
            if *end < *start {
                *end = *start;
            }
            true
        },
    }
}

/// What is kept of the range `held_start..held_end` when `start..end` is
/// written into a buffer of `capacity` frames.
///
/// Nothing, if time went backwards: the writer restarted, and nothing held is
/// meaningful any more. Otherwise everything that still fits.
pub open spec fn kept(held_start: int, held_end: int, capacity: int, start: int, end: int) -> (
    int,
    int,
) {
    if start < held_end {
        (start, start)
    } else if end - held_start > capacity {
        (
            end - capacity,
            if end - capacity < held_end {
                held_end
            } else {
                end - capacity
            },
        )
    } else {
        (held_start, held_end)
    }
}

/// Sample `frame` of channel `channel` of what is written: silence where the
/// source has no such channel or ran short of frames.
pub open spec fn supplied<T>(source: Seq<&[T]>, channel: int, frame: int, silence: T) -> T {
    if channel < source.len() && frame < source[channel]@.len() {
        source[channel]@[frame]
    } else {
        silence
    }
}

/// `offset` frames after the start of a span lies inside it exactly when it is
/// smaller than the span's length; a time up to a capacity before the start
/// comes round to the far side.
proof fn lemma_distance(distance: int, capacity: int)
    requires
        0 < capacity,
        -capacity <= distance < capacity,
    ensures
        distance % capacity == (if distance < 0 {
            distance + capacity
        } else {
            distance
        }),
{
    if distance < 0 {
        if distance == -capacity {
            lemma_mod_add_multiples_vanish(distance, capacity);
            lemma_small_mod(0, capacity as nat);
        } else {
            lemma_mod_add_multiples_vanish(distance, capacity);
            lemma_small_mod((distance + capacity) as nat, capacity as nat);
        }
    } else {
        lemma_small_mod(distance as nat, capacity as nat);
    }
}

/// How far the slot of time `t` lies after the slot of `origin`, going round.
proof fn lemma_slot_distance(t: int, origin: int, capacity: int)
    requires
        0 < capacity,
    ensures
        0 <= t % capacity < capacity,
        0 <= origin % capacity < capacity,
        (t - origin) % capacity == (if t % capacity < origin % capacity {
            t % capacity - origin % capacity + capacity
        } else {
            t % capacity - origin % capacity
        }),
{
    lemma_mod_bound(t, capacity);
    lemma_mod_bound(origin, capacity);
    lemma_sub_mod_noop(t, origin, capacity);
    lemma_distance(t % capacity - origin % capacity, capacity);
}

/// The slots of a non-empty span no longer than the buffer either run straight
/// or wrap round once.
proof fn lemma_span(from: int, to: int, capacity: int)
    requires
        0 < capacity,
        from <= to <= from + capacity,
    ensures
        0 <= from % capacity < capacity,
        0 <= to % capacity < capacity,
        from < to && from % capacity < to % capacity ==> to - from == to % capacity - from
            % capacity,
        from < to && from % capacity >= to % capacity ==> to - from == capacity - from % capacity
            + to % capacity,
{
    lemma_slot_distance(to, from, capacity);
    if to - from < capacity {
        lemma_distance(to - from, capacity);
    } else {
        lemma_mod_add_multiples_vanish(from, capacity);
    }
}

/// No plane reaches further than a machine word counts.
proof fn lemma_reach<T>(plane: &[T])
    ensures
        plane@.len() <= usize::MAX,
{
    assert(plane.len() == plane@.len());
}

/// How far `to` lies after `from`.
fn distance(from: i64, to: i64) -> (distance: i128)
    ensures
        distance == to - from,
{
    to as i128 - from as i128
}

/// How many frames there are from `from` to `to`, as far as a machine word
/// counts them.
fn frames_between(from: i64, to: i64) -> (frames: usize)
    requires
        from <= to,
    ensures
        frames == (if to - from <= usize::MAX {
            to - from
        } else {
            usize::MAX as int
        }),
{
    let frames: i128 = distance(from, to);
    if frames <= usize::MAX as i128 {
        frames as usize
    } else {
        usize::MAX
    }
}

/// A sample-time-indexed circular buffer, planar.
///
/// The writer restates what it is about to overwrite before it does so, and the
/// reader only touches frames that the bounds say are held.
pub struct Ring<T> {
    channels: usize,
    capacity: usize,
    silence: T,
    /// One plane of `capacity` slots per channel.
    planes: Vec<Vec<T>>,
    bounds: TimeBounds,
}

impl<T: Copy> Ring<T> {
    pub closed spec fn wf(self) -> bool {
        &&& 0 < self.channels
        &&& 0 < self.capacity <= i64::MAX
        &&& self.planes@.len() == self.channels
        &&& forall|c: int|
            #![trigger self.planes@[c]]
            0 <= c < self.channels ==> self.planes@[c]@.len() == self.capacity
        &&& self.bounds.wf()
        &&& self.start() <= self.end()
        &&& self.end() - self.start() <= self.capacity
    }

    pub closed spec fn channel_count(self) -> int {
        self.channels as int
    }

    pub closed spec fn frames(self) -> int {
        self.capacity as int
    }

    pub closed spec fn quiet(self) -> T {
        self.silence
    }

    /// The first sample time held.
    pub closed spec fn start(self) -> int {
        self.bounds.start()
    }

    /// One past the last sample time held.
    pub closed spec fn end(self) -> int {
        self.bounds.end()
    }

    /// What is stored for sample time `t`. Meaningful inside the held range.
    pub closed spec fn sample(self, channel: int, t: int) -> T {
        self.planes@[channel]@[t % self.capacity as int]
    }

    /// What a reader hears on `channel` at `t` who found `low..high` held.
    pub open spec fn heard(self, low: int, high: int, channel: int, t: int) -> T {
        if channel < self.channel_count() && low <= t < high {
            self.sample(channel, t)
        } else {
            self.quiet()
        }
    }

    /// `after` is what this ring is once `source` was stored at `start..end`:
    /// what is kept of the old range, then silence where nobody wrote, then the
    /// source.
    pub open spec fn stored(self, source: Seq<&[T]>, start: int, end: int, after: Self) -> bool {
        let (from, written) = kept(self.start(), self.end(), self.frames(), start, end);
        &&& after.channel_count() == self.channel_count()
        &&& after.frames() == self.frames()
        &&& after.quiet() == self.quiet()
        &&& after.start() == from
        &&& after.end() == end
        &&& forall|channel: int, t: int|
            #![trigger after.sample(channel, t)]
            0 <= channel < after.channel_count() && from <= t < end ==> after.sample(channel, t)
                == (if t < written {
                self.sample(channel, t)
            } else if t < start {
                self.quiet()
            } else {
                supplied(source, channel, t - start, self.quiet())
            })
    }

    /// `capacity` is in frames. Sized generously: it is what absorbs drift.
    pub fn new(channels: usize, capacity: usize, silence: T) -> (ring: Self)
        requires
            channels > 0,
            capacity > 0,
            capacity <= i64::MAX,
        ensures
            ring.wf(),
            ring.channel_count() == channels,
            ring.frames() == capacity,
            ring.quiet() == silence,
            ring.start() == 0,
            ring.end() == 0,
    {
        let mut planes: Vec<Vec<T>> = Vec::new();
        while planes.len() < channels
            invariant
                planes@.len() <= channels,
                forall|c: int|
                    #![trigger planes@[c]]
                    0 <= c < planes@.len() ==> planes@[c]@.len() == capacity,
            decreases channels - planes@.len(),
        {
            let plane: Vec<T> = vec![silence; capacity];
            planes.push(plane);
        }
        Ring { channels, capacity, silence, planes, bounds: TimeBounds::new() }
    }

    pub fn channels(&self) -> (channels: usize)
        ensures
            channels == self.channel_count(),
    {
        self.channels
    }

    pub fn capacity(&self) -> (capacity: usize)
        ensures
            capacity == self.frames(),
    {
        self.capacity
    }

    /// The value that stands for silence.
    pub fn silent_sample(&self) -> (sample: T)
        ensures
            sample == self.quiet(),
    {
        self.silence
    }

    /// The sample-time range currently held.
    pub fn valid_range(&self) -> (range: Option<(i64, i64)>)
        requires
            self.wf(),
        ensures
            range matches Some((start, end)) && start == self.start() && end == self.end(),
    {
        match self.bounds.get() {
            Some(bounds) => Some((bounds.start, bounds.end)),
            None => None,
        }
    }

    /// The held bounds as a reader observes them.
    pub fn observe(&self) -> (bounds: Option<Bounds>)
        requires
            self.wf(),
        ensures
            bounds is Some,
            bounds->0.start == self.start(),
            bounds->0.end == self.end(),
            bounds->0.end - bounds->0.start <= self.frames(),
    {
        self.bounds.get()
    }

    /// Stores `source` at sample times `start..end`.
    ///
    /// `source` is one slice per channel. Extra channels are ignored; missing
    /// ones are filled with silence, so a mono source into a stereo ring does
    /// not leave the right channel holding stale audio. Frames between what was
    /// held and `start` that nobody wrote are silence too.
    ///
    /// More than the buffer holds is refused, and a write that is refused or
    /// empty changes nothing.
    pub fn write(&mut self, source: &[&[T]], start: i64, end: i64) -> (result: Result<
        (),
        RingError,
    >)
        requires
            old(self).wf(),
        ensures
            final(self).wf(),
            final(self).channel_count() == old(self).channel_count(),
            final(self).frames() == old(self).frames(),
            final(self).quiet() == old(self).quiet(),
            match result {
                Ok(()) => end - start <= old(self).frames(),
                Err(error) => end - start > old(self).frames() && error == RingError::TooMuch,
            },
            result is Err || end <= start ==> *final(self) == *old(self),
            result is Ok && start < end ==> old(self).stored(
                source@,
                start as int,
                end as int,
                *final(self),
            ),
    {
        if end <= start {
            return Ok(());
        }
        if distance(start, end) > self.capacity as i128 {
            return Err(RingError::TooMuch);
        }
        let bounds = self.bounds.current();
        if start < bounds.end {
            // Time went backwards: the writer restarted. Nothing held is
            // meaningful any more.
            self.bounds.set(start, start);
        } else if distance(bounds.start, end) > self.capacity as i128 {
            // About to overwrite the oldest frames; move the start past them
            // before they become garbage rather than after.
            let new_start: i64 = end - self.capacity as i64;
            let new_end: i64 = if new_start < bounds.end {
                bounds.end
            } else {
                new_start
            };
            self.bounds.set(new_start, new_end);
        }
        let last: i64 = self.bounds.current().end;
        if start > last {
            // A gap: frames nobody wrote. Silence them, or the reader finds
            // whatever was there a ring ago.
            self.silence_span(last, start);
        }
        let ghost cleared = *self;
        self.store_span(source, start, end);
        let ghost stored = *self;
        let start_bound: i64 = self.bounds.current().start;
        self.bounds.set(start_bound, end);
        proof {
            let capacity = self.capacity as int;
            let (from, written) = kept(
                old(self).start(),
                old(self).end(),
                old(self).frames(),
                start as int,
                end as int,
            );
            assert forall|channel: int, t: int|
                #![trigger self.sample(channel, t)]
                0 <= channel < self.channel_count() && from <= t < end implies self.sample(
                channel,
                t,
            ) == (if t < written {
                old(self).sample(channel, t)
            } else if t < start {
                old(self).quiet()
            } else {
                supplied(source@, channel, t - start, old(self).quiet())
            }) by {
                lemma_distance(t - start, capacity);
                assert(self.sample(channel, t) == stored.sample(channel, t));
                if t < start {
                    assert(stored.sample(channel, t) == cleared.sample(channel, t));
                }
                if start > written {
                    lemma_distance(t - written, capacity);
                }
            }
        }
        Ok(())
    }

    /// Fills `destination` with sample times `from..to`, silencing whatever the
    /// buffer does not hold.
    pub fn read(&self, destination: &mut [&mut [T]], from: i64, to: i64) -> (result: Result<
        (),
        RingError,
    >)
        requires
            self.wf(),
        ensures
            result is Ok,
            final(destination)@.len() == old(destination)@.len(),
            forall|p: int|
                #![trigger final(destination)@[p]]
                0 <= p < final(destination)@.len() ==> final(destination)@[p]@.len() == old(destination)@[p]@.len() && final(final(destination)@[p])@ == final(old(destination)@[p])@,
            forall|p: int, i: int|
                #![trigger final(destination)@[p]@[i]]
                0 <= p < final(destination)@.len() && 0 <= i < final(destination)@[p]@.len()
                    ==> final(destination)@[p]@[i] == (if i < to - from {
                    self.heard(
                        self.start(),
                        self.end(),
                        p,
                        from + i,
                    )
                } else {
                    old(destination)@[p]@[i]
                }),
    {
        self.read_observed(self.bounds.get(), destination, from, to)
    }

    /// [`Ring::read`] by a reader that observed the bounds a moment ago, or
    /// could not observe them consistently at all.
    pub fn read_observed(
        &self,
        observed: Option<Bounds>,
        destination: &mut [&mut [T]],
        from: i64,
        to: i64,
    ) -> (result: Result<(), RingError>)
        requires
            self.wf(),
            observed matches Some(bounds) ==> bounds.end - bounds.start <= self.frames(),
        ensures
            match result {
                Ok(()) => to <= from || observed is Some,
                Err(error) => from < to && observed is None && error == RingError::CpuOverload,
            },
            final(destination)@.len() == old(destination)@.len(),
            forall|p: int|
                #![trigger final(destination)@[p]]
                0 <= p < final(destination)@.len() ==> final(destination)@[p]@.len() == old(destination)@[p]@.len() && final(final(destination)@[p])@ == final(old(destination)@[p])@,
            forall|p: int, i: int|
                #![trigger final(destination)@[p]@[i]]
                0 <= p < final(destination)@.len() && 0 <= i < final(destination)@[p]@.len()
                    ==> final(destination)@[p]@[i] == (if result is Ok && i < to - from {
                    self.heard(
                        observed->0.start as int,
                        observed->0.end as int,
                        p,
                        from + i,
                    )
                } else {
                    old(destination)@[p]@[i]
                }),
    {
        if to <= from {
            return Ok(());
        }
        let mut start: i64 = from;
        let mut end: i64 = to;
        if !clip_to(observed, &mut start, &mut end) {
            return Err(RingError::CpuOverload);
        }
        // Nothing of the requested range is held.
        if start == end {
            silence_destination(destination, 0, frames_between(from, to), self.silence);
            proof {
                assert forall|p: int|
                    #![trigger destination@[p]]
                    0 <= p < destination@.len() implies destination@[p]@.len() <= usize::MAX by {
                    lemma_reach(destination@[p]);
                }
            }
            return Ok(());
        }
        let leading: usize = frames_between(from, start);
        silence_destination(destination, 0, leading, self.silence);
        let available: usize = (end - start) as usize;
        if available <= usize::MAX - leading {
            let trailing: usize = frames_between(end, to);
            silence_destination(destination, leading + available, trailing, self.silence);
        }
        self.fetch_span(destination, start, end, leading);
        proof {
            assert forall|p: int|
                #![trigger destination@[p]]
                0 <= p < destination@.len() implies destination@[p]@.len() <= usize::MAX by {
                lemma_reach(destination@[p]);
            }
        }
        Ok(())
    }

    fn wrap(&self, sample_time: i64) -> (slot: usize)
        requires
            self.wf(),
        ensures
            slot == sample_time as int % self.capacity as int,
            slot < self.capacity,
    {
        match sample_time.checked_rem_euclid(self.capacity as i64) {
            Some(slot) => slot as usize,
            None => 0,
        }
    }

    /// Silences sample times `from..to` on every channel.
    fn silence_span(&mut self, from: i64, to: i64)
        requires
            old(self).wf(),
            from < to,
            to - from <= old(self).capacity,
        ensures
            final(self).wf(),
            final(self).channels == old(self).channels,
            final(self).capacity == old(self).capacity,
            final(self).silence == old(self).silence,
            final(self).bounds == old(self).bounds,
            forall|c: int, t: int|
                #![trigger final(self).sample(c, t)]
                0 <= c < final(self).channels ==> final(self).sample(c, t) == (if ((t - from)
                    % final(self).capacity as int) < to - from {
                    final(self).silence
                } else {
                    old(self).sample(c, t)
                }),
    {
        let offset0: usize = self.wrap(from);
        let offset1: usize = self.wrap(to);
        proof {
            lemma_span(from as int, to as int, self.capacity as int);
        }
        if offset0 < offset1 {
            self.silence(offset0, offset1 - offset0);
        } else {
            self.silence(offset0, self.capacity - offset0);
            self.silence(0, offset1);
        }
        proof {
            assert forall|c: int, t: int|
                #![trigger self.sample(c, t)]
                0 <= c < self.channels implies self.sample(c, t) == (if ((t - from)
                % self.capacity as int) < to - from {
                self.silence
            } else {
                old(self).sample(c, t)
            }) by {
                lemma_slot_distance(t, from as int, self.capacity as int);
            }
        }
    }

    /// Stores the first frames of `source` at sample times `from..to`.
    fn store_span(&mut self, source: &[&[T]], from: i64, to: i64)
        requires
            old(self).wf(),
            from < to,
            to - from <= old(self).capacity,
        ensures
            final(self).wf(),
            final(self).channels == old(self).channels,
            final(self).capacity == old(self).capacity,
            final(self).silence == old(self).silence,
            final(self).bounds == old(self).bounds,
            forall|c: int, t: int|
                #![trigger final(self).sample(c, t)]
                0 <= c < final(self).channels ==> final(self).sample(c, t) == ({
                    let frame = (t - from) % final(self).capacity as int;
                    if frame < to - from {
                        supplied(source@, c, frame, final(self).silence)
                    } else {
                        old(self).sample(c, t)
                    }
                }),
    {
        let offset0: usize = self.wrap(from);
        let offset1: usize = self.wrap(to);
        proof {
            lemma_span(from as int, to as int, self.capacity as int);
        }
        if offset0 < offset1 {
            self.store(source, 0, offset0, offset1 - offset0);
        } else {
            let count: usize = self.capacity - offset0;
            self.store(source, 0, offset0, count);
            self.store(source, count, 0, offset1);
        }
        proof {
            assert forall|c: int, t: int|
                #![trigger self.sample(c, t)]
                0 <= c < self.channels implies self.sample(c, t) == ({
                let frame = (t - from) % self.capacity as int;
                if frame < to - from {
                    supplied(source@, c, frame, self.silence)
                } else {
                    old(self).sample(c, t)
                }
            }) by {
                lemma_slot_distance(t, from as int, self.capacity as int);
            }
        }
    }

    fn silence(&mut self, offset: usize, count: usize)
        requires
            old(self).wf(),
            offset + count <= old(self).capacity,
        ensures
            final(self).wf(),
            final(self).channels == old(self).channels,
            final(self).capacity == old(self).capacity,
            final(self).silence == old(self).silence,
            final(self).bounds == old(self).bounds,
            forall|c: int, k: int|
                #![trigger final(self).planes@[c]@[k]]
                0 <= c < final(self).channels && 0 <= k < final(self).capacity ==> final(self).planes@[c]@[k] == (if offset <= k < offset + count {
                    final(self).silence
                } else {
                    old(self).planes@[c]@[k]
                }),
    {
        self.store(&[], 0, offset, count);
    }

    fn store(&mut self, source: &[&[T]], source_offset: usize, offset: usize, count: usize)
        requires
            old(self).wf(),
            offset + count <= old(self).capacity,
            source_offset + count <= usize::MAX,
        ensures
            final(self).wf(),
            final(self).channels == old(self).channels,
            final(self).capacity == old(self).capacity,
            final(self).silence == old(self).silence,
            final(self).bounds == old(self).bounds,
            forall|c: int, k: int|
                #![trigger final(self).planes@[c]@[k]]
                0 <= c < final(self).channels && 0 <= k < final(self).capacity ==> final(self).planes@[c]@[k] == (if offset <= k < offset + count {
                    supplied(source@, c, source_offset + k - offset, final(self).silence)
                } else {
                    old(self).planes@[c]@[k]
                }),
    {
        let mut channel: usize = 0;
        while channel < self.channels
            invariant
                channel <= self.channels,
                self.wf(),
                offset + count <= self.capacity,
                source_offset + count <= usize::MAX,
                self.channels == old(self).channels,
                self.capacity == old(self).capacity,
                self.silence == old(self).silence,
                self.bounds == old(self).bounds,
                forall|c: int, k: int|
                    #![trigger self.planes@[c]@[k]]
                    0 <= c < self.channels && 0 <= k < self.capacity ==> self.planes@[c]@[k] == (if c
                        < channel && offset <= k < offset + count {
                        supplied(source@, c, source_offset + k - offset, self.silence)
                    } else {
                        old(self).planes@[c]@[k]
                    }),
            decreases self.channels - channel,
        {
            let mut frame: usize = 0;
            while frame < count
                invariant
                    channel < self.channels,
                    frame <= count,
                    self.wf(),
                    offset + count <= self.capacity,
                    source_offset + count <= usize::MAX,
                    self.channels == old(self).channels,
                    self.capacity == old(self).capacity,
                    self.silence == old(self).silence,
                    self.bounds == old(self).bounds,
                    forall|c: int, k: int|
                        #![trigger self.planes@[c]@[k]]
                        0 <= c < self.channels && 0 <= k < self.capacity ==> self.planes@[c]@[k]
                            == (if (c < channel && offset <= k < offset + count) || (c == channel
                            && offset <= k < offset + frame) {
                            supplied(source@, c, source_offset + k - offset, self.silence)
                        } else {
                            old(self).planes@[c]@[k]
                        }),
                decreases count - frame,
            {
                // Whatever the source ran short of is silence, not history.
                let value: T = if channel < source.len() && source_offset + frame
                    < source[channel].len() {
                    source[channel][source_offset + frame]
                } else {
                    self.silence
                };
                self.planes[channel][offset + frame] = value;
                frame += 1;
            }
            channel += 1;
        }
    }

    /// Copies sample times `from..to` to frames from `offset` on.
    fn fetch_span(&self, destination: &mut [&mut [T]], from: i64, to: i64, offset: usize)
        requires
            self.wf(),
            from < to,
            to - from <= self.capacity,
        ensures
            final(destination)@.len() == old(destination)@.len(),
            forall|p: int|
                #![trigger final(destination)@[p]]
                0 <= p < final(destination)@.len() ==> final(destination)@[p]@.len() == old(destination)@[p]@.len() && final(final(destination)@[p])@ == final(old(destination)@[p])@,
            forall|p: int, i: int|
                #![trigger final(destination)@[p]@[i]]
                0 <= p < final(destination)@.len() && 0 <= i < final(destination)@[p]@.len()
                    ==> final(destination)@[p]@[i] == (if offset <= i < offset + (to - from) {
                    if p < self.channels {
                        self.sample(p, from + (i - offset))
                    } else {
                        self.silence
                    }
                } else {
                    old(destination)@[p]@[i]
                }),
    {
        let index_start: usize = self.wrap(from);
        let index_end: usize = self.wrap(to);
        proof {
            lemma_span(from as int, to as int, self.capacity as int);
            assert forall|t: int| from <= t < to implies #[trigger] (t % self.capacity as int) == (
            if index_start + (t - from) < self.capacity {
                index_start + (t - from)
            } else {
                index_start + (t - from) - self.capacity
            }) by {
                lemma_slot_distance(t, from as int, self.capacity as int);
                lemma_distance(t - from, self.capacity as int);
            }
        }
        if index_start < index_end {
            self.fetch(destination, index_start, offset, index_end - index_start);
        } else {
            let first: usize = self.capacity - index_start;
            self.fetch(destination, index_start, offset, first);
            if index_end > 0 && first <= usize::MAX - offset {
                self.fetch(destination, 0, offset + first, index_end);
            }
        }
        proof {
            assert forall|p: int|
                #![trigger destination@[p]]
                0 <= p < destination@.len() implies destination@[p]@.len() <= usize::MAX by {
                lemma_reach(destination@[p]);
            }
        }
    }

    fn fetch(&self, destination: &mut [&mut [T]], source_offset: usize, offset: usize, count: usize)
        requires
            self.wf(),
            source_offset + count <= self.capacity,
        ensures
            final(destination)@.len() == old(destination)@.len(),
            forall|p: int|
                #![trigger final(destination)@[p]]
                0 <= p < final(destination)@.len() ==> final(destination)@[p]@.len() == old(destination)@[p]@.len() && final(final(destination)@[p])@ == final(old(destination)@[p])@,
            forall|p: int, i: int|
                #![trigger final(destination)@[p]@[i]]
                0 <= p < final(destination)@.len() && 0 <= i < final(destination)@[p]@.len()
                    ==> final(destination)@[p]@[i] == (if offset <= i < offset + count {
                    if p < self.channels {
                        self.planes@[p]@[source_offset + i - offset]
                    } else {
                        self.silence
                    }
                } else {
                    old(destination)@[p]@[i]
                }),
    {
        let mut plane: usize = 0;
        while plane < destination.len()
            invariant
                plane <= destination@.len(),
                self.wf(),
                source_offset + count <= self.capacity,
                destination@.len() == old(destination)@.len(),
                forall|p: int|
                    #![trigger destination@[p]]
                    0 <= p < destination@.len() ==> destination@[p]@.len() == old(destination)@[p]@.len() && final(destination@[p])@ == final(old(destination)@[p])@,
                forall|p: int, i: int|
                    #![trigger destination@[p]@[i]]
                    0 <= p < destination@.len() && 0 <= i < destination@[p]@.len()
                        ==> destination@[p]@[i] == (if p < plane && offset <= i < offset + count {
                        if p < self.channels {
                            self.planes@[p]@[source_offset + i - offset]
                        } else {
                            self.silence
                        }
                    } else {
                        old(destination)@[p]@[i]
                    }),
            decreases destination@.len() - plane,
        {
            let mut frame: usize = 0;
            while frame < count && offset < destination[plane].len() && frame < destination[plane].len()
                - offset
                invariant
                    plane < destination@.len(),
                    frame <= count,
                    self.wf(),
                    source_offset + count <= self.capacity,
                    destination@.len() == old(destination)@.len(),
                    forall|p: int|
                        #![trigger destination@[p]]
                        0 <= p < destination@.len() ==> destination@[p]@.len() == old(destination)@[p]@.len() && final(destination@[p])@ == final(old(destination)@[p])@,
                    forall|p: int, i: int|
                        #![trigger destination@[p]@[i]]
                        0 <= p < destination@.len() && 0 <= i < destination@[p]@.len()
                            ==> destination@[p]@[i] == (if (p < plane && offset <= i < offset
                            + count) || (p == plane && offset <= i < offset + frame) {
                            if p < self.channels {
                                self.planes@[p]@[source_offset + i - offset]
                            } else {
                                self.silence
                            }
                        } else {
                            old(destination)@[p]@[i]
                        }),
                decreases count - frame,
            {
                // The destination may want more channels than the ring holds.
                let value: T = if plane < self.channels {
                    self.planes[plane][source_offset + frame]
                } else {
                    self.silence
                };
                destination[plane][offset + frame] = value;
                frame += 1;
            }
            plane += 1;
        }
    }
}

/// Silences frames `offset..offset + count` of every plane, as far as each
/// plane reaches.
pub fn silence_destination<T: Copy>(
    destination: &mut [&mut [T]],
    offset: usize,
    count: usize,
    silence: T,
)
    ensures
        final(destination)@.len() == old(destination)@.len(),
        forall|p: int|
            #![trigger final(destination)@[p]]
            0 <= p < final(destination)@.len() ==> final(destination)@[p]@.len() == old(destination)@[p]@.len() && final(final(destination)@[p])@ == final(old(destination)@[p])@,
        forall|p: int, i: int|
            #![trigger final(destination)@[p]@[i]]
            0 <= p < final(destination)@.len() && 0 <= i < final(destination)@[p]@.len() ==> final(destination)@[p]@[i] == (if offset <= i < offset + count {
                silence
            } else {
                old(destination)@[p]@[i]
            }),
{
    let mut plane: usize = 0;
    while plane < destination.len()
        invariant
            plane <= destination@.len(),
            destination@.len() == old(destination)@.len(),
            forall|p: int|
                #![trigger destination@[p]]
                0 <= p < destination@.len() ==> destination@[p]@.len() == old(destination)@[p]@.len() && final(destination@[p])@ == final(old(destination)@[p])@,
            forall|p: int, i: int|
                #![trigger destination@[p]@[i]]
                0 <= p < destination@.len() && 0 <= i < destination@[p]@.len()
                    ==> destination@[p]@[i] == (if p < plane && offset <= i < offset + count {
                    silence
                } else {
                    old(destination)@[p]@[i]
                }),
        decreases destination@.len() - plane,
    {
        let mut frame: usize = 0;
        while frame < count && offset < destination[plane].len() && frame < destination[plane].len()
            - offset
            invariant
                plane < destination@.len(),
                frame <= count,
                destination@.len() == old(destination)@.len(),
                forall|p: int|
                    #![trigger destination@[p]]
                    0 <= p < destination@.len() ==> destination@[p]@.len() == old(destination)@[p]@.len() && final(destination@[p])@ == final(old(destination)@[p])@,
                forall|p: int, i: int|
                    #![trigger destination@[p]@[i]]
                    0 <= p < destination@.len() && 0 <= i < destination@[p]@.len()
                        ==> destination@[p]@[i] == (if (p < plane && offset <= i < offset + count)
                        || (p == plane && offset <= i < offset + frame) {
                        silence
                    } else {
                        old(destination)@[p]@[i]
                    }),
            decreases count - frame,
        {
            destination[plane][offset + frame] = silence;
            frame += 1;
        }
        plane += 1;
    }
}

/// Silences every plane from end to end.
pub fn silence_planes<T: Copy>(planes: &mut [&mut [T]], silence: T)
    ensures
        final(planes)@.len() == old(planes)@.len(),
        forall|p: int|
            #![trigger final(planes)@[p]]
            0 <= p < final(planes)@.len() ==> final(planes)@[p]@.len() == old(planes)@[p]@.len()
                && final(final(planes)@[p])@ == final(old(planes)@[p])@,
        forall|p: int, i: int|
            #![trigger final(planes)@[p]@[i]]
            0 <= p < final(planes)@.len() && 0 <= i < final(planes)@[p]@.len() ==> final(planes)@[p]@[i]
                == silence,
{
    let mut plane: usize = 0;
    while plane < planes.len()
        invariant
            plane <= planes@.len(),
            planes@.len() == old(planes)@.len(),
            forall|p: int|
                #![trigger planes@[p]]
                0 <= p < planes@.len() ==> planes@[p]@.len() == old(planes)@[p]@.len() && final(
                    planes@[p])@ == final(old(planes)@[p])@,
            forall|p: int, i: int|
                #![trigger planes@[p]@[i]]
                0 <= p < plane && 0 <= i < planes@[p]@.len() ==> planes@[p]@[i] == silence,
        decreases planes@.len() - plane,
    {
        let mut frame: usize = 0;
        while frame < planes[plane].len()
            invariant
                plane < planes@.len(),
                frame <= planes@[plane as int]@.len(),
                planes@.len() == old(planes)@.len(),
                forall|p: int|
                    #![trigger planes@[p]]
                    0 <= p < planes@.len() ==> planes@[p]@.len() == old(planes)@[p]@.len()
                        && final(planes@[p])@ == final(old(planes)@[p])@,
                forall|p: int, i: int|
                    #![trigger planes@[p]@[i]]
                    0 <= p < plane && 0 <= i < planes@[p]@.len() ==> planes@[p]@[i] == silence,
                forall|i: int|
                    #![trigger planes@[plane as int]@[i]]
                    0 <= i < frame ==> planes@[plane as int]@[i] == silence,
            decreases planes@[plane as int]@.len() - frame,
        {
            planes[plane][frame] = silence;
            frame += 1;
        }
        plane += 1;
    }
}

/// What is written is what is read back: every frame of the span just stored is
/// heard as the source supplied it.
pub proof fn law_written_frames_are_heard<T: Copy>(
    before: Ring<T>,
    source: Seq<&[T]>,
    start: int,
    end: int,
    after: Ring<T>,
    channel: int,
    t: int,
)
    requires
        before.wf(),
        start < end <= start + before.frames(),
        before.stored(source, start, end, after),
        0 <= channel < before.channel_count(),
        start <= t < end,
    ensures
        after.heard(after.start(), after.end(), channel, t) == supplied(
            source,
            channel,
            t - start,
            before.quiet(),
        ),
{
    assert(after.sample(channel, t) == after.sample(channel, t));
}

/// A writer whose time moves forward disturbs nothing that still fits: what was
/// heard before the write is heard after it, for every time that is at most a
/// capacity old.
pub proof fn law_recent_frames_survive_a_write<T: Copy>(
    before: Ring<T>,
    source: Seq<&[T]>,
    start: int,
    end: int,
    after: Ring<T>,
    channel: int,
    t: int,
)
    requires
        before.wf(),
        before.end() <= start < end,
        before.stored(source, start, end, after),
        0 <= channel < before.channel_count(),
        end - before.frames() <= t < start,
    ensures
        after.heard(after.start(), after.end(), channel, t) == before.heard(
            before.start(),
            before.end(),
            channel,
            t,
        ),
{
    assert(after.sample(channel, t) == after.sample(channel, t));
}

/// When the writer's time goes backwards nothing from before is heard again.
pub proof fn law_a_restart_forgets_everything<T: Copy>(
    before: Ring<T>,
    source: Seq<&[T]>,
    start: int,
    end: int,
    after: Ring<T>,
    channel: int,
    t: int,
)
    requires
        before.wf(),
        start < before.end(),
        start < end <= start + before.frames(),
        before.stored(source, start, end, after),
        t < start || end <= t,
    ensures
        after.heard(after.start(), after.end(), channel, t) == before.quiet(),
{
}

/// The range held after a write ends where the write does, and never exceeds the
/// capacity. It starts at the write where time went backwards; otherwise it
/// starts where it did, as far as that still fits.
pub proof fn law_the_held_range_follows_the_writer<T: Copy>(
    before: Ring<T>,
    source: Seq<&[T]>,
    start: int,
    end: int,
    after: Ring<T>,
)
    requires
        before.wf(),
        start < end <= start + before.frames(),
        before.stored(source, start, end, after),
    ensures
        after.end() == end,
        after.start() == (if start < before.end() {
            start
        } else if before.start() < end - before.frames() {
            end - before.frames()
        } else {
            before.start()
        }),
        after.end() - after.start() <= after.frames(),
{
}

/// One write that was accepted and not empty.
pub struct Written<'a, T> {
    pub source: Seq<&'a [T]>,
    pub start: int,
    pub end: int,
}

/// `rings` is a ring that holds nothing, then that ring after each of `writes`.
pub open spec fn are_written<'a, T: Copy>(
    rings: Seq<Ring<T>>,
    writes: Seq<Written<'a, T>>,
) -> bool {
    &&& rings.len() == writes.len() + 1
    &&& rings[0].wf()
    &&& rings[0].start() == rings[0].end()
    &&& forall|i: int|
        #![trigger writes[i]]
        0 <= i < writes.len() ==> {
            &&& writes[i].start < writes[i].end <= writes[i].start + rings[i].frames()
            &&& rings[i].stored(writes[i].source, writes[i].start, writes[i].end, rings[i + 1])
        }
}

/// Where the last of some writes ends; `begun` where there is none.
pub open spec fn written_through<'a, T>(writes: Seq<Written<'a, T>>, begun: int) -> int {
    if writes.len() == 0 {
        begun
    } else {
        writes.last().end
    }
}

/// What the last write that covers time `t` supplied for a channel: silence
/// where none does. A write that goes back in time makes those before it void.
pub open spec fn last_word<'a, T>(
    writes: Seq<Written<'a, T>>,
    begun: int,
    channel: int,
    t: int,
    silence: T,
) -> T
    decreases writes.len(),
{
    if writes.len() == 0 {
        silence
    } else {
        let write = writes.last();
        let earlier = writes.drop_last();
        if write.start <= t < write.end {
            supplied(write.source, channel, t - write.start, silence)
        } else if write.start < written_through(earlier, begun) {
            silence
        } else {
            last_word(earlier, begun, channel, t, silence)
        }
    }
}

/// Nothing was said about a time that the writer has not reached.
proof fn lemma_nothing_ahead<'a, T>(
    writes: Seq<Written<'a, T>>,
    begun: int,
    channel: int,
    t: int,
    silence: T,
)
    requires
        forall|i: int| 0 <= i < writes.len() ==> (#[trigger] writes[i]).start < writes[i].end,
        written_through(writes, begun) <= t,
    ensures
        last_word(writes, begun, channel, t, silence) == silence,
    decreases writes.len(),
{
    if writes.len() > 0 {
        let write = writes.last();
        assert(write == writes[writes.len() - 1]);
        let earlier = writes.drop_last();
        if write.start >= written_through(earlier, begun) {
            lemma_nothing_ahead(earlier, begun, channel, t, silence);
        }
    }
}

/// A reader hears the last word: inside the range held, what the last write that
/// covers a time supplied, or silence where that write supplied no such channel
/// or sample and where nobody wrote; outside it, silence.
pub proof fn law_a_reader_hears_the_last_word<'a, T: Copy>(
    rings: Seq<Ring<T>>,
    writes: Seq<Written<'a, T>>,
    channel: int,
    t: int,
)
    requires
        are_written(rings, writes),
        0 <= channel,
    ensures
        ({
            let ring = rings.last();
            &&& ring.end() == written_through(writes, rings[0].end())
            &&& ring.end() - ring.start() <= ring.frames()
            &&& ring.frames() == rings[0].frames()
            &&& ring.channel_count() == rings[0].channel_count()
            &&& ring.quiet() == rings[0].quiet()
            &&& ring.heard(ring.start(), ring.end(), channel, t) == (if channel
                < ring.channel_count() && ring.start() <= t < ring.end() {
                last_word(writes, rings[0].end(), channel, t, ring.quiet())
            } else {
                ring.quiet()
            })
        }),
    decreases writes.len(),
{
    if writes.len() > 0 {
        let ring = rings.last();
        let before = rings[rings.len() - 2];
        let write = writes.last();
        let earlier = writes.drop_last();
        let begun = rings[0].end();
        assert(write == writes[writes.len() - 1]);
        assert(before.stored(write.source, write.start, write.end, ring));
        assert(rings.drop_last().last() == before);
        assert forall|i: int|
            #![trigger earlier[i]]
            0 <= i < earlier.len() implies {
            &&& earlier[i].start < earlier[i].end <= earlier[i].start + rings.drop_last()[i].frames()
            &&& rings.drop_last()[i].stored(
                earlier[i].source,
                earlier[i].start,
                earlier[i].end,
                rings.drop_last()[i + 1],
            )
        } by {
            assert(earlier[i] == writes[i]);
        }
        law_a_reader_hears_the_last_word(rings.drop_last(), earlier, channel, t);
        if before.end() <= t {
            lemma_nothing_ahead(earlier, begun, channel, t, before.quiet());
        }
        if channel < ring.channel_count() && ring.start() <= t < ring.end() {
            assert(ring.sample(channel, t) == ring.heard(ring.start(), ring.end(), channel, t));
        }
    }
}

// --- what holds of writing and reading --------------------------------------

/// A fresh ring has the shape that was asked for, holds nothing and is read as
/// silence.
pub proof fn law_a_fresh_ring_is_silent<T: Copy>(
    channels: usize,
    capacity: usize,
    silence: T,
    ring: Ring<T>,
    planes: usize,
    frames: usize,
    range: Option<(i64, i64)>,
    destination: &mut [&mut [T]],
    from: i64,
    to: i64,
    result: Result<(), RingError>,
    p: int,
    i: int,
)
    requires
        call_ensures(Ring::<T>::new, (channels, capacity, silence), ring),
        call_ensures(Ring::<T>::channels, (&ring,), planes),
        call_ensures(Ring::<T>::capacity, (&ring,), frames),
        call_ensures(Ring::<T>::valid_range, (&ring,), range),
        call_ensures(Ring::<T>::read, (&ring, destination, from, to), result),
        0 <= p < final(destination)@.len(),
        0 <= i < final(destination)@[p]@.len(),
    ensures
        planes == channels,
        frames == capacity,
        range matches Some((start, end)) && start == end,
        result is Ok,
        final(destination)@[p]@[i] == (if i < to - from {
            silence
        } else {
            old(destination)@[p]@[i]
        }),
{
    assert(final(destination)@[p]@[i] == final(destination)@[p]@[i]);
}

/// What was written at a time is read at that time: channel by channel, silence
/// where the source had none. Times that are not held are silence too, and what
/// is beyond the times asked for is left.
pub proof fn law_what_is_written_is_read<T: Copy>(
    ring: &mut Ring<T>,
    source: &[&[T]],
    start: i64,
    end: i64,
    written: Result<(), RingError>,
    range: Option<(i64, i64)>,
    channels: usize,
    quiet: T,
    destination: &mut [&mut [T]],
    from: i64,
    to: i64,
    read: Result<(), RingError>,
    p: int,
    i: int,
)
    requires
        old(ring).wf(),
        start < end,
        call_ensures(Ring::<T>::channels, (&*old(ring),), channels),
        call_ensures(Ring::<T>::silent_sample, (&*old(ring),), quiet),
        call_ensures(Ring::<T>::write, (ring, source, start, end), written),
        written is Ok,
        call_ensures(Ring::<T>::valid_range, (&*final(ring),), range),
        call_ensures(Ring::<T>::read, (&*final(ring), destination, from, to), read),
        0 <= p < final(destination)@.len(),
        0 <= i < final(destination)@[p]@.len(),
    ensures
        read is Ok,
        range is Some && (range->0).0 <= start && (range->0).1 == end,
        i >= to - from ==> final(destination)@[p]@[i] == old(destination)@[p]@[i],
        i < to - from && start <= from + i < end ==> final(destination)@[p]@[i] == (if p < channels
            && p < source@.len() && from + i - start < source@[p]@.len() {
            source@[p]@[from + i - start]
        } else {
            quiet
        }),
        i < to - from && !((range->0).0 <= from + i < (range->0).1) ==> final(destination)@[p]@[i]
            == quiet,
{
    assert(final(destination)@[p]@[i] == final(destination)@[p]@[i]);
    if p < final(ring).channel_count() && start <= from + i < end {
        assert(final(ring).sample(p, from + i) == final(ring).sample(p, from + i));
    }
}

/// Two writes in a row: where time went on, the earlier frames are still read as
/// long as a capacity reaches back to them, and the gap is silence; where it
/// went back, only the later write is.
pub proof fn law_an_earlier_write_is_read_as_long_as_it_fits<T: Copy>(
    ring: &mut Ring<T>,
    first: &[&[T]],
    a: i64,
    b: i64,
    begun: Result<(), RingError>,
    then: &mut Ring<T>,
    second: &[&[T]],
    c: i64,
    d: i64,
    ended: Result<(), RingError>,
    channels: usize,
    capacity: usize,
    quiet: T,
    destination: &mut [&mut [T]],
    from: i64,
    to: i64,
    read: Result<(), RingError>,
    p: int,
    i: int,
)
    requires
        old(ring).wf(),
        a < b && c < d,
        call_ensures(Ring::<T>::channels, (&*old(ring),), channels),
        call_ensures(Ring::<T>::capacity, (&*old(ring),), capacity),
        call_ensures(Ring::<T>::silent_sample, (&*old(ring),), quiet),
        call_ensures(Ring::<T>::write, (ring, first, a, b), begun),
        begun is Ok,
        *old(then) == *final(ring),
        call_ensures(Ring::<T>::write, (then, second, c, d), ended),
        ended is Ok,
        call_ensures(Ring::<T>::read, (&*final(then), destination, from, to), read),
        0 <= p < final(destination)@.len(),
        0 <= i < final(destination)@[p]@.len(),
        i < to - from,
        !(c <= from + i < d),
    ensures
        ({
            let t = from + i;
            let played = final(destination)@[p]@[i];
            &&& b <= c && a <= t < b && d - capacity <= t ==> played == (if p < channels && p
                < first@.len() && t - a < first@[p]@.len() {
                first@[p]@[t - a]
            } else {
                quiet
            })
            &&& b <= c && (b <= t < c || t < d - capacity || t >= d) ==> played == quiet
            &&& c < b ==> played == quiet
        }),
{
    assert(final(destination)@[p]@[i] == final(destination)@[p]@[i]);
    let t = from + i;
    if 0 <= p < final(ring).channel_count() {
        assert(final(ring).sample(p, t) == final(ring).sample(p, t));
        assert(final(then).sample(p, t) == final(then).sample(p, t));
    }
}

/// A write is refused exactly where it is longer than the ring, and then changes
/// nothing.
pub proof fn law_only_what_fits_is_written<T: Copy>(
    ring: &mut Ring<T>,
    source: &[&[T]],
    start: i64,
    end: i64,
    written: Result<(), RingError>,
    capacity: usize,
)
    requires
        old(ring).wf(),
        call_ensures(Ring::<T>::capacity, (&*old(ring),), capacity),
        call_ensures(Ring::<T>::write, (ring, source, start, end), written),
    ensures
        written is Err <==> end - start > capacity,
        written is Err || end <= start ==> *final(ring) == *old(ring),
{
}

/// A reader that saw the bounds reads what lies within them; one that could not
/// is told so and plays nothing.
pub proof fn law_a_reader_plays_within_the_bounds_it_saw<T: Copy>(
    ring: Ring<T>,
    observed: Option<Bounds>,
    destination: &mut [&mut [T]],
    from: i64,
    to: i64,
    read: Result<(), RingError>,
    quiet: T,
    p: int,
    i: int,
)
    requires
        ring.wf(),
        from < to,
        call_ensures(Ring::<T>::silent_sample, (&ring,), quiet),
        call_ensures(Ring::<T>::read_observed, (&ring, observed, destination, from, to), read),
        0 <= p < final(destination)@.len(),
        0 <= i < final(destination)@[p]@.len(),
    ensures
        read is Ok <==> observed is Some,
        read is Err || i >= to - from ==> final(destination)@[p]@[i] == old(destination)@[p]@[i],
        observed matches Some(bounds) ==> (i < to - from && !(bounds.start <= from + i
            < bounds.end) ==> final(destination)@[p]@[i] == quiet),
{
    assert(final(destination)@[p]@[i] == final(destination)@[p]@[i]);
}

/// What is left of a range is what lies in the bounds too.
pub proof fn law_a_range_is_clipped_to_the_bounds(
    bounds: Bounds,
    start: &mut i64,
    end: &mut i64,
    known: bool,
    first: &mut i64,
    last: &mut i64,
    unknown: bool,
    t: int,
)
    requires
        call_ensures(clip_to, (Some(bounds), start, end), known),
        call_ensures(clip_to, (None::<Bounds>, first, last), unknown),
    ensures
        known,
        *final(start) <= *final(end),
        *final(start) <= t < *final(end) <==> (*old(start) <= t < *old(end) && bounds.start <= t
            < bounds.end),
        !unknown,
        *final(first) == *old(first) && *final(last) == *old(last),
{
}

/// Bounds are believed at the first of eight looks that agrees with itself.
pub proof fn law_the_first_look_that_agrees_is_believed(
    looks: &[Snapshot],
    found: Option<Bounds>,
    at: int,
)
    requires
        call_ensures(first_consistent, (looks,), found),
        0 <= at <= looks@.len(),
        forall|i: int|
            0 <= i < at ==> (#[trigger] looks@[i]).bounds.index != looks@[i].head,
        at < looks@.len() ==> looks@[at].bounds.index == looks@[at].head,
    ensures
        at < looks@.len() && at < 8 ==> found is Some && found->0 == looks@[at].bounds,
        at >= 8 || at == looks@.len() ==> found is None,
{
    if at < looks@.len() {
        assert(looks@[at].is_consistent());
    }
    match found {
        Some(bounds) => {
            let i = choose|i: int|
                #![trigger looks@[i]]
                0 <= i < looks@.len() && i < BOUNDS_READ_ATTEMPTS && looks@[i].is_consistent()
                    && looks@[i].bounds == bounds && forall|j: int|
                    0 <= j < i ==> !(#[trigger] looks@[j]).is_consistent();
            if at < looks@.len() && at < i {
                assert(!looks@[at].is_consistent());
            }
            assert(i >= at);
        },
        None => {
            assert(none_agrees(looks@));
        },
    }
}

/// Bounds that were set are the ones that are seen.
pub proof fn law_bounds_that_were_set_are_seen(
    bounds: &mut TimeBounds,
    start: i64,
    end: i64,
    seen: Option<Bounds>,
    current: Bounds,
    look: Snapshot,
)
    requires
        old(bounds).wf(),
        call_ensures(TimeBounds::set, (bounds, start, end), ()),
        call_ensures(TimeBounds::get, (&*final(bounds),), seen),
        call_ensures(TimeBounds::current, (&*final(bounds),), current),
        call_ensures(TimeBounds::look, (&*final(bounds),), look),
    ensures
        seen matches Some(seen) && seen.start == start && seen.end == end,
        current.start == start && current.end == end,
        look.bounds.index == look.head && look.bounds.start == start && look.bounds.end == end,
{
}

/// Silence goes where it is asked for and nowhere else.
pub proof fn law_silence_stays_within_its_span<T: Copy>(
    destination: &mut [&mut [T]],
    offset: usize,
    count: usize,
    silence: T,
    whole: &mut [&mut [T]],
    p: int,
    i: int,
    q: int,
    j: int,
)
    requires
        call_ensures(silence_destination::<T>, (destination, offset, count, silence), ()),
        call_ensures(silence_planes::<T>, (whole, silence), ()),
        0 <= p < final(destination)@.len(),
        0 <= i < final(destination)@[p]@.len(),
        0 <= q < final(whole)@.len(),
        0 <= j < final(whole)@[q]@.len(),
    ensures
        final(destination)@[p]@[i] == (if i < offset || i >= offset + count {
            old(destination)@[p]@[i]
        } else {
            silence
        }),
        final(whole)@[q]@[j] == silence,
{
    assert(final(destination)@[p]@[i] == final(destination)@[p]@[i]);
    assert(final(whole)@[q]@[j] == final(whole)@[q]@[j]);
}

/// A ring's own bounds clip as any bounds do.
pub proof fn law_bounds_clip_what_they_hold(
    bounds: TimeBounds,
    seen: Option<Bounds>,
    start: &mut i64,
    end: &mut i64,
    known: bool,
    t: int,
)
    requires
        bounds.wf(),
        call_ensures(TimeBounds::get, (&bounds,), seen),
        call_ensures(TimeBounds::clip, (&bounds, start, end), known),
    ensures
        known && seen is Some,
        *final(start) <= t < *final(end) <==> (*old(start) <= t < *old(end) && (seen->0).start <= t
            < (seen->0).end),
{
}

/// A reader sees the range that is held.
pub proof fn law_a_reader_sees_what_is_held<T: Copy>(
    ring: Ring<T>,
    seen: Option<Bounds>,
    range: Option<(i64, i64)>,
    capacity: usize,
)
    requires
        ring.wf(),
        call_ensures(Ring::<T>::observe, (&ring,), seen),
        call_ensures(Ring::<T>::valid_range, (&ring,), range),
        call_ensures(Ring::<T>::capacity, (&ring,), capacity),
    ensures
        seen is Some && range is Some,
        (seen->0).start == (range->0).0 && (seen->0).end == (range->0).1,
        (range->0).1 - (range->0).0 <= capacity,
{
}

} // verus!
