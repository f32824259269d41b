//! The output engine: reads the ring and plays it on the hardware device.
//!
//! The two devices run on unrelated clocks, so this side does two things the
//! capture side does not. It reads at a deliberate lag, the bridge's safety
//! offset, so a late buffer still finds audio. And it plays through a varispeed
//! unit whose rate a slow control loop nudges by fractions of a percent, so the
//! lag stays where it was put instead of drifting until the ring runs dry or
//! overflows.
//!
//! Samples are handled here by their bits: they are moved and compared, never
//! computed with.

use vstd::prelude::*;

use crate::bridge::{Bridge, Fill, Timeline, LOUDEST};
use crate::devices::{Device, UNITY};
use crate::ring::silence_planes;
use crate::shared::SharedRing;
use crate::text::{decimal_signed, signed_digits};

verus! {

/// Ticks per second the drift controller expects.
pub const TICKS_PER_SECOND: u32 = 10;

/// Ticks averaged before the controller acts. One second of history: shorter
/// and it chases jitter, longer and it lags the drift it is correcting.
pub const HISTORY: usize = 10;

#[derive(Debug)]
pub enum PlaybackError {
    NoOutputUnit,
    DeviceRefused(i32),
    Format,
    Start(String),
}

impl PlaybackError {
    pub open spec fn text(self) -> Seq<char> {
        match self {
            PlaybackError::NoOutputUnit => "the engine has no output audio unit"@,
            PlaybackError::DeviceRefused(status) => {
                "the output device was refused (status "@ + signed_digits(status as int) + ")"@
            },
            PlaybackError::Format => "the output device published an unusable format"@,
            PlaybackError::Start(why) => "the output engine would not start: "@ + why@,
        }
    }

    pub fn message(&self) -> (message: String)
        ensures
            message@ == self.text(),
    {
        match self {
            PlaybackError::NoOutputUnit => "the engine has no output audio unit".to_owned(),
            PlaybackError::DeviceRefused(status) => {
                let mut message = "the output device was refused (status ".to_owned();
                message.append(decimal_signed(*status as i64).as_str());
                message.append(")");
                message
            },
            PlaybackError::Format => "the output device published an unusable format".to_owned(),
            PlaybackError::Start(why) => {
                let mut message = "the output engine would not start: ".to_owned();
                message.append(why.as_str());
                message
            },
        }
    }
}

// --- starting the engine ----------------------------------------------------

/// What the engine is built with.
#[derive(Clone, Copy, Debug, PartialEq, Eq, Structural)]
pub struct Plan {
    pub device_id: u32,
    /// In millihertz.
    pub sample_rate: u64,
    /// The varispeed rate the controller starts from, as a ratio: if the driver
    /// runs fast, playback has to run fast too or the ring fills up.
    pub rate_numerator: u64,
    pub rate_denominator: u64,
    /// In millionths.
    pub mixer_gain: u32,
}

/// A rate that a device actually publishes: none at all, or zero, is not one.
pub open spec fn usable_rate(rate: Option<u64>) -> Option<u64> {
    match rate {
        Some(rate) if rate > 0 => Some(rate),
        _ => None,
    }
}

/// What the engine for `output` is built with, or [`PlaybackError::Format`]
/// where it publishes no rate.
///
/// `input_rate` is the virtual device's actual rate. `mixer_gain` is the gain
/// for *this* stage, not the master volume: hardware with a volume control of
/// its own is driven directly and this stays at unity. Seeding it with the
/// master volume regardless would apply the gain here *and* on the hardware.
pub fn plan(output: &Device, input_rate: u64, mixer_gain: u32) -> (plan: Result<
    Plan,
    PlaybackError,
>)
    ensures
        match usable_rate(output.sample_rate) {
            None => plan == Err::<Plan, PlaybackError>(PlaybackError::Format),
            Some(rate) => plan == Ok::<Plan, PlaybackError>(
                Plan {
                    device_id: output.id,
                    sample_rate: rate,
                    rate_numerator: if input_rate > 0 {
                        input_rate
                    } else {
                        1
                    },
                    rate_denominator: if input_rate > 0 {
                        rate
                    } else {
                        1
                    },
                    mixer_gain: if mixer_gain > UNITY {
                        UNITY
                    } else {
                        mixer_gain
                    },
                },
            ),
        },
{
    let sample_rate: u64 = match output.sample_rate {
        Some(rate) => {
            if rate > 0 {
                rate
            } else {
                return Err(PlaybackError::Format);
            }
        },
        None => {
            return Err(PlaybackError::Format);
        },
    };
    let mixer_gain: u32 = if mixer_gain > UNITY {
        UNITY
    } else {
        mixer_gain
    };
    // A ratio that means nothing starts the controller from unity.
    let (rate_numerator, rate_denominator): (u64, u64) = if input_rate > 0 {
        (input_rate, sample_rate)
    } else {
        (1, 1)
    };
    Ok(Plan { device_id: output.id, sample_rate, rate_numerator, rate_denominator, mixer_gain })
}

/// Where the start of the engine stands.
#[derive(Debug)]
pub enum EngineStage {
    /// The output unit is being looked up.
    Unit,
    /// The unit is being pointed at the device.
    Pointing,
    /// The format is being made.
    Formatting,
    /// The graph is built and the engine is being started.
    Starting,
    Running,
    Failed { error: PlaybackError },
}

#[derive(Debug)]
pub enum EngineEvent {
    Unit { found: bool },
    Pointed { status: i32 },
    Formatted { made: bool },
    Started { failure: Option<String> },
}

impl EngineStage {
    pub open spec fn awaits(self, event: EngineEvent) -> bool {
        match self {
            EngineStage::Unit => event is Unit,
            EngineStage::Pointing => event is Pointed,
            EngineStage::Formatting => event is Formatted,
            EngineStage::Starting => event is Started,
            EngineStage::Running => false,
            EngineStage::Failed { .. } => false,
        }
    }

    pub open spec fn after(self, event: EngineEvent) -> EngineStage {
        match event {
            EngineEvent::Unit { found } => if found {
                EngineStage::Pointing
            } else {
                EngineStage::Failed { error: PlaybackError::NoOutputUnit }
            },
            EngineEvent::Pointed { status } => if status == 0 {
                EngineStage::Formatting
            } else {
                EngineStage::Failed { error: PlaybackError::DeviceRefused(status) }
            },
            EngineEvent::Formatted { made } => if made {
                EngineStage::Starting
            } else {
                EngineStage::Failed { error: PlaybackError::Format }
            },
            EngineEvent::Started { failure } => match failure {
                None => EngineStage::Running,
                Some(why) => EngineStage::Failed { error: PlaybackError::Start(why) },
            },
        }
    }

    /// Takes the system's answer to what this stage asked.
    pub fn step(self, event: EngineEvent) -> (next: EngineStage)
        requires
            self.awaits(event),
        ensures
            next == self.after(event),
    {
        match event {
            EngineEvent::Unit { found } => {
                if found {
                    EngineStage::Pointing
                } else {
                    EngineStage::Failed { error: PlaybackError::NoOutputUnit }
                }
            },
            EngineEvent::Pointed { status } => {
                if status == 0 {
                    EngineStage::Formatting
                } else {
                    EngineStage::Failed { error: PlaybackError::DeviceRefused(status) }
                }
            },
            EngineEvent::Formatted { made } => {
                if made {
                    EngineStage::Starting
                } else {
                    EngineStage::Failed { error: PlaybackError::Format }
                }
            },
            EngineEvent::Started { failure } => {
                match failure {
                    None => EngineStage::Running,
                    Some(why) => EngineStage::Failed { error: PlaybackError::Start(why) },
                }
            },
        }
    }
}

// --- rendering --------------------------------------------------------------

/// The bits of a sample without its sign.
pub open spec fn magnitude(bits: u32) -> u32 {
    (bits % 0x8000_0000) as u32
}

/// The bits of the loudest magnitude among some samples; what is not a number
/// is passed over.
pub open spec fn loudest_bits(samples: Seq<u32>) -> u32
    decreases samples.len(),
{
    if samples.len() == 0 {
        0
    } else {
        let before = loudest_bits(samples.drop_last());
        let last = magnitude(samples.last());
        if before < last <= LOUDEST {
            last
        } else {
            before
        }
    }
}

/// The loudest magnitude among the first `frames` frames of some planes, plane
/// after plane.
pub open spec fn loudest_in(planes: Seq<Seq<u32>>, frames: int) -> u32
    decreases planes.len(),
{
    if planes.len() == 0 {
        0
    } else {
        let before = loudest_in(planes.drop_last(), frames);
        let plane = planes.last();
        let last = loudest_bits(
            plane.take(
                if frames < plane.len() {
                    frames
                } else {
                    plane.len() as int
                },
            ),
        );
        if before < last {
            last
        } else {
            before
        }
    }
}

/// What some planes hold.
pub open spec fn contents(planes: Seq<&mut [u32]>) -> Seq<Seq<u32>> {
    Seq::new(planes.len(), |p: int| planes[p]@)
}

/// The peak of one plane's first frames.
fn plane_peak(plane: &[u32], frames: usize) -> (peak: u32)
    ensures
        peak == loudest_bits(
            plane@.take(
                if frames < plane@.len() {
                    frames as int
                } else {
                    plane@.len() as int
                },
            ),
        ),
        peak <= LOUDEST,
{
    let mut peak: u32 = 0;
    let mut i: usize = 0;
    while i < plane.len() && i < frames
        invariant
            i <= plane@.len(),
            i <= frames,
            peak == loudest_bits(plane@.take(i as int)),
            peak <= LOUDEST,
        decreases plane@.len() - i,
    {
        let bits: u32 = plane[i] % 0x8000_0000;
        proof {
            assert(plane@.take(i + 1).drop_last() == plane@.take(i as int));
        }
        if bits <= LOUDEST && bits > peak {
            peak = bits;
        }
        i += 1;
    }
    peak
}

fn planes_peak(planes: &mut [&mut [u32]], frames: usize) -> (peak: u32)
    ensures
        peak == loudest_in(contents(old(planes)@), frames as int),
        peak <= LOUDEST,
        final(planes)@ == old(planes)@,
{
    let mut peak: u32 = 0;
    let mut p: usize = 0;
    let ghost all = contents(planes@);
    while p < planes.len()
        invariant
            p <= planes@.len(),
            planes@ == old(planes)@,
            all == contents(planes@),
            peak == loudest_in(all.take(p as int), frames as int),
            peak <= LOUDEST,
        decreases planes@.len() - p,
    {
        let last: u32 = plane_peak(&*planes[p], frames);
        proof {
            assert(all.take(p + 1).drop_last() == all.take(p as int));
            assert(all.take(p + 1).last() == planes@[p as int]@);
        }
        if last > peak {
            peak = last;
        }
        p += 1;
    }
    assert(all.take(p as int) == all);
    peak
}

/// What a render callback did with the buffer it was handed.
#[derive(Clone, Copy, Debug, PartialEq, Eq, Structural)]
pub enum Rendered {
    /// The buffer is silent. Telling the engine so lets the nodes downstream
    /// skip work rather than multiply zeroes.
    Silence,
    /// The buffer holds audio.
    Audio,
    /// There was no buffer to fill.
    Nothing,
}

/// The clocks once the driver's are taken over: audio that resumes is aligned
/// afresh.
pub open spec fn driven(clocks: Timeline, shared: SharedRing) -> Timeline {
    let running = shared.header.running != 0;
    Timeline {
        capturing: running,
        aligned: clocks.aligned && !(running && !clocks.capturing),
        input_time: shared.header.written,
        ..clocks
    }
}

/// Supplies the output engine with audio: the only place it crosses from the
/// driver's ring into the engine.
///
/// It reads the driver's write position itself rather than being told by a
/// capture callback. The bridge relates the two clocks; the varispeed corrects
/// the drift between them. `destination` is the engine's buffers, each cut to
/// at most `frames` frames.
pub fn render(
    bridge: &mut Bridge<u32>,
    shared: &SharedRing,
    samples: &[u32],
    destination: &mut [&mut [u32]],
    output_time: i64,
    frames: usize,
) -> (rendered: Rendered)
    requires
        old(bridge).wf(),
        shared.wf(),
        samples@.len() >= shared.capacity * shared.channels,
        frames <= i64::MAX,
        shared.header.written - shared.capacity >= i64::MIN,
        driven(old(bridge).clocks(), *shared).can_ask(output_time as int),
        driven(old(bridge).clocks(), *shared).asked(output_time).0 matches Fill::Read { from }
            ==> from + frames <= i64::MAX,
    ensures
        final(bridge).wf(),
        final(bridge).buffer() == old(bridge).buffer(),
        final(destination)@.len() == old(destination)@.len(),
        forall|p: int|
            #![trigger final(destination)@[p]]
            0 <= p < final(destination)@.len() ==> final(destination)@[p]@.len() == old(destination)@[p]@.len() && final(final(destination)@[p])@ == final(old(destination)@[p])@,
        ({
            let (fill, asked) = driven(old(bridge).clocks(), *shared).asked(output_time);
            match fill {
                Fill::Silence => {
                    &&& rendered == Rendered::Silence
                    &&& final(bridge).clocks() == asked
                },
                Fill::Read { from } => if old(destination)@.len() == 0 {
                    &&& rendered == Rendered::Nothing
                    &&& final(bridge).clocks() == asked
                } else if frames == 0 || shared.holds(from as int, frames as int) {
                    // The meter is the difference between a route that is
                    // working and one that is aligned and carrying silence.
                    let peak = loudest_in(contents(final(destination)@), frames as int);
                    &&& rendered == Rendered::Audio
                    &&& final(bridge).clocks() == (Timeline {
                        peak: if asked.peak < peak {
                            peak
                        } else {
                            asked.peak
                        },
                        ..asked
                    })
                    &&& forall|p: int, i: int|
                        #![trigger final(destination)@[p]@[i]]
                        0 <= p < final(destination)@.len() && 0 <= i < final(destination)@[p]@.len()
                            ==> final(destination)@[p]@[i] == (if i < frames {
                            shared.sample(samples@, p, from + i)
                        } else {
                            old(destination)@[p]@[i]
                        })
                } else {
                    // Outside what the driver has written and still holds.
                    // Silence, and re-align rather than play a hole.
                    &&& rendered == Rendered::Silence
                    &&& final(bridge).clocks() == (Timeline {
                        aligned: false,
                        realignments: if asked.realignments == u64::MAX {
                            0
                        } else {
                            (asked.realignments + 1) as u64
                        },
                        ..asked
                    })
                },
            }
        }),
        rendered == Rendered::Silence ==> forall|p: int, i: int|
            #![trigger final(destination)@[p]@[i]]
            0 <= p < final(destination)@.len() && 0 <= i < final(destination)@[p]@.len() ==> final(destination)@[p]@[i] == 0,
{
    bridge.set_capturing(shared.is_running());
    bridge.wrote_through(shared.written());
    match bridge.position_for(output_time) {
        Fill::Silence => {
            silence_planes(destination, 0);
            Rendered::Silence
        },
        Fill::Read { from } => {
            if destination.len() == 0 {
                return Rendered::Nothing;
            }
            if shared.read(samples, destination, from, frames) {
                let peak: u32 = planes_peak(destination, frames);
                bridge.observe_peak(peak);
                Rendered::Audio
            } else {
                silence_planes(destination, 0);
                bridge.realign();
                Rendered::Silence
            }
        },
    }
}

// --- the drift controller ---------------------------------------------------

/// The lags the drift controller averages, the newest [`HISTORY`] of them.
#[derive(Clone, Copy, Debug)]
pub struct Lags {
    observed: [i64; 10],
    filled: usize,
    next: usize,
}

/// The last `count` of some numbers.
pub open spec fn newest(observed: Seq<i64>, count: int) -> Seq<i64> {
    if observed.len() <= count {
        observed
    } else {
        observed.skip(observed.len() - count)
    }
}

pub open spec fn total(observed: Seq<i64>) -> int
    decreases observed.len(),
{
    if observed.len() == 0 {
        0
    } else {
        total(observed.drop_last()) + observed.last()
    }
}

impl Lags {
    pub closed spec fn wf(self) -> bool {
        &&& self.next < HISTORY
        &&& self.filled <= HISTORY
        &&& self.filled < HISTORY ==> self.next == self.filled
    }

    /// What is remembered, the oldest first.
    pub closed spec fn held(self) -> Seq<i64> {
        if self.filled < HISTORY {
            self.observed@.take(self.filled as int)
        } else {
            self.observed@.skip(self.next as int) + self.observed@.take(self.next as int)
        }
    }

    pub fn new() -> (lags: Self)
        ensures
            lags.wf(),
            lags.held() == Seq::<i64>::empty(),
    {
        let lags = Lags { observed: [0, 0, 0, 0, 0, 0, 0, 0, 0, 0], filled: 0, next: 0 };
        assert(lags.held() =~= Seq::<i64>::empty());
        lags
    }

    /// Forgets every lag: nothing is aligned, so what was seen before the last
    /// realignment is meaningless.
    pub fn reset(&mut self)
        requires
            old(self).wf(),
        ensures
            final(self).wf(),
            final(self).held() == Seq::<i64>::empty(),
    {
        self.filled = 0;
        self.next = 0;
        assert(self.held() =~= Seq::<i64>::empty());
    }

    /// Feeds one observation in, forgetting the oldest where there is no room.
    pub fn observe(&mut self, lag: i64)
        requires
            old(self).wf(),
        ensures
            final(self).wf(),
            final(self).held() == newest(old(self).held().push(lag), HISTORY as int),
    {
        self.observed[self.next] = lag;
        self.next = (self.next + 1) % HISTORY;
        self.filled = if self.filled + 1 < HISTORY {
            self.filled + 1
        } else {
            HISTORY
        };
        assert(self.held() =~= newest(old(self).held().push(lag), HISTORY as int));
    }

    /// The sum and the number of what is remembered.
    fn sum(&self) -> (sum: (i128, usize))
        requires
            self.wf(),
        ensures
            sum.0 == total(self.held()),
            sum.1 == self.held().len(),
    {
        let mut sum: i128 = 0;
        let mut i: usize = 0;
        while i < self.filled
            invariant
                self.wf(),
                i <= self.filled,
                sum == total(self.observed@.take(i as int)),
                -(i as int) * 0x8000_0000_0000_0000 <= sum <= (i as int)
                    * 0x8000_0000_0000_0000,
            decreases self.filled - i,
        {
            proof {
                assert(self.observed@.take(i + 1).drop_last() == self.observed@.take(i as int));
            }
            sum = sum + self.observed[i] as i128;
            i += 1;
        }
        proof {
            if self.filled == HISTORY {
                let older = self.observed@.skip(self.next as int);
                let newer = self.observed@.take(self.next as int);
                lemma_total(newer, older);
                lemma_total(older, newer);
                assert(newer + older == self.observed@);
                assert(self.observed@.take(i as int) == self.observed@);
            }
        }
        (sum, self.filled)
    }
}

proof fn lemma_total(first: Seq<i64>, second: Seq<i64>)
    ensures
        total(first + second) == total(first) + total(second),
    decreases second.len(),
{
    if second.len() == 0 {
        assert(first + second == first);
    } else {
        lemma_total(first, second.drop_last());
        assert((first + second).drop_last() == first + second.drop_last());
    }
}

/// What a tick of the drift controller comes to.
#[derive(Clone, Copy, Debug, PartialEq, Eq, Structural)]
pub enum Tick {
    /// Nothing is aligned, so there is no drift to measure: back to the nominal
    /// rate.
    Nominal,
    /// No lag to hold: either nothing has been read yet or the safety offset was
    /// never set. The rate stays what it is.
    Hold,
    /// The reader should trail by `wanted` frames and trails by `sum / count` on
    /// average.
    Correct { wanted: i64, sum: i128, count: usize },
}

/// One observation of the drift controller. Call about [`TICKS_PER_SECOND`]
/// times a second.
pub fn tick<T: Copy>(lags: &mut Lags, bridge: &Bridge<T>) -> (tick: Tick)
    requires
        old(lags).wf(),
        bridge.clocks().can_trail(),
    ensures
        final(lags).wf(),
        match bridge.clocks().trail() {
            None => tick == Tick::Nominal && final(lags).held() == Seq::<i64>::empty(),
            Some(trail) => {
                let wanted = bridge.clocks().safety_offset;
                let held = newest(old(lags).held().push(trail as i64), HISTORY as int);
                &&& final(lags).held() == held
                &&& tick == (if total(held) == 0 || wanted <= 0 {
                    Tick::Hold
                } else {
                    Tick::Correct { wanted, sum: total(held) as i128, count: held.len() as usize }
                })
            },
        },
{
    match bridge.observed_offset() {
        None => {
            lags.reset();
            Tick::Nominal
        },
        Some(lag) => {
            lags.observe(lag);
            let wanted: i64 = bridge.safety_offset();
            let (sum, count): (i128, usize) = lags.sum();
            if sum == 0 || wanted <= 0 {
                Tick::Hold
            } else {
                Tick::Correct { wanted, sum, count }
            }
        },
    }
}

// --- what holds of playing --------------------------------------------------

/// The hardware plays at its own rate, at the level asked for, a whole at most;
/// what comes in is resampled from its rate, where it has one. Without a rate of
/// the hardware nothing can be planned.
pub proof fn law_the_hardware_is_played_at_its_rate(
    output: Device,
    input_rate: u64,
    gain: u32,
    planned: Result<Plan, PlaybackError>,
)
    requires
        call_ensures(plan, (&output, input_rate, gain), planned),
    ensures
        planned is Ok <==> output.sample_rate is Some && output.sample_rate->0 > 0,
        planned matches Err(error) ==> error is Format,
        planned matches Ok(plan) ==> {
            &&& plan.device_id == output.id
            &&& output.sample_rate == Some(plan.sample_rate)
            &&& plan.mixer_gain <= 1_000_000
            &&& gain <= 1_000_000 ==> plan.mixer_gain == gain
            &&& gain > 1_000_000 ==> plan.mixer_gain == 1_000_000
            &&& input_rate > 0 ==> plan.rate_numerator == input_rate && plan.rate_denominator
                == plan.sample_rate
            &&& input_rate == 0 ==> plan.rate_numerator == plan.rate_denominator
            &&& plan.rate_denominator > 0
        },
{
}

/// The engine has its unit, points it at the device, gives it a format and
/// starts, in that order; what fails says what did.
pub proof fn law_an_engine_starts_step_by_step(
    stage: EngineStage,
    event: EngineEvent,
    next: EngineStage,
)
    requires
        stage.awaits(event),
        call_ensures(EngineStage::step, (stage, event), next),
    ensures
        event matches EngineEvent::Unit { found } ==> stage is Unit && (found ==> next is Pointing)
            && (!found ==> next is Failed && next->error is NoOutputUnit),
        event matches EngineEvent::Pointed { status } ==> stage is Pointing && (status == 0
            ==> next is Formatting) && (status != 0 ==> next is Failed && next->error
            == PlaybackError::DeviceRefused(status)),
        event matches EngineEvent::Formatted { made } ==> stage is Formatting && (made
            ==> next is Starting) && (!made ==> next is Failed && next->error is Format),
        event matches EngineEvent::Started { failure } ==> stage is Starting && (failure is None
            ==> next is Running) && (failure is Some ==> next is Failed && next->error
            == PlaybackError::Start(failure->0)),
{
}

proof fn lemma_loudest_bits(samples: Seq<u32>, i: int)
    ensures
        0 <= i < samples.len() && samples[i] % 0x8000_0000 <= 0x7F80_0000 ==> samples[i]
            % 0x8000_0000 <= loudest_bits(samples),
        loudest_bits(samples) == 0 || exists|j: int|
            0 <= j < samples.len() && #[trigger] samples[j] % 0x8000_0000 == loudest_bits(samples),
    decreases samples.len(),
{
    if samples.len() > 0 {
        let rest = samples.drop_last();
        lemma_loudest_bits(rest, i);
        assert(samples.last() == samples[samples.len() - 1]);
        if i < rest.len() && 0 <= i {
            assert(rest[i] == samples[i]);
        }
        if loudest_bits(samples) == loudest_bits(rest) && loudest_bits(rest) != 0 {
            let j = choose|j: int|
                0 <= j < rest.len() && #[trigger] rest[j] % 0x8000_0000 == loudest_bits(rest);
            assert(samples[j] % 0x8000_0000 == loudest_bits(samples));
        }
    }
}

proof fn lemma_loudest_in(planes: Seq<Seq<u32>>, frames: int, p: int, i: int)
    requires
        frames >= 0,
    ensures
        0 <= p < planes.len() && 0 <= i < planes[p].len() && i < frames && planes[p][i]
            % 0x8000_0000 <= 0x7F80_0000 ==> planes[p][i] % 0x8000_0000 <= loudest_in(
            planes,
            frames,
        ),
        loudest_in(planes, frames) == 0 || exists|q: int, j: int|
            0 <= q < planes.len() && 0 <= j < planes[q].len() && j < frames && (
            #[trigger] planes[q][j]) % 0x8000_0000 == loudest_in(planes, frames),
    decreases planes.len(),
{
    if planes.len() > 0 {
        let rest = planes.drop_last();
        let plane = planes.last();
        let shown = plane.take(
            if frames < plane.len() {
                frames
            } else {
                plane.len() as int
            },
        );
        assert(plane == planes[planes.len() - 1]);
        lemma_loudest_in(rest, frames, p, i);
        lemma_loudest_bits(shown, i);
        if 0 <= p < rest.len() {
            assert(rest[p] == planes[p]);
        }
        if p == rest.len() && 0 <= i < plane.len() && i < frames {
            assert(shown[i] == plane[i]);
        }
        let loudest = loudest_in(planes, frames);
        if loudest != 0 {
            if loudest == loudest_bits(shown) {
                let j = choose|j: int|
                    0 <= j < shown.len() && #[trigger] shown[j] % 0x8000_0000 == loudest;
                assert(planes[planes.len() - 1][j] == shown[j]);
            } else {
                let (q, j) = choose|q: int, j: int|
                    0 <= q < rest.len() && 0 <= j < rest[q].len() && j < frames && (
                    #[trigger] rest[q][j]) % 0x8000_0000 == loudest;
                assert(planes[q][j] == rest[q][j]);
            }
        }
    }
}

/// A render plays what the driver wrote, the safety offset behind it, from its
/// place in the driver's buffer; before the clocks are lined up it plays
/// silence. The meter is no lower than anything that was played.
pub proof fn law_a_render_plays_what_the_driver_wrote(
    bridge: &mut Bridge<u32>,
    shared: SharedRing,
    samples: &[u32],
    destination: &mut [&mut [u32]],
    output_time: i64,
    frames: usize,
    rendered: Rendered,
    p: int,
    i: int,
)
    requires
        old(bridge).wf(),
        shared.wf(),
        samples@.len() >= shared.capacity * shared.channels,
        0 < frames <= i64::MAX,
        shared.header.written - shared.capacity >= i64::MIN,
        call_ensures(
            render,
            (bridge, &shared, samples, destination, output_time, frames),
            rendered,
        ),
        0 <= p < final(destination)@.len(),
        0 <= i < final(destination)@[p]@.len(),
    ensures
        ({
            let clocks = old(bridge).clocks();
            let playable = shared.header.running != 0 && shared.header.written != i64::MIN;
            let lined_up = clocks.aligned && clocks.capturing;
            let from = output_time + clocks.sample_offset - clocks.safety_offset;
            let there = shared.header.written - shared.capacity <= from && from + frames
                <= shared.header.written;
            let played = final(destination)@[p]@[i];
            &&& rendered == Rendered::Silence ==> played == 0
            &&& !playable || !lined_up ==> rendered == Rendered::Silence
            &&& playable && !lined_up ==> final(bridge).clocks().aligned
            &&& playable && lined_up && i64::MIN <= from <= i64::MAX ==> {
                &&& there <==> rendered == Rendered::Audio
                &&& !there ==> rendered == Rendered::Silence && !final(bridge).clocks().aligned
                &&& there && i < frames && 0 <= p < shared.channels ==> played == samples@[((from
                    + i) % shared.capacity as int) * shared.channels + p]
                &&& there && i < frames && p >= shared.channels ==> played == samples@[((from + i)
                    % shared.capacity as int) * shared.channels + shared.channels - 1]
                &&& there && i < frames && played % 0x8000_0000 <= 0x7F80_0000 ==> played
                    % 0x8000_0000 <= final(bridge).clocks().peak
                &&& there && i >= frames ==> played == old(destination)@[p]@[i]
            }
            &&& final(bridge).clocks().input_time == shared.header.written
            &&& final(bridge).clocks().capturing == (shared.header.running != 0)
            &&& final(bridge).clocks().safety_offset == clocks.safety_offset
        }),
{
    assert(final(destination)@[p]@[i] == final(destination)@[p]@[i]);
    lemma_loudest_in(contents(final(destination)@), frames as int, p, i);
    assert(contents(final(destination)@)[p] == final(destination)@[p]@);
}

/// Nothing that was not played shows on the meter.
pub proof fn law_the_meter_shows_what_was_played(
    bridge: &mut Bridge<u32>,
    shared: SharedRing,
    samples: &[u32],
    destination: &mut [&mut [u32]],
    output_time: i64,
    frames: usize,
    rendered: Rendered,
)
    requires
        old(bridge).wf(),
        shared.wf(),
        0 < frames <= i64::MAX,
        call_ensures(
            render,
            (bridge, &shared, samples, destination, output_time, frames),
            rendered,
        ),
    ensures
        final(bridge).clocks().peak >= old(bridge).clocks().peak,
        final(bridge).clocks().peak == old(bridge).clocks().peak || rendered == Rendered::Audio
            && exists|q: int, j: int|
            0 <= q < final(destination)@.len() && 0 <= j < final(destination)@[q]@.len() && j
                < frames && (#[trigger] final(destination)@[q]@[j]) % 0x8000_0000 == final(bridge).clocks().peak,
{
    let planes = contents(final(destination)@);
    lemma_loudest_in(planes, frames as int, 0, 0);
    if final(bridge).clocks().peak != old(bridge).clocks().peak {
        let loudest = loudest_in(planes, frames as int);
        let (q, j) = choose|q: int, j: int|
            0 <= q < planes.len() && 0 <= j < planes[q].len() && j < frames && (
            #[trigger] planes[q][j]) % 0x8000_0000 == loudest;
        assert(final(destination)@[q]@[j] == planes[q][j]);
    }
}

/// The sum of some lags.
pub open spec fn added_up(lags: Seq<i64>) -> int {
    lags.fold_left(0int, |sum: int, lag: i64| sum + lag)
}

proof fn lemma_added_up(lags: Seq<i64>)
    ensures
        total(lags) == added_up(lags),
    decreases lags.len(),
{
    if lags.len() > 0 {
        lemma_added_up(lags.drop_last());
    }
}

/// The last ten lags are held; a further one comes after them, and the eleventh
/// pushes the oldest out.
pub proof fn law_ten_lags_are_held(lags: &mut Lags, lag: i64, fresh: Lags, cleared: &mut Lags, i: int)
    requires
        old(lags).wf(),
        old(lags).held().len() <= 10,
        call_ensures(Lags::observe, (lags, lag), ()),
        call_ensures(Lags::new, (), fresh),
        old(cleared).wf(),
        call_ensures(Lags::reset, (cleared,), ()),
    ensures
        fresh.held().len() == 0,
        final(cleared).held().len() == 0,
        old(lags).held().len() < 10 ==> final(lags).held() == old(lags).held().push(lag),
        old(lags).held().len() == 10 ==> {
            &&& final(lags).held().len() == 10
            &&& final(lags).held().last() == lag
            &&& 0 <= i < 9 ==> final(lags).held()[i] == old(lags).held()[i + 1]
        },
{
}

/// The controller corrects by the lags it holds, the newest among them: the rate
/// is to bring their average to the safety offset. Without alignment it goes
/// back to the nominal rate and forgets them; without a lag to hold it waits.
pub proof fn law_the_drift_is_corrected_by_the_average_lag<T: Copy>(
    lags: &mut Lags,
    alone: &mut Lags,
    bridge: Bridge<T>,
    step: Tick,
    lag: Option<i64>,
    safety: i64,
)
    requires
        old(lags).wf(),
        bridge.clocks().can_trail(),
        call_ensures(tick::<T>, (lags, &bridge), step),
        call_ensures(Bridge::<T>::observed_offset, (&bridge,), lag),
        call_ensures(Bridge::<T>::safety_offset, (&bridge,), safety),
        *old(alone) == *old(lags),
        lag matches Some(lag) ==> call_ensures(Lags::observe, (alone, lag), ()),
    ensures
        lag is None ==> step == Tick::Nominal && final(lags).held().len() == 0,
        lag is Some ==> {
            let held = final(alone).held();
            &&& final(lags).held() == held
            &&& added_up(held) == 0 || safety <= 0 ==> step == Tick::Hold
            &&& added_up(held) != 0 && safety > 0 ==> step == (Tick::Correct {
                wanted: safety,
                sum: added_up(held) as i128,
                count: held.len() as usize,
            })
        },
{
    lemma_added_up(final(lags).held());
}

/// What went wrong with the output engine.
pub proof fn law_an_engine_error_says_what_went_wrong(
    error: PlaybackError,
    message: String,
    number: String,
)
    requires
        call_ensures(PlaybackError::message, (&error,), message),
        error matches PlaybackError::DeviceRefused(status) ==> call_ensures(
            decimal_signed,
            (status as i64,),
            number,
        ),
    ensures
        match error {
            PlaybackError::NoOutputUnit => message@ == "the engine has no output audio unit"@,
            PlaybackError::DeviceRefused(_) => message@
                == "the output device was refused (status "@ + number@ + ")"@,
            PlaybackError::Format => message@ == "the output device published an unusable format"@,
            PlaybackError::Start(why) => message@ == "the output engine would not start: "@ + why@,
        },
{
}

} // verus!
