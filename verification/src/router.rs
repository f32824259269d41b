//! Putting the two halves together: system audio out of the driver's ring,
//! through the EQ, out to real hardware.
//!
//! ```text
//! apps ─▶ driver ─▶ ring
//!                     │
//!    hardware ◀─ ×volume ◀─ varispeed ◀─ EQ ◀─┘
//! ```
//!
//! The virtual device is published while the route runs and taken away when it
//! stops, and it is made the system's output while it exists. It carries the
//! volume control the hardware may not have, and it carries the name. That is
//! what gives external speakers a working slider in the menu bar: the slider
//! moves our device's volume, this reads it, and the gain is applied on the way
//! to the hardware.

use vstd::prelude::*;

use crate::bridge::Bridge;
use crate::devices::{proxy_name, Device, TRANSPORT_BUILT_IN, UNITY};
use crate::eq::Settings;
use crate::lists::{
    first, lemma_filter_next, lemma_filter_push, lemma_first, lemma_first_at, lemma_first_none,
};
use crate::playback::{usable_rate, PlaybackError};
use crate::shared::SharedError;

verus! {

/// Added to the measured safety offset. Both ends report what they need in the
/// steady state; this covers the first few buffers, when neither is in one.
pub const SAFETY_MARGIN: i64 = 512;

/// The rate a route is built at where the hardware publishes none, in
/// millihertz.
pub const DEFAULT_RATE: u64 = 48_000_000;

/// A volume that moved by less than this, in millionths, has not moved.
pub const VOLUME_STEP: u32 = 1_000;

/// A rate that moved by at least this, in millihertz, is another rate.
pub const RATE_STEP: u64 = 1_000;

#[derive(Debug)]
pub enum RouteError {
    /// There is no hardware output device to play to.
    NoHardwareOutput,
    /// Asked to play into a virtual device, which is a loop waiting to happen.
    WouldLoop,
    Capture(SharedError),
    Playback(PlaybackError),
}

impl RouteError {
    pub open spec fn text(self) -> Seq<char> {
        match self {
            RouteError::NoHardwareOutput => "there is no hardware output device to play to"@,
            RouteError::WouldLoop => "the target device is a virtual device"@,
            RouteError::Capture(error) => error.text(),
            RouteError::Playback(error) => error.text(),
        }
    }

    pub fn message(&self) -> (message: String)
        ensures
            message@ == self.text(),
    {
        match self {
            RouteError::NoHardwareOutput => {
                "there is no hardware output device to play to".to_owned()
            },
            RouteError::WouldLoop => "the target device is a virtual device".to_owned(),
            RouteError::Capture(error) => error.message(),
            RouteError::Playback(error) => error.message(),
        }
    }
}

impl From<SharedError> for RouteError {
    fn from(error: SharedError) -> (route_error: Self) {
        RouteError::Capture(error)
    }
}

impl vstd::std_specs::convert::FromSpecImpl<SharedError> for RouteError {
    open spec fn obeys_from_spec() -> bool {
        true
    }

    open spec fn from_spec(error: SharedError) -> Self {
        RouteError::Capture(error)
    }
}

impl From<PlaybackError> for RouteError {
    fn from(error: PlaybackError) -> (route_error: Self) {
        RouteError::Playback(error)
    }
}

impl vstd::std_specs::convert::FromSpecImpl<PlaybackError> for RouteError {
    open spec fn obeys_from_spec() -> bool {
        true
    }

    open spec fn from_spec(error: PlaybackError) -> Self {
        RouteError::Playback(error)
    }
}

/// What is to be asked of the system on a route's behalf.
#[derive(Clone, Copy, Debug, PartialEq, Eq, Structural)]
pub enum Action {
    /// Give the virtual device the name of what it stands in for: the
    /// [`Setup::device_name`] of the route that is starting.
    Rename { id: u32 },
    SetRate { id: u32, rate: u64 },
    SetVolume { id: u32, volume: u32 },
    SetMuted { id: u32, muted: bool },
    /// Make the virtual device the system's output.
    Claim { id: u32 },
    /// Map the driver's ring.
    MapRing,
    /// Start the output engine.
    Play { input_rate: u64, gain: u32 },
    /// The gain of our own mixer stage.
    SetMixerGain { gain: u32 },
    SetDefaultOutput { id: u32 },
    SetDefaultSystemOutput { id: u32 },
    Unpublish,
    ResetBridge,
}

// --- the devices the system was using ---------------------------------------

/// The output devices the system was using before the route took them.
///
/// Two, not one: where audio goes, and where alerts go and what the volume keys
/// act on.
#[derive(Clone, Copy, Debug, PartialEq, Eq, Structural)]
pub struct PreviousDefaults {
    pub output: Option<u32>,
    pub system: Option<u32>,
}

impl Default for PreviousDefaults {
    fn default() -> (defaults: Self)
        ensures
            defaults == (PreviousDefaults { output: None, system: None }),
    {
        PreviousDefaults { output: None, system: None }
    }
}

impl PreviousDefaults {
    pub open spec fn restoring(self) -> Seq<Action> {
        (match self.output {
            Some(id) => seq![Action::SetDefaultOutput { id }],
            None => Seq::empty(),
        }) + (match self.system {
            Some(id) => seq![Action::SetDefaultSystemOutput { id }],
            None => Seq::empty(),
        })
    }

    /// Puts back what was known of them.
    pub fn restore(self) -> (actions: Vec<Action>)
        ensures
            actions@ == self.restoring(),
    {
        let mut actions: Vec<Action> = Vec::new();
        match self.output {
            Some(id) => {
                actions.push(Action::SetDefaultOutput { id });
            },
            None => {},
        }
        match self.system {
            Some(id) => {
                actions.push(Action::SetDefaultSystemOutput { id });
            },
            None => {},
        }
        assert(actions@ =~= self.restoring());
        actions
    }
}

// --- claiming the default output --------------------------------------------

/// Attempts to make the virtual device the system's output.
pub const CLAIM_ATTEMPTS: u32 = 12;

#[derive(Clone, Copy, Debug, PartialEq, Eq, Structural)]
pub enum Claim {
    /// Ask again, after a pause of 50 ms where `pause` says so.
    Again { attempt: u32, pause: bool },
    Done { claimed: bool, status: i32 },
}

/// What follows attempt number `attempt`, in which the system answered `status`
/// and its output was the virtual device afterwards or was not.
///
/// A device that has only just been published is discoverable before it is
/// eligible to be the default: the call is accepted, and the default stays
/// where it was. So this asks and checks, at once a second time and then
/// patiently.
pub fn claim_default(attempt: u32, status: i32, took: bool) -> (claim: Claim)
    requires
        attempt < CLAIM_ATTEMPTS,
    ensures
        claim == (if took {
            Claim::Done { claimed: true, status }
        } else if attempt + 1 < CLAIM_ATTEMPTS {
            Claim::Again { attempt: (attempt + 1) as u32, pause: attempt != 0 }
        } else {
            Claim::Done { claimed: false, status }
        }),
{
    if took {
        Claim::Done { claimed: true, status }
    } else if attempt + 1 < CLAIM_ATTEMPTS {
        Claim::Again { attempt: attempt + 1, pause: attempt != 0 }
    } else {
        Claim::Done { claimed: false, status }
    }
}

// --- where the volume is applied --------------------------------------------

pub open spec fn clamped_volume(volume: u32) -> u32 {
    if volume > UNITY {
        UNITY
    } else {
        volume
    }
}

fn clamp_volume(volume: u32) -> (clamped: u32)
    ensures
        clamped == clamped_volume(volume),
{
    if volume > UNITY {
        UNITY
    } else {
        volume
    }
}

/// The gain of our mixer, and of the hardware where it has a volume control,
/// for a master volume.
///
/// Hardware that has a volume control of its own gets driven directly, so the
/// gain happens as late as possible and the device's own display agrees with
/// ours. Hardware without one is served by attenuating in our mixer instead,
/// which is the whole reason the route exists.
pub open spec fn stages(settable: bool, volume: u32) -> (u32, Option<u32>) {
    if settable {
        (UNITY, Some(volume))
    } else {
        (volume, None)
    }
}

/// The actions that apply a master volume that is already in range.
pub open spec fn volume_actions(
    target: Device,
    driver: Option<Device>,
    volume: u32,
    mirror: bool,
) -> Seq<Action> {
    let (mixer, hardware) = stages(target.volume_is_settable, volume);
    (match hardware {
        Some(volume) => seq![Action::SetVolume { id: target.id, volume }],
        None => Seq::empty(),
    }) + seq![Action::SetMixerGain { gain: mixer }] + (match driver {
        Some(driver) if mirror => seq![Action::SetVolume { id: driver.id, volume }],
        _ => Seq::empty(),
    })
}

/// The volume is applied at one stage or the other, never both: the product of
/// the two gains is what the user asked for.
pub proof fn law_the_volume_is_applied_exactly_once(settable: bool, volume: u32)
    ensures
        ({
            let (mixer, hardware) = stages(settable, volume);
            mixer * (match hardware {
                Some(gain) => gain as int,
                None => UNITY as int,
            }) == volume * UNITY
        }),
{
    let (mixer, hardware) = stages(settable, volume);
    assert(UNITY * volume == volume * UNITY) by (nonlinear_arith);
}

// --- the route --------------------------------------------------------------

/// A route to a hardware device.
#[derive(Debug)]
pub struct Route {
    pub target: Device,
    /// The virtual device, published for as long as this route lives. `None`
    /// when the plug-in is not installed.
    pub driver: Option<Device>,
    /// The status code from the last attempt to claim the default output.
    pub claim_status: i32,
    /// Whether the system's output actually moved to it. Diagnostics: a route
    /// that failed to claim the default is one whose volume slider does
    /// nothing, and the difference is invisible otherwise.
    pub claimed: bool,
    /// What the system's output devices were before the route took them.
    pub previous: PreviousDefaults,
    /// Last volume read from the virtual device, so a change is noticed without
    /// reapplying the same gain thirty times a second. In millionths.
    pub device_volume: u32,
    /// Set by the last tick when the volume moved outside the panel, so the UI
    /// can follow the menu-bar slider rather than fight it.
    pub volume_changed: Option<u32>,
    /// The rate the route was built at, in millihertz. The user can change the
    /// output device's rate at any moment, and a graph built for another rate
    /// does not survive it.
    pub rate: u64,
    pub settings: Settings,
    /// The bits of the loudest sample seen in the last tick. Held here rather
    /// than read from the bridge on demand: reading the meter resets it, so
    /// exactly one reader may do it.
    pub level: u32,
}

/// What the route is doing, for a status line rather than for control.
#[derive(Clone, Copy, Debug, PartialEq, Eq, Structural)]
pub struct Health {
    pub running: bool,
    /// The bits of the varispeed rate in force, and of the nominal one.
    pub rate: u32,
    pub nominal_rate: u32,
    pub wanted_offset: i64,
    /// `None` until the two clocks have been related to each other.
    pub observed_offset: Option<i64>,
    pub realignments: u64,
    /// The bits of the loudest sample captured since the last report. Zero with
    /// the route running means the input side is delivering silence.
    pub level: u32,
}

impl Health {
    /// How far the actual lag has drifted from the intended one, in frames.
    pub fn drift(&self) -> (drift: Option<i128>)
        ensures
            match self.observed_offset {
                Some(observed) => drift == Some((observed - self.wanted_offset) as i128),
                None => drift is None,
            },
    {
        match self.observed_offset {
            Some(observed) => Some(observed as i128 - self.wanted_offset as i128),
            None => None,
        }
    }
}

/// What the system says about a running route's parts.
#[derive(Clone, Copy, Debug)]
pub struct Readings {
    pub ring_running: bool,
    pub engine_running: bool,
    /// The bits of the varispeed rate in force, and of the nominal one.
    pub rate: u32,
    pub nominal_rate: u32,
    /// What the virtual device says of itself.
    pub muted: Option<bool>,
    pub volume: Option<u32>,
}

impl Route {
    /// What the volume control of the virtual device stands at, as far as it can
    /// be known.
    pub open spec fn device_reading(self, muted: Option<bool>, volume: Option<u32>) -> Option<u32> {
        if self.driver is None {
            None
        } else if muted == Some(true) {
            Some(0)
        } else {
            volume
        }
    }

    /// Whether a reading is a move of the volume control.
    pub open spec fn moved(self, volume: u32) -> bool {
        volume - self.device_volume >= VOLUME_STEP || self.device_volume - volume >= VOLUME_STEP
    }

    /// This route one step later, and what that asks of the system; `peak` is
    /// what the meter read.
    pub open spec fn after_tick(self, readings: Readings, peak: u32) -> (Route, Seq<Action>) {
        match self.device_reading(readings.muted, readings.volume) {
            Some(volume) if self.moved(volume) => (
                Route {
                    device_volume: clamped_volume(volume),
                    volume_changed: Some(volume),
                    level: peak,
                    ..self
                },
                volume_actions(self.target, self.driver, clamped_volume(volume), false),
            ),
            _ => (Route { volume_changed: None, level: peak, ..self }, Seq::empty()),
        }
    }

    pub fn target(&self) -> (target: &Device)
        ensures
            *target == self.target,
    {
        &self.target
    }

    pub open spec fn stopped_on_target(self) -> Route {
        Route {
            previous: PreviousDefaults {
                output: Some(self.target.id),
                system: Some(self.target.id),
            },
            ..self
        }
    }

    /// The route once the user switched it off while hearing the target.
    ///
    /// An ordinary end restores the defaults captured when the route started.
    /// That is right while replacing a half-built route, but stale after the
    /// user has selected a different output and the route has been retargeted.
    /// An explicit switch-off removes only our proxy, and does not undo the
    /// user's device choice.
    pub fn stop_on_target(self) -> (route: Route)
        ensures
            route == self.stopped_on_target(),
    {
        let id: u32 = self.target.id;
        Route { previous: PreviousDefaults { output: Some(id), system: Some(id) }, ..self }
    }

    pub fn settings(&self) -> (settings: &Settings)
        ensures
            *settings == self.settings,
    {
        &self.settings
    }

    /// Takes new EQ settings; they are to be pushed at the running graph.
    pub fn apply(&mut self, settings: Settings)
        ensures
            *final(self) == (Route { settings, ..*old(self) }),
    {
        self.settings = settings;
    }

    /// Sets the master volume, and mirrors it onto the virtual device so the
    /// menu bar shows what the panel shows.
    pub fn set_volume(&mut self, volume: u32) -> (actions: Vec<Action>)
        ensures
            *final(self) == (Route { device_volume: clamped_volume(volume), ..*old(self) }),
            actions@ == volume_actions(
                old(self).target,
                old(self).driver,
                clamped_volume(volume),
                true,
            ),
    {
        self.apply_volume(volume, true)
    }

    /// Applies the master volume where it belongs.
    ///
    /// `mirror` writes the value back to the virtual device. False when the
    /// value came *from* the virtual device, which stops our own write being
    /// read back as a fresh user action.
    pub fn apply_volume(&mut self, volume: u32, mirror: bool) -> (actions: Vec<Action>)
        ensures
            *final(self) == (Route { device_volume: clamped_volume(volume), ..*old(self) }),
            actions@ == volume_actions(
                old(self).target,
                old(self).driver,
                clamped_volume(volume),
                mirror,
            ),
    {
        let volume: u32 = clamp_volume(volume);
        let mut actions: Vec<Action> = Vec::new();
        if self.target.volume_is_settable {
            actions.push(Action::SetVolume { id: self.target.id, volume });
            actions.push(Action::SetMixerGain { gain: UNITY });
        } else {
            actions.push(Action::SetMixerGain { gain: volume });
        }
        if mirror {
            match &self.driver {
                Some(driver) => {
                    actions.push(Action::SetVolume { id: driver.id, volume });
                },
                None => {},
            }
        }
        self.device_volume = volume;
        assert(actions@ =~= volume_actions(old(self).target, old(self).driver, volume, mirror));
        actions
    }

    /// The virtual device, while one is published.
    pub fn driver(&self) -> (driver: Option<&Device>)
        ensures
            match self.driver {
                Some(device) => driver == Some(&device),
                None => driver is None,
            },
    {
        match &self.driver {
            Some(device) => Some(device),
            None => None,
        }
    }

    /// Whether the system's output is the virtual device.
    pub fn claimed_default(&self) -> (claimed: bool)
        ensures
            claimed == self.claimed,
    {
        self.claimed
    }

    /// Why it is not, when it is not.
    pub fn claim_status(&self) -> (status: i32)
        ensures
            status == self.claim_status,
    {
        self.claim_status
    }

    /// Picks up a volume change made outside the panel: the menu-bar slider,
    /// the volume keys, another application. `muted` and `volume` are what the
    /// virtual device says of itself.
    ///
    /// Returns the new volume when it moved, so the caller can follow it, and
    /// what is to be asked of the system.
    pub fn follow_device_volume(&mut self, muted: Option<bool>, volume: Option<u32>) -> (followed: (
        Option<u32>,
        Vec<Action>,
    ))
        ensures
            match old(self).device_reading(muted, volume) {
                Some(volume) if old(self).moved(volume) => {
                    &&& followed.0 == Some(volume)
                    &&& followed.1@ == volume_actions(
                        old(self).target,
                        old(self).driver,
                        clamped_volume(volume),
                        false,
                    )
                    &&& *final(self) == (Route {
                        device_volume: clamped_volume(volume),
                        ..*old(self)
                    })
                },
                _ => followed.0 is None && followed.1@ == Seq::<Action>::empty() && *final(self)
                    == *old(self),
            },
    {
        if self.driver.is_none() {
            return (None, Vec::new());
        }
        let is_muted: bool = match muted {
            Some(muted) => muted,
            None => false,
        };
        let volume: u32 = if is_muted {
            0
        } else {
            match volume {
                Some(volume) => volume,
                None => {
                    return (None, Vec::new());
                },
            }
        };
        let distance: u32 = if volume < self.device_volume {
            self.device_volume - volume
        } else {
            volume - self.device_volume
        };
        if distance < VOLUME_STEP {
            return (None, Vec::new());
        }
        let actions = self.apply_volume(volume, false);
        (Some(volume), actions)
    }

    /// The master volume, wherever it is currently being applied.
    pub fn volume(&self) -> (volume: u32)
        ensures
            volume == self.device_volume,
    {
        self.device_volume
    }

    /// The two places a gain can be applied on the way out, given what our mixer
    /// and the hardware say they stand at: the hardware counts only where it has
    /// a volume control.
    ///
    /// Their product is what the user hears. "Applied twice" is inaudible as a
    /// bug and obvious as a number.
    pub fn gain_stages(&self, mixer: u32, hardware: Option<u32>) -> (gains: (u32, Option<u32>))
        ensures
            gains == (mixer, if self.target.volume_is_settable {
                hardware
            } else {
                None
            }),
    {
        if self.target.volume_is_settable {
            (mixer, hardware)
        } else {
            (mixer, None)
        }
    }

    /// One step of the monitoring: takes the meter and follows the volume
    /// control. Returns what the route is doing and what is to be asked of the
    /// system.
    pub fn tick<T: Copy>(&mut self, bridge: &mut Bridge<T>, readings: Readings) -> (ticked: (
        Health,
        Vec<Action>,
    ))
        requires
            old(bridge).wf(),
            old(bridge).clocks().can_trail(),
        ensures
            final(bridge).wf(),
            final(bridge).buffer() == old(bridge).buffer(),
            final(bridge).clocks() == (crate::bridge::Timeline {
                peak: 0,
                ..old(bridge).clocks()
            }),
            ticked.0 == (Health {
                running: readings.ring_running && readings.engine_running,
                rate: readings.rate,
                nominal_rate: readings.nominal_rate,
                wanted_offset: old(bridge).clocks().safety_offset,
                observed_offset: match old(bridge).clocks().trail() {
                    Some(trail) => Some(trail as i64),
                    None => None,
                },
                realignments: old(bridge).clocks().realignments,
                level: old(bridge).clocks().peak,
            }),
            *final(self) == old(self).after_tick(readings, old(bridge).clocks().peak).0,
            ticked.1@ == old(self).after_tick(readings, old(bridge).clocks().peak).1,
    {
        self.level = bridge.take_peak();
        let (changed, actions) = self.follow_device_volume(readings.muted, readings.volume);
        self.volume_changed = changed;
        (self.health(bridge, readings), actions)
    }

    /// The volume the last tick picked up from the virtual device, if it moved.
    pub fn volume_changed(&self) -> (volume: Option<u32>)
        ensures
            volume == self.volume_changed,
    {
        self.volume_changed
    }

    /// The rate the route was built for: the hardware's, in millihertz.
    pub fn rate(&self) -> (rate: u64)
        ensures
            rate == self.rate,
    {
        self.rate
    }

    /// Whether the output device has been moved to another sample rate since
    /// the route was built, given the rate it publishes now.
    ///
    /// A graph does not follow a rate change: it keeps rendering at the rate it
    /// was built for while the device runs at another, and what comes out is
    /// silence or a stutter. The caller rebuilds.
    pub fn rate_changed(&self, now: Option<u64>) -> (changed: bool)
        ensures
            changed == (match usable_rate(now) {
                Some(rate) => rate - self.rate >= RATE_STEP || self.rate - rate >= RATE_STEP,
                None => false,
            }),
    {
        match now {
            Some(rate) => {
                if rate == 0 {
                    false
                } else if rate < self.rate {
                    self.rate - rate >= RATE_STEP
                } else {
                    rate - self.rate >= RATE_STEP
                }
            },
            None => false,
        }
    }

    pub fn health<T: Copy>(&self, bridge: &Bridge<T>, readings: Readings) -> (health: Health)
        requires
            bridge.clocks().can_trail(),
        ensures
            health == (Health {
                running: readings.ring_running && readings.engine_running,
                rate: readings.rate,
                nominal_rate: readings.nominal_rate,
                wanted_offset: bridge.clocks().safety_offset,
                observed_offset: match bridge.clocks().trail() {
                    Some(trail) => Some(trail as i64),
                    None => None,
                },
                realignments: bridge.clocks().realignments,
                level: self.level,
            }),
    {
        Health {
            running: readings.ring_running && readings.engine_running,
            rate: readings.rate,
            nominal_rate: readings.nominal_rate,
            wanted_offset: bridge.safety_offset(),
            observed_offset: bridge.observed_offset(),
            realignments: bridge.realignments(),
            level: self.level,
        }
    }

    pub open spec fn undoing(self) -> Seq<Action> {
        self.previous.restoring() + (if self.driver is Some {
            seq![Action::Unpublish]
        } else {
            Seq::empty()
        }) + seq![Action::ResetBridge]
    }

    /// What is to be asked of the system as the route ends. Order matters: the
    /// system is put back on a real device first, so the moment our device
    /// disappears nothing is pointed at it.
    pub fn teardown(&self) -> (actions: Vec<Action>)
        ensures
            actions@ == self.undoing(),
    {
        let mut actions = self.previous.restore();
        if self.driver.is_some() {
            actions.push(Action::Unpublish);
        }
        actions.push(Action::ResetBridge);
        assert(actions@ =~= self.undoing());
        actions
    }
}

// --- starting a route -------------------------------------------------------

/// The frames of the ring between the two clocks: two seconds of audio, far
/// more than the safety offset needs. Having it means a stalled reader recovers
/// instead of hearing a hole.
pub fn ring_frames(rate: u64) -> (frames: usize)
    requires
        rate * 2 <= u64::MAX,
        rate * 2 / 1000 <= usize::MAX,
    ensures
        frames == rate * 2 / 1000,
{
    (rate * 2 / 1000) as usize
}

/// How far behind the writer the reader should sit: everything the output can
/// be late by, twice over for the driver that feeds it, plus a margin for the
/// frames before either end has settled.
pub fn safety_offset(safety: Option<u32>, buffer: Option<u32>) -> (frames: i64)
    requires
        (match safety {
            Some(safety) => safety as int,
            None => 0,
        }) + (match buffer {
            Some(buffer) => buffer as int,
            None => 512,
        }) <= u32::MAX,
    ensures
        frames == ((match safety {
            Some(safety) => safety as int,
            None => 0,
        }) + (match buffer {
            Some(buffer) => buffer as int,
            None => 512,
        })) * 2 + SAFETY_MARGIN,
{
    let safety: u32 = match safety {
        Some(safety) => safety,
        None => 0,
    };
    let buffer: u32 = match buffer {
        Some(buffer) => buffer,
        None => 512,
    };
    (safety + buffer) as i64 * 2 + SAFETY_MARGIN
}

/// A route as far as it has been built.
#[derive(Debug)]
pub struct Setup {
    pub target: Device,
    pub rate: u64,
    pub volume: u32,
    pub settings: Settings,
    pub driver: Option<Device>,
    pub previous: PreviousDefaults,
    pub claimed: bool,
    pub claim_status: i32,
}

/// Where the start of a route stands.
#[derive(Debug)]
pub enum Starting {
    /// The virtual device is being published, before anything else, so the
    /// system has somewhere to be sent.
    Publishing { setup: Setup },
    /// The virtual device is being made the system's output.
    Claiming { setup: Setup },
    /// The driver's ring is being mapped: it has to exist before the engine
    /// that reads it, and mapping it is also the check that the installed
    /// driver is the one this app was built against.
    Mapping { setup: Setup },
    /// The output engine is being started.
    Playing { setup: Setup },
    Started { route: Route },
    Failed { error: RouteError },
}

#[derive(Debug)]
pub enum StartEvent {
    /// The virtual device, if it could be published, what the system's outputs
    /// were before, and what the hardware's own volume control stands at.
    Published {
        driver: Option<Device>,
        previous: PreviousDefaults,
        hardware_volume: Option<u32>,
    },
    Claimed { claimed: bool, status: i32 },
    NotMapped { error: SharedError },
    /// The ring is mapped; the rate the driver publishes now, and the one it
    /// published when it was mapped.
    Mapped { rate: u64, opened_rate: u64 },
    NotPlaying { cause: PlaybackError },
    Playing,
}

pub open spec fn larger(left: u64, right: u64) -> u64 {
    if left < right {
        right
    } else {
        left
    }
}

fn larger_of(left: u64, right: u64) -> (larger_one: u64)
    ensures
        larger_one == larger(left, right),
{
    if left < right {
        right
    } else {
        left
    }
}

/// Why `target` cannot be routed to, if it cannot.
pub open spec fn unsuitable(target: Device) -> Option<RouteError> {
    if target.virtual_device() {
        Some(RouteError::WouldLoop)
    } else if !target.has_output {
        Some(RouteError::NoHardwareOutput)
    } else {
        None
    }
}

/// The volume a route starts at. The hardware's own where it has one, rather
/// than the last number the panel held: switching output should not change how
/// loud the machine is.
pub open spec fn starting_volume(target: Device, hardware: Option<u32>, asked: u32) -> u32 {
    clamped_volume(
        match hardware {
            Some(volume) if target.volume_is_settable => volume,
            _ => asked,
        },
    )
}

/// What makes the virtual device a stand-in for the hardware: its name, its
/// rate and its volume. One that runs at another rate than the device it stands
/// in for makes every application resample twice over.
pub open spec fn dressing(driver: Device, rate: u64, volume: u32) -> Seq<Action> {
    seq![Action::Rename { id: driver.id }] + (if driver.sample_rate == Some(rate) {
        Seq::empty()
    } else {
        seq![Action::SetRate { id: driver.id, rate }]
    }) + seq![
        Action::SetVolume { id: driver.id, volume },
        Action::SetMuted { id: driver.id, muted: false },
        Action::Claim { id: driver.id },
    ]
}

impl Setup {
    pub open spec fn route(self) -> Route {
        Route {
            target: self.target,
            driver: self.driver,
            claim_status: self.claim_status,
            claimed: self.claimed,
            previous: self.previous,
            device_volume: clamped_volume(self.volume),
            volume_changed: None,
            rate: self.rate,
            settings: self.settings,
            level: 0,
        }
    }

    /// What the virtual device is called while this route stands: the hardware
    /// it plays to, marked as ours.
    pub fn device_name(&self) -> (name: String)
        ensures
            name@ == self.target.name@ + " (DisEQ)"@,
    {
        proxy_name(&self.target.name)
    }

    /// What a half-built route undoes: it must not leave the system pointed at
    /// a device nothing drains, which is silence with no explanation.
    pub open spec fn abandoning(self) -> Seq<Action> {
        self.previous.restoring().push(Action::Unpublish)
    }

    fn abandon(&self) -> (actions: Vec<Action>)
        ensures
            actions@ == self.abandoning(),
    {
        let mut actions = self.previous.restore();
        actions.push(Action::Unpublish);
        actions
    }
}

impl Starting {
    pub open spec fn awaits(self, event: StartEvent) -> bool {
        match self {
            Starting::Publishing { .. } => event is Published,
            Starting::Claiming { .. } => event is Claimed,
            Starting::Mapping { .. } => event is Mapped || event is NotMapped,
            Starting::Playing { .. } => event is Playing || event is NotPlaying,
            Starting::Started { .. } => false,
            Starting::Failed { .. } => false,
        }
    }

    pub open spec fn after(self, event: StartEvent) -> (Starting, Seq<Action>) {
        match (self, event) {
            (
                Starting::Publishing { setup },
                StartEvent::Published { driver, previous, hardware_volume },
            ) => {
                let volume = starting_volume(setup.target, hardware_volume, setup.volume);
                let setup = Setup { driver, previous, volume, ..setup };
                match driver {
                    Some(device) => (
                        Starting::Claiming { setup },
                        dressing(device, setup.rate, volume),
                    ),
                    None => (Starting::Mapping { setup }, seq![Action::MapRing]),
                }
            },
            (Starting::Claiming { setup }, StartEvent::Claimed { claimed, status }) => (
                Starting::Mapping { setup: Setup { claimed, claim_status: status, ..setup } },
                seq![Action::MapRing],
            ),
            (Starting::Mapping { setup }, StartEvent::NotMapped { error }) => (
                Starting::Failed { error: RouteError::Capture(error) },
                setup.abandoning(),
            ),
            (Starting::Mapping { setup }, StartEvent::Mapped { rate, opened_rate }) => (
                Starting::Playing { setup },
                // The mixer starts out of the way, at unity, rather than
                // guessing where the volume belongs.
                seq![
                    Action::Play {
                        input_rate: larger(larger(rate, opened_rate), setup.rate),
                        gain: UNITY,
                    },
                ],
            ),
            (Starting::Playing { setup }, StartEvent::NotPlaying { cause }) => (
                Starting::Failed { error: RouteError::Playback(cause) },
                setup.abandoning(),
            ),
            (Starting::Playing { setup }, StartEvent::Playing) => (
                Starting::Started { route: setup.route() },
                volume_actions(setup.target, setup.driver, clamped_volume(setup.volume), true),
            ),
            _ => (self, Seq::empty()),
        }
    }

    /// Begins to route everything the system plays through `target`, or says
    /// why it cannot be done.
    pub fn begin(target: &Device, settings: Settings, volume: u32) -> (starting: Result<
        Starting,
        RouteError,
    >)
        ensures
            match unsuitable(*target) {
                Some(error) => starting == Err::<Starting, RouteError>(error),
                None => starting == Ok::<Starting, RouteError>(
                    Starting::Publishing {
                        setup: Setup {
                            target: *target,
                            rate: match usable_rate(target.sample_rate) {
                                Some(rate) => rate,
                                None => DEFAULT_RATE,
                            },
                            volume,
                            settings,
                            driver: None,
                            previous: PreviousDefaults { output: None, system: None },
                            claimed: false,
                            claim_status: 0,
                        },
                    },
                ),
            },
    {
        if target.is_virtual() {
            return Err(RouteError::WouldLoop);
        }
        if !target.has_output {
            return Err(RouteError::NoHardwareOutput);
        }
        let rate: u64 = match target.sample_rate {
            Some(rate) => {
                if rate > 0 {
                    rate
                } else {
                    DEFAULT_RATE
                }
            },
            None => DEFAULT_RATE,
        };
        Ok(
            Starting::Publishing {
                setup: Setup {
                    target: target.clone(),
                    rate,
                    volume,
                    settings,
                    driver: None,
                    previous: PreviousDefaults { output: None, system: None },
                    claimed: false,
                    claim_status: 0,
                },
            },
        )
    }

    /// Takes the system's answer, and says what is to be asked of it next.
    pub fn step(self, event: StartEvent) -> (next: (Starting, Vec<Action>))
        requires
            self.awaits(event),
        ensures
            next.0 == self.after(event).0,
            next.1@ == self.after(event).1,
    {
        let mut actions: Vec<Action> = Vec::new();
        match (self, event) {
            (
                Starting::Publishing { setup },
                StartEvent::Published { driver, previous, hardware_volume },
            ) => {
                let volume: u32 = clamp_volume(
                    match hardware_volume {
                        Some(volume) => {
                            if setup.target.volume_is_settable {
                                volume
                            } else {
                                setup.volume
                            }
                        },
                        None => setup.volume,
                    },
                );
                let mut has_driver: bool = false;
                match &driver {
                    Some(device) => {
                        has_driver = true;
                        actions.push(Action::Rename { id: device.id });
                        let at_rate: bool = match device.sample_rate {
                            Some(rate) => rate == setup.rate,
                            None => false,
                        };
                        if !at_rate {
                            actions.push(Action::SetRate { id: device.id, rate: setup.rate });
                        }
                        actions.push(Action::SetVolume { id: device.id, volume });
                        actions.push(Action::SetMuted { id: device.id, muted: false });
                        actions.push(Action::Claim { id: device.id });
                        assert(actions@ =~= dressing(*device, setup.rate, volume));
                    },
                    None => {
                        actions.push(Action::MapRing);
                        assert(actions@ =~= seq![Action::MapRing]);
                    },
                }
                let setup = Setup { driver, previous, volume, ..setup };
                if has_driver {
                    (Starting::Claiming { setup }, actions)
                } else {
                    (Starting::Mapping { setup }, actions)
                }
            },
            (Starting::Claiming { setup }, StartEvent::Claimed { claimed, status }) => {
                actions.push(Action::MapRing);
                assert(actions@ =~= seq![Action::MapRing]);
                (
                    Starting::Mapping { setup: Setup { claimed, claim_status: status, ..setup } },
                    actions,
                )
            },
            (Starting::Mapping { setup }, StartEvent::NotMapped { error }) => {
                let undo = setup.abandon();
                (Starting::Failed { error: RouteError::from(error) }, undo)
            },
            (Starting::Mapping { setup }, StartEvent::Mapped { rate, opened_rate }) => {
                let input_rate: u64 = larger_of(larger_of(rate, opened_rate), setup.rate);
                actions.push(Action::Play { input_rate, gain: UNITY });
                assert(actions@ =~= seq![Action::Play { input_rate, gain: UNITY }]);
                (Starting::Playing { setup }, actions)
            },
            (Starting::Playing { setup }, StartEvent::NotPlaying { cause }) => {
                let undo = setup.abandon();
                (Starting::Failed { error: RouteError::from(cause) }, undo)
            },
            (Starting::Playing { setup }, StartEvent::Playing) => {
                let volume: u32 = setup.volume;
                let mut route = Route {
                    target: setup.target,
                    driver: setup.driver,
                    claim_status: setup.claim_status,
                    claimed: setup.claimed,
                    previous: setup.previous,
                    device_volume: clamp_volume(volume),
                    volume_changed: None,
                    rate: setup.rate,
                    settings: setup.settings,
                    level: 0,
                };
                // Stage the volume through the one place that knows where it
                // belongs. Turning the effects on must not change how loud the
                // machine is.
                let staged = route.apply_volume(volume, true);
                (Starting::Started { route }, staged)
            },
            (state, _) => (state, actions),
        }
    }
}

/// The virtual device is named after the hardware that the route plays to: it is
/// asked to be renamed once, as soon as it is published, and what is being built
/// by then is still a route to the device that was asked for.
pub proof fn law_the_virtual_device_is_named_after_the_hardware(
    starting: Starting,
    event: StartEvent,
    id: u32,
)
    requires
        starting.awaits(event),
        starting.after(event).1.contains(Action::Rename { id }),
    ensures
        starting matches Starting::Publishing { setup } && event matches StartEvent::Published {
            driver: Some(driver),
            ..
        } && starting.after(event).0 matches Starting::Claiming { setup: dressed } && {
            &&& dressed.target == setup.target
            &&& driver.id == id
            &&& starting.after(event).1[0] == (Action::Rename { id })
            &&& forall|i: int|
                0 < i < starting.after(event).1.len() ==> !((#[trigger] starting.after(
                    event,
                ).1[i]) is Rename)
        },
{
    let actions = starting.after(event).1;
    let at = actions.index_of(Action::Rename { id });
    assert(actions[at] is Rename);
}

/// A start that fails after the virtual device took the output gives it back:
/// the devices that were the system's outputs are made so again, and the virtual
/// device is taken away, last of all.
pub proof fn law_a_failed_start_gives_the_output_back(
    starting: Starting,
    event: StartEvent,
    setup: Setup,
)
    requires
        starting == (Starting::Mapping { setup }) || starting == (Starting::Playing { setup }),
        starting.awaits(event),
        starting.after(event).0 is Failed,
    ensures
        ({
            let actions = starting.after(event).1;
            &&& actions.last() == Action::Unpublish
            &&& setup.previous.output matches Some(id) ==> actions.contains(
                Action::SetDefaultOutput { id },
            )
            &&& setup.previous.system matches Some(id) ==> actions.contains(
                Action::SetDefaultSystemOutput { id },
            )
        }),
{
    let actions = starting.after(event).1;
    assert(actions == setup.abandoning());
    if setup.previous.output is Some {
        assert(actions[0] == (Action::SetDefaultOutput { id: setup.previous.output->0 }));
    }
    if setup.previous.system is Some {
        let at = if setup.previous.output is Some {
            1int
        } else {
            0
        };
        assert(actions[at] == (Action::SetDefaultSystemOutput { id: setup.previous.system->0 }));
    }
}

/// Starting a route does not change how loud the machine is: hardware with a
/// volume control of its own is left at the volume it had.
pub proof fn law_starting_keeps_the_hardware_volume(
    setup: Setup,
    driver: Option<Device>,
    previous: PreviousDefaults,
    hardware: u32,
)
    requires
        setup.target.volume_is_settable,
        hardware <= UNITY,
    ensures
        ({
            let published = StartEvent::Published {
                driver,
                previous,
                hardware_volume: Some(hardware),
            };
            let next = (Starting::Publishing { setup }).after(published).0;
            match next {
                Starting::Claiming { setup } => setup.volume == hardware,
                Starting::Mapping { setup } => setup.volume == hardware,
                _ => false,
            }
        }),
        stages(true, hardware) == (UNITY, Some(hardware)),
{
}

// --- where to ---------------------------------------------------------------

/// Output devices worth routing to: real hardware, not our own driver and not
/// anything else virtual, since routing into another virtual device just moves
/// the problem.
pub fn targets(outputs: &[Device]) -> (listed: Vec<Device>)
    ensures
        listed@ == outputs@.filter(|device: Device| device.worth_routing_to()),
{
    let ghost keeps = |device: Device| device.worth_routing_to();
    let mut listed: Vec<Device> = Vec::new();
    let mut i: usize = 0;
    while i < outputs.len()
        invariant
            i <= outputs@.len(),
            keeps == (|device: Device| device.worth_routing_to()),
            listed@ == outputs@.take(i as int).filter(keeps),
        decreases outputs@.len() - i,
    {
        proof {
            lemma_filter_next(outputs@, i as int, keeps);
        }
        if !outputs[i].is_diseq() && !outputs[i].is_virtual() {
            listed.push(outputs[i].clone());
        }
        i += 1;
    }
    assert(outputs@.take(i as int) == outputs@);
    listed
}

/// Built-in output is the one device that can be relied on to make a sound; the
/// first of the others comes after it.
pub open spec fn fallback(candidates: Seq<Device>) -> Option<Device> {
    match first(candidates, |device: Device| device.transport_type == Some(TRANSPORT_BUILT_IN)) {
        Some(device) => Some(device),
        None => if candidates.len() > 0 {
            Some(candidates[0])
        } else {
            None
        },
    }
}

/// The device the user is most likely to mean: whatever the system is playing
/// through, unless that is already us or anything else virtual.
///
/// The fallback matters more than it looks. When the default output is already
/// our own device, the first device in enumeration order is as likely to be a
/// monitor with no speakers as anything else, and routing to it is silence that
/// looks like success.
pub fn default_target(default_output: Option<Device>, outputs: &[Device]) -> (target: Option<
    Device,
>)
    ensures
        target == (match default_output {
            Some(device) if device.worth_routing_to() => Some(device),
            _ => fallback(outputs@.filter(|device: Device| device.worth_routing_to())),
        }),
{
    match default_output {
        Some(device) => {
            if !device.is_diseq() && !device.is_virtual() {
                return Some(device);
            }
        },
        None => {},
    }
    let candidates = targets(outputs);
    let ghost wanted = |device: Device| device.transport_type == Some(TRANSPORT_BUILT_IN);
    let mut i: usize = 0;
    while i < candidates.len()
        invariant
            i <= candidates@.len(),
            wanted == (|device: Device| device.transport_type == Some(TRANSPORT_BUILT_IN)),
            forall|j: int| 0 <= j < i ==> !wanted(#[trigger] candidates@[j]),
            candidates@ == outputs@.filter(|device: Device| device.worth_routing_to()),
            match default_output {
                Some(device) => !device.worth_routing_to(),
                None => true,
            },
        decreases candidates@.len() - i,
    {
        let built_in: bool = match candidates[i].transport_type {
            Some(value) => value == TRANSPORT_BUILT_IN,
            None => false,
        };
        if built_in {
            proof {
                lemma_first_at(candidates@, wanted, i as int);
            }
            return Some(candidates[i].clone());
        }
        i += 1;
    }
    proof {
        lemma_first_none(candidates@, wanted);
    }
    if candidates.len() > 0 {
        Some(candidates[0].clone())
    } else {
        None
    }
}

// --- what is heard ----------------------------------------------------------

/// The gains that some actions set come to a volume, for a route to `target`: the
/// gain of our mixer times that of the target's own control, or our mixer's alone
/// where the target has none.
pub open spec fn come_to(actions: Seq<Action>, target: Device, volume: int) -> bool {
    &&& exists|i: int| 0 <= i < actions.len() && (#[trigger] actions[i]) is SetMixerGain
    &&& target.volume_is_settable ==> exists|j: int|
        0 <= j < actions.len() && (#[trigger] actions[j]) is SetVolume && actions[j]->SetVolume_id
            == target.id
    &&& forall|i: int, j: int|
        0 <= i < actions.len() && 0 <= j < actions.len() && (#[trigger] actions[i]) is SetMixerGain
            && (#[trigger] actions[j]) is SetVolume && actions[j]->SetVolume_id == target.id
            && target.volume_is_settable ==> actions[i]->SetMixerGain_gain
            * actions[j]->SetVolume_volume == volume * 1_000_000
    &&& forall|i: int|
        0 <= i < actions.len() && (#[trigger] actions[i]) is SetMixerGain
            && !target.volume_is_settable ==> actions[i]->SetMixerGain_gain == volume
}

/// A volume is set where it belongs, and once: the gains come to it, the
/// hardware's own control is driven wherever there is one, nothing but the
/// target and the virtual device is touched, and the virtual device shows it
/// where it did not come from there.
pub proof fn law_a_volume_is_heard_as_it_was_set(
    route: &mut Route,
    volume: u32,
    mirror: bool,
    actions: Vec<Action>,
    shown: u32,
)
    requires
        call_ensures(Route::apply_volume, (route, volume, mirror), actions),
        call_ensures(Route::volume, (&*final(route),), shown),
    ensures
        shown == (if volume > 1_000_000 {
            1_000_000
        } else {
            volume as int
        }),
        come_to(actions@, old(route).target, shown as int),
        mirror && old(route).driver is Some ==> actions@.contains(
            Action::SetVolume { id: old(route).driver->0.id, volume: shown },
        ),
        forall|i: int|
            #![trigger actions@[i]]
            0 <= i < actions@.len() ==> match actions@[i] {
                Action::SetMixerGain { gain } => gain == shown
                    || old(route).target.volume_is_settable && gain == 1_000_000,
                Action::SetVolume { id, volume } => volume == shown && (id == old(route).target.id
                    && old(route).target.volume_is_settable || mirror && old(route).driver is Some
                    && id == old(route).driver->0.id),
                _ => false,
            },
        final(route).target == old(route).target,
        final(route).driver == old(route).driver,
        final(route).previous == old(route).previous,
        final(route).settings == old(route).settings,
{
    let target = old(route).target;
    let at: int = if target.volume_is_settable {
        1
    } else {
        0
    };
    assert(actions@[at] is SetMixerGain);
    assert(actions@[0] is SetVolume || at == 0);
    if mirror && old(route).driver is Some {
        assert(actions@[at + 1] == (Action::SetVolume {
            id: old(route).driver->0.id,
            volume: shown,
        }));
    }
    assert(1_000_000 * shown == shown * 1_000_000) by (nonlinear_arith);
}

/// The master volume is applied like any other, and the virtual device shows it.
pub proof fn law_the_master_volume_is_heard_as_it_was_set(
    route: &mut Route,
    volume: u32,
    actions: Vec<Action>,
    shown: u32,
)
    requires
        call_ensures(Route::set_volume, (route, volume), actions),
        call_ensures(Route::volume, (&*final(route),), shown),
    ensures
        shown == (if volume > 1_000_000 {
            1_000_000
        } else {
            volume as int
        }),
        come_to(actions@, old(route).target, shown as int),
        old(route).driver is Some ==> actions@.contains(
            Action::SetVolume { id: old(route).driver->0.id, volume: shown },
        ),
{
    let target = old(route).target;
    let at: int = if target.volume_is_settable {
        1
    } else {
        0
    };
    assert(actions@[at] is SetMixerGain);
    assert(actions@[0] is SetVolume || at == 0);
    if old(route).driver is Some {
        assert(actions@[at + 1] == (Action::SetVolume {
            id: old(route).driver->0.id,
            volume: shown,
        }));
    }
    assert(1_000_000 * shown == shown * 1_000_000) by (nonlinear_arith);
}

/// The menu-bar slider is followed: a move of the virtual device's control by a
/// thousandth or more becomes the volume that is heard, a muted device is heard
/// at nothing, and a reading that stands where the volume does changes nothing.
/// What came from the virtual device is not written back to it.
pub proof fn law_the_menu_bar_slider_is_followed(
    route: &mut Route,
    muted: Option<bool>,
    volume: Option<u32>,
    followed: (Option<u32>, Vec<Action>),
)
    requires
        call_ensures(Route::follow_device_volume, (route, muted, volume), followed),
        old(route).device_volume <= 1_000_000,
        volume is Some ==> volume->0 <= 1_000_000,
    ensures
        ({
            let reading = if muted == Some(true) {
                Some(0u32)
            } else {
                volume
            };
            let before = old(route).device_volume;
            &&& followed.0 is Some <==> old(route).driver is Some && reading is Some && (
            reading->0 >= before + 1000 || before >= reading->0 + 1000)
            &&& followed.0 is Some ==> followed.0 == reading && final(route).device_volume
                == reading->0 && come_to(followed.1@, old(route).target, reading->0 as int)
            &&& followed.0 is None ==> followed.1@.len() == 0 && *final(route) == *old(route)
            &&& forall|i: int|
                0 <= i < followed.1@.len() && (#[trigger] followed.1@[i]) is SetVolume
                    ==> followed.1@[i]->SetVolume_id == old(route).target.id
        }),
{
    if followed.0 is Some {
        let target = old(route).target;
        let at: int = if target.volume_is_settable {
            1
        } else {
            0
        };
        assert(followed.1@[at] is SetMixerGain);
        assert(followed.1@[0] is SetVolume || at == 0);
        let shown = followed.0->0;
        assert(1_000_000 * shown == shown * 1_000_000) by (nonlinear_arith);
    }
}

/// A volume that was just set is not taken for a move of the slider when the
/// virtual device reads it back.
pub proof fn law_a_set_volume_does_not_echo(
    route: &mut Route,
    volume: u32,
    actions: Vec<Action>,
    then: &mut Route,
    followed: (Option<u32>, Vec<Action>),
)
    requires
        volume <= 1_000_000,
        call_ensures(Route::set_volume, (route, volume), actions),
        *old(then) == *final(route),
        call_ensures(
            Route::follow_device_volume,
            (then, Some(false), Some(volume)),
            followed,
        ),
    ensures
        followed.0 is None,
        followed.1@.len() == 0,
        final(then).device_volume == volume,
{
}

/// A tick reports the loudest sample since the last one, whether both halves
/// run, and the volume that the slider was moved to, and carries out that move.
pub proof fn law_a_tick_reports_what_is_going_on<T: Copy>(
    route: &mut Route,
    bridge: &mut Bridge<T>,
    readings: Readings,
    ticked: (Health, Vec<Action>),
    alone: &mut Route,
    followed: (Option<u32>, Vec<Action>),
)
    requires
        old(bridge).wf(),
        old(bridge).clocks().can_trail(),
        call_ensures(Route::tick::<T>, (route, bridge, readings), ticked),
        *old(alone) == *old(route),
        call_ensures(
            Route::follow_device_volume,
            (alone, readings.muted, readings.volume),
            followed,
        ),
    ensures
        ticked.0.running <==> readings.ring_running && readings.engine_running,
        ticked.0.rate == readings.rate,
        ticked.0.nominal_rate == readings.nominal_rate,
        ticked.0.level == old(bridge).clocks().peak,
        ticked.0.wanted_offset == old(bridge).clocks().safety_offset,
        ticked.0.realignments == old(bridge).clocks().realignments,
        final(bridge).clocks().peak == 0,
        ticked.1@ == followed.1@,
        final(route).volume_changed == followed.0,
        final(route).device_volume == final(alone).device_volume,
        final(route).level == old(bridge).clocks().peak,
        final(route).target == old(route).target,
        final(route).driver == old(route).driver,
        final(route).settings == old(route).settings,
{
}

/// New settings are held by the route and change nothing else of it.
pub proof fn law_settings_are_held_by_the_route(
    route: &mut Route,
    settings: Settings,
    held: &Settings,
)
    requires
        call_ensures(Route::apply, (route, settings), ()),
        call_ensures(Route::settings, (&*final(route),), held),
    ensures
        *held == settings,
        final(route).device_volume == old(route).device_volume,
        final(route).target == old(route).target,
        final(route).driver == old(route).driver,
        final(route).previous == old(route).previous,
        final(route).rate == old(route).rate,
{
}

/// A route that ends puts the system's outputs back before it takes the virtual
/// device away, and takes it away only where there is one.
pub proof fn law_a_route_ends_with_the_system_on_a_real_device(
    route: Route,
    actions: Vec<Action>,
    at: int,
)
    requires
        call_ensures(Route::teardown, (&route,), actions),
        0 <= at < actions@.len(),
    ensures
        route.previous.output is Some ==> actions@[0] == (Action::SetDefaultOutput {
            id: route.previous.output->0,
        }),
        route.previous.system is Some ==> actions@.contains(
            Action::SetDefaultSystemOutput { id: route.previous.system->0 },
        ),
        actions@.contains(Action::Unpublish) <==> route.driver is Some,
        actions@.last() == Action::ResetBridge,
        actions@[at] is SetDefaultOutput ==> actions@[at] == (Action::SetDefaultOutput {
            id: route.previous.output->0,
        }) && route.previous.output is Some,
        actions@[at] is SetDefaultSystemOutput ==> actions@[at] == (
        Action::SetDefaultSystemOutput { id: route.previous.system->0 })
            && route.previous.system is Some,
        actions@[at] == Action::Unpublish ==> at == actions@.len() - 2,
        actions@[at] is SetDefaultOutput || actions@[at] is SetDefaultSystemOutput || actions@[at]
            == Action::Unpublish || actions@[at] == Action::ResetBridge,
{
    let restored = route.previous.restoring();
    if route.previous.system is Some {
        assert(actions@[restored.len() - 1] == (Action::SetDefaultSystemOutput {
            id: route.previous.system->0,
        }));
    }
    if route.driver is Some {
        assert(actions@[restored.len() as int] == Action::Unpublish);
    }
    if actions@.contains(Action::Unpublish) {
        let i = actions@.index_of(Action::Unpublish);
        assert(actions@[i] == Action::Unpublish);
    }
}

/// Switching a route off leaves the system on the hardware the user hears,
/// whatever it was on before the route began.
pub proof fn law_switching_off_stays_on_the_target(
    route: Route,
    stopped: Route,
    actions: Vec<Action>,
)
    requires
        call_ensures(Route::stop_on_target, (route,), stopped),
        call_ensures(Route::teardown, (&stopped,), actions),
    ensures
        stopped.target == route.target,
        stopped.driver == route.driver,
        actions@[0] == (Action::SetDefaultOutput { id: route.target.id }),
        actions@[1] == (Action::SetDefaultSystemOutput { id: route.target.id }),
{
}

/// Claiming the system's output ends: it succeeds as soon as it took, and is
/// given up after twelve attempts. The second attempt follows at once, every
/// further one after a pause.
pub proof fn law_claiming_the_output_ends(attempt: u32, status: i32, took: bool, claim: Claim)
    requires
        attempt < 12,
        call_ensures(claim_default, (attempt, status, took), claim),
    ensures
        took ==> claim == (Claim::Done { claimed: true, status }),
        !took && attempt == 11 ==> claim == (Claim::Done { claimed: false, status }),
        !took && attempt < 11 ==> claim == (Claim::Again {
            attempt: (attempt + 1) as u32,
            pause: attempt > 0,
        }),
{
}

/// Only real hardware with an output can be routed to, at the rate it runs at.
pub proof fn law_only_hardware_is_routed_to(
    target: Device,
    settings: Settings,
    volume: u32,
    starting: Result<Starting, RouteError>,
)
    requires
        call_ensures(Starting::begin, (&target, settings, volume), starting),
    ensures
        ({
            let is_virtual = target.transport_type == Some(0x7669_7274u32) || target.transport_type
                == Some(0x6772_7570u32);
            &&& is_virtual ==> starting == Err::<Starting, RouteError>(RouteError::WouldLoop)
            &&& !is_virtual && !target.has_output ==> starting == Err::<Starting, RouteError>(
                RouteError::NoHardwareOutput,
            )
            &&& !is_virtual && target.has_output ==> (starting matches Ok(
                Starting::Publishing { setup },
            ) && setup.target == target && setup.settings == settings && setup.volume == volume
                && setup.driver is None && !setup.claimed && setup.rate == (
            match target.sample_rate {
                Some(rate) => if rate > 0 {
                    rate
                } else {
                    48_000_000
                },
                None => 48_000_000,
            }))
        }),
{
}

/// A published device is made a stand-in for the hardware: renamed, at its rate,
/// at its volume and audible, and only then made the system's output. Without
/// one the driver's ring is mapped at once.
pub proof fn law_the_stand_in_takes_after_the_hardware(
    setup: Setup,
    driver: Option<Device>,
    previous: PreviousDefaults,
    hardware_volume: Option<u32>,
    next: (Starting, Vec<Action>),
    i: int,
)
    requires
        call_ensures(
            Starting::step,
            (
                Starting::Publishing { setup },
                StartEvent::Published { driver, previous, hardware_volume },
            ),
            next,
        ),
        0 <= i < next.1@.len(),
    ensures
        ({
            let asked = if setup.target.volume_is_settable && hardware_volume is Some {
                hardware_volume->0
            } else {
                setup.volume
            };
            let volume = if asked > 1_000_000 {
                1_000_000u32
            } else {
                asked
            };
            let built = match next.0 {
                Starting::Claiming { setup } => setup,
                Starting::Mapping { setup } => setup,
                _ => arbitrary(),
            };
            &&& driver is None ==> next.0 is Mapping && next.1@[i] == Action::MapRing
            &&& driver is Some ==> {
                let id = driver->0.id;
                &&& next.0 is Claiming
                &&& next.1@[0] == (Action::Rename { id })
                &&& next.1@.last() == (Action::Claim { id })
                &&& next.1@.contains(Action::SetVolume { id, volume })
                &&& next.1@.contains(Action::SetMuted { id, muted: false })
                &&& driver->0.sample_rate == Some(setup.rate) ==> !(next.1@[i] is SetRate)
                &&& driver->0.sample_rate != Some(setup.rate) ==> next.1@[1] == (Action::SetRate {
                    id,
                    rate: setup.rate,
                })
                &&& match next.1@[i] {
                    Action::SetVolume { id: to, volume: at } => to == id && at == volume,
                    Action::SetMuted { id: to, muted } => to == id && !muted,
                    Action::SetRate { id: to, rate } => to == id && rate == setup.rate,
                    Action::Rename { id: to } => to == id,
                    Action::Claim { id: to } => to == id,
                    _ => false,
                }
            }
            &&& built == (Setup { driver, previous, volume, ..setup })
        }),
{
    if driver is Some {
        let last = next.1@.len() - 1;
        assert(next.1@[last - 1] == (Action::SetMuted { id: driver->0.id, muted: false }));
        assert(next.1@[last - 2] is SetVolume);
    }
}

/// The rest of a start: the ring is mapped once the output was claimed or could
/// not be; the engine then runs at the highest of the three rates, at unity; and
/// the route that stands in the end plays to the hardware that was asked for, at
/// the volume it was set up with.
pub proof fn law_a_route_comes_up_as_it_was_set_up(
    setup: Setup,
    event: StartEvent,
    starting: Starting,
    next: (Starting, Vec<Action>),
)
    requires
        starting.awaits(event),
        setup.volume <= 1_000_000,
        call_ensures(Starting::step, (starting, event), next),
    ensures
        starting == (Starting::Claiming { setup }) ==> next.1@ == seq![Action::MapRing] && next.0
            == (Starting::Mapping {
            setup: Setup {
                claimed: event->claimed,
                claim_status: event->status,
                ..setup
            },
        }),
        starting == (Starting::Mapping { setup }) && event is Mapped ==> {
            &&& next.0 == (Starting::Playing { setup })
            &&& next.1@.len() == 1
            &&& next.1@[0] is Play
            &&& next.1@[0]->Play_gain == 1_000_000
            &&& next.1@[0]->input_rate >= event->rate
            &&& next.1@[0]->input_rate >= event->opened_rate
            &&& next.1@[0]->input_rate >= setup.rate
            &&& next.1@[0]->input_rate == event->rate || next.1@[0]->input_rate
                == event->opened_rate || next.1@[0]->input_rate == setup.rate
        },
        starting == (Starting::Mapping { setup }) && event is NotMapped ==> next.0 == (
        Starting::Failed { error: RouteError::Capture(event->error) }),
        starting == (Starting::Playing { setup }) && event is NotPlaying ==> next.0 == (
        Starting::Failed { error: RouteError::Playback(event->cause) }),
        starting == (Starting::Playing { setup }) && event is Playing ==> (
        next.0 matches Starting::Started { route } && {
            &&& route.target == setup.target
            &&& route.driver == setup.driver
            &&& route.previous == setup.previous
            &&& route.rate == setup.rate
            &&& route.settings == setup.settings
            &&& route.claimed == setup.claimed
            &&& route.device_volume == setup.volume
            &&& route.volume_changed is None
            &&& come_to(next.1@, setup.target, setup.volume as int)
        }),
{
    if starting == (Starting::Playing { setup }) && event is Playing {
        let at: int = if setup.target.volume_is_settable {
            1
        } else {
            0
        };
        let volume = setup.volume;
        assert(next.1@[at] is SetMixerGain);
        assert(next.1@[0] is SetVolume || at == 0);
        assert(1_000_000 * volume == volume * 1_000_000) by (nonlinear_arith);
    }
}

/// The ring holds two seconds of audio, and the reader stays behind the writer by
/// all that the output can be late by, twice over, and 512 frames.
pub proof fn law_there_is_room_for_being_late(
    rate: u64,
    frames: usize,
    safety: u32,
    buffer: u32,
    offset: i64,
)
    requires
        call_ensures(ring_frames, (rate,), frames),
        call_ensures(safety_offset, (Some(safety), Some(buffer)), offset),
    ensures
        frames * 1000 <= 2 * rate < frames * 1000 + 1000,
        offset == 2 * safety + 2 * buffer + 512,
{
}

/// Another rate is one a hertz or more away; what publishes no rate has none.
pub proof fn law_a_rate_has_changed_by_a_hertz_or_more(
    route: Route,
    now: Option<u64>,
    changed: bool,
)
    requires
        call_ensures(Route::rate_changed, (&route, now), changed),
    ensures
        changed <==> now is Some && now->0 != 0 && (now->0 >= route.rate + 1000 || route.rate
            >= now->0 + 1000),
{
}

/// Outputs are offered one by one, in the system's order: a further one is
/// offered, last, exactly where it is neither ours nor anything else virtual.
pub proof fn law_only_hardware_is_offered(
    outputs: &[Device],
    more: &[Device],
    device: Device,
    listed: Vec<Device>,
    then: Vec<Device>,
)
    requires
        more@ == outputs@.push(device),
        call_ensures(targets, (outputs,), listed),
        call_ensures(targets, (more,), then),
    ensures
        outputs@.len() == 0 ==> listed@.len() == 0,
        then@ == (if device.transport_type == Some(0x7669_7274u32) || device.transport_type == Some(
            0x6772_7570u32,
        ) || device.uid is Some && (device.uid->0)@ == "DisEQDevice"@ {
            listed@
        } else {
            listed@.push(device)
        }),
{
    lemma_filter_push(outputs@, device, |device: Device| device.worth_routing_to());
}

/// Where to play without being told: what the system plays through, while that
/// is hardware; else a built-in output, and where there is none, the first of
/// those that are offered. Nothing is found only where nothing is offered.
pub proof fn law_the_default_is_hardware_that_can_be_heard(
    default_output: Option<Device>,
    outputs: &[Device],
    listed: Vec<Device>,
    target: Option<Device>,
    i: int,
)
    requires
        call_ensures(default_target, (default_output, outputs), target),
        call_ensures(targets, (outputs,), listed),
    ensures
        ({
            let usable = default_output is Some && default_output->0.transport_type != Some(
                0x7669_7274u32,
            ) && default_output->0.transport_type != Some(0x6772_7570u32) && !(
            default_output->0.uid is Some && (default_output->0.uid->0)@ == "DisEQDevice"@);
            &&& usable ==> target == default_output
            &&& !usable ==> (target is None <==> listed@.len() == 0)
            &&& !usable && target is Some ==> listed@.contains(target->0)
            &&& !usable && 0 <= i < listed@.len() && listed@[i].transport_type == Some(
                0x626C_746Eu32,
            ) ==> target is Some && target->0.transport_type == Some(0x626C_746Eu32)
            &&& !usable && target is Some && target->0.transport_type != Some(0x626C_746Eu32)
                ==> target->0 == listed@[0]
        }),
{
    let wanted = |device: Device| device.transport_type == Some(TRANSPORT_BUILT_IN);
    lemma_first(listed@, wanted);
    if 0 <= i < listed@.len() && first(listed@, wanted) is None {
        assert(!wanted(listed@[i]));
    }
}

/// What a route says of itself: its virtual device, its claim, its rate, and
/// where its gain is; the hardware's volume counts only where it can be set.
pub proof fn law_a_route_says_what_it_is(
    route: Route,
    driver: Option<&Device>,
    claimed: bool,
    status: i32,
    rate: u64,
    moved: Option<u32>,
    mixer: u32,
    hardware: Option<u32>,
    gains: (u32, Option<u32>),
)
    requires
        call_ensures(Route::driver, (&route,), driver),
        call_ensures(Route::claimed_default, (&route,), claimed),
        call_ensures(Route::claim_status, (&route,), status),
        call_ensures(Route::rate, (&route,), rate),
        call_ensures(Route::volume_changed, (&route,), moved),
        call_ensures(Route::gain_stages, (&route, mixer, hardware), gains),
    ensures
        driver is Some <==> route.driver is Some,
        driver is Some ==> *(driver->0) == route.driver->0,
        claimed == route.claimed,
        status == route.claim_status,
        rate == route.rate,
        moved == route.volume_changed,
        gains.0 == mixer,
        route.target.volume_is_settable ==> gains.1 == hardware,
        !route.target.volume_is_settable ==> gains.1 is None,
{
}

/// A route's health is what its parts say; its drift is how far the reader is
/// off where it should be.
pub proof fn law_a_route_is_as_healthy_as_its_parts<T: Copy>(
    route: Route,
    bridge: Bridge<T>,
    readings: Readings,
    health: Health,
    drift: Option<i128>,
    lag: Option<i64>,
    safety: i64,
    count: u64,
)
    requires
        bridge.clocks().can_trail(),
        call_ensures(Route::health::<T>, (&route, &bridge, readings), health),
        call_ensures(Health::drift, (&health,), drift),
        call_ensures(Bridge::<T>::observed_offset, (&bridge,), lag),
        call_ensures(Bridge::<T>::safety_offset, (&bridge,), safety),
        call_ensures(Bridge::<T>::realignments, (&bridge,), count),
    ensures
        health.running <==> readings.ring_running && readings.engine_running,
        health.rate == readings.rate,
        health.nominal_rate == readings.nominal_rate,
        health.wanted_offset == safety,
        health.observed_offset == lag,
        health.realignments == count,
        health.level == route.level,
        drift is Some <==> lag is Some,
        drift matches Some(drift) ==> drift == lag->0 - safety,
{
}

/// What went wrong with a route is what went wrong with the part that failed.
pub proof fn law_a_route_error_says_what_went_wrong(
    error: RouteError,
    message: String,
    inner: String,
)
    requires
        call_ensures(RouteError::message, (&error,), message),
        error matches RouteError::Capture(part) ==> call_ensures(
            SharedError::message,
            (&part,),
            inner,
        ),
        error matches RouteError::Playback(part) ==> call_ensures(
            PlaybackError::message,
            (&part,),
            inner,
        ),
    ensures
        match error {
            RouteError::NoHardwareOutput => message@
                == "there is no hardware output device to play to"@,
            RouteError::WouldLoop => message@ == "the target device is a virtual device"@,
            RouteError::Capture(_) => message@ == inner@,
            RouteError::Playback(_) => message@ == inner@,
        },
{
}

/// What was known of the system's outputs is put back, and nothing else; the
/// virtual device is named after the hardware.
pub proof fn law_the_previous_outputs_are_put_back(
    previous: PreviousDefaults,
    actions: Vec<Action>,
    nothing: PreviousDefaults,
    setup: Setup,
    name: String,
    route: Route,
    target: &Device,
)
    requires
        call_ensures(PreviousDefaults::restore, (previous,), actions),
        call_ensures(PreviousDefaults::default, (), nothing),
        call_ensures(Setup::device_name, (&setup,), name),
        call_ensures(Route::target, (&route,), target),
    ensures
        previous.output is Some && previous.system is Some ==> actions@ == seq![
            Action::SetDefaultOutput { id: previous.output->0 },
            Action::SetDefaultSystemOutput { id: previous.system->0 },
        ],
        previous.output is Some && previous.system is None ==> actions@ == seq![
            Action::SetDefaultOutput { id: previous.output->0 },
        ],
        previous.output is None && previous.system is Some ==> actions@ == seq![
            Action::SetDefaultSystemOutput { id: previous.system->0 },
        ],
        previous.output is None && previous.system is None ==> actions@.len() == 0,
        nothing.output is None && nothing.system is None,
        name@ == setup.target.name@ + " (DisEQ)"@,
        *target == route.target,
{
}

} // verus!
