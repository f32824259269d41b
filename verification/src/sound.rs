//! What the Sound section of the panel drives.
//!
//! The rest of the library has the engine; this owns the parts of it the panel
//! can turn on and off, and answers the questions the panel has to ask before
//! it offers a control.
//!
//! Nothing here talks to the system. Where a decision needs something started,
//! ended or looked up, it is handed back as what is to be asked, and the answer
//! comes in through another call.

use vstd::prelude::*;

use crate::bridge::Bridge;
use crate::devices::{Device, Listed, UNITY};
use crate::display::Display;
use crate::eq::{preset_row, selects, Equalizer, Settings, RAMP_FRAME_MS};
use crate::lists::{first, lemma_filter_push, lemma_first_at, lemma_first_none};
use crate::mixer::{is_slot_among, slider_gain, Fader, Mixer, MixerError, MAX_FADERS};
use crate::names::{display_key, display_persistence_key, AppFader};
use crate::prefs::{Config, EqConfig};
use crate::processes::Process;
use crate::router::{clamped_volume, volume_actions, Action, Readings, Route, RouteError};

verus! {

/// Ticks between checks of the system's default output device. At a ~33 ms
/// frame this is about 4 Hz: fast enough that picking a device in Sound
/// settings feels immediate, slow enough not to ask the HAL thirty times a
/// second for something that changes once an hour.
pub const POLL_TICKS: u32 = 8;

/// Ticks to ignore device changes for after making one ourselves.
///
/// Taking the default output is not instant, and for a moment afterwards the
/// system still reports the old device. Without a settling window the next poll
/// reads that as "the user picked something else", rebuilds the route at the
/// old device, and the two chase each other.
pub const SETTLE_TICKS: u32 = 30;

/// Ticks between writes of the settings file. A slider drag changes a value
/// thirty times a second and none of those are worth a write; a second's delay
/// is imperceptible and the file is written on the way out anyway.
pub const SAVE_TICKS: u32 = 30;

/// How often [`SoundService::tick`] wants calling, in milliseconds. The faster
/// of the two: a ramp frame is shorter than a drift step.
pub const TICK_MS: u32 = RAMP_FRAME_MS;

// --- what the panel asks before it draws ------------------------------------

/// The part of a device poll the Sound card draws, sampled either side of a
/// look at the system's output so a poll can say whether the panel has anything
/// new to show.
#[derive(Debug)]
pub struct Poll {
    pub routing: bool,
    pub output: String,
}

impl Poll {
    /// Whether the panel has to be rebuilt to show this poll.
    ///
    /// Routing steadily is deliberately not a change. Every rebuild replaces
    /// the row under the pointer, and a fresh tracking area under a pointer
    /// that is not moving never hears of it, so the highlight blinks; while a
    /// rebuild landing mid-press throws away the button holding the mouse down
    /// and swallows the click.
    pub fn changed(&self, next: &Self) -> (changed: bool)
        ensures
            changed == (self.routing != next.routing || self.output@ != next.output@),
    {
        self.routing != next.routing || self.output != next.output
    }
}

/// What this machine will let the Sound section do.
#[derive(Clone, Copy, Debug)]
pub struct Availability {
    /// The HAL plug-in is loaded. Everything the equaliser does depends on it:
    /// the audio arrives because the plug-in is the output device, which is
    /// also why none of it needs a capture permission.
    pub driver: bool,
}

impl Availability {
    /// Why the equaliser cannot be switched on, if it cannot.
    pub fn eq_blocked(&self) -> (reason: Option<String>)
        ensures
            self.driver ==> reason is None,
            !self.driver ==> (reason matches Some(reason) && reason@
                == "Driver not installed — run 'make driver-install'"@),
    {
        if self.driver {
            None
        } else {
            Some("Driver not installed — run 'make driver-install'".to_owned())
        }
    }

    /// Why the App Mixer cannot be switched on, if it cannot.
    ///
    /// Never answered in advance. Asking costs a process tap, and creating one
    /// is what raises the system-audio-recording prompt, which belongs at the
    /// moment the user switches the mixer on, not at every launch.
    pub fn mixer_blocked(&self) -> (reason: Option<String>)
        ensures
            reason is None,
    {
        None
    }
}

// --- what is asked of the system --------------------------------------------

/// What a decision about the route asks for.
#[derive(Debug)]
pub enum Ask {
    Nothing,
    /// The request is turned down, for a reason to show on the card.
    Refuse { reason: &'static str },
    /// End the route.
    Stop { route: Route },
    /// End the route, then say what is left to play to
    /// ([`SoundService::fall_back`]).
    Replace { lost: Route },
    /// End the old route, if there is one, then start a route to `target` and
    /// report it ([`SoundService::route_started`]). The old one goes first: two
    /// global taps at once is one tap too many.
    Start { ended: Option<Route>, target: Device, settings: Settings, volume: u32 },
}

/// What a decision about the App Mixer asks for.
#[derive(Debug)]
pub enum MixAsk {
    Nothing,
    /// The request is turned down, for a reason to show on the card.
    Refuse { reason: &'static str },
    /// Take the mixer down, which un-mutes every application.
    Stop { mixer: Mixer },
    /// Start a mixer, and report it ([`SoundService::mixer_started`]).
    Start { playing: Vec<Process>, destination: Device },
}

/// What choosing an output asks for.
#[derive(Debug)]
pub enum SelectAsk {
    /// It is the output already.
    Nothing,
    Refuse { reason: &'static str },
    /// Take `mixer` down, and do as `ask` says.
    Reroute { mixer: Option<Mixer>, ask: Ask },
    /// Make `target` the system's output, and report it
    /// ([`SoundService::output_moved`]).
    Move { target: Device },
}

/// What the system says about a running route's devices.
#[derive(Debug)]
pub struct Look {
    /// The hardware is still there.
    pub target_alive: bool,
    /// The virtual device that is published now.
    pub driver: Option<u32>,
    /// The rate the hardware runs at now.
    pub rate: Option<u64>,
    /// The hardware as it describes itself now.
    pub target: Device,
}

/// What a look at the system's output led to.
#[derive(Debug)]
pub struct Followed {
    pub ask: Ask,
    /// Whether the system's own choice of output is still to be looked at
    /// ([`SoundService::follow_default`]), once `ask` is done.
    pub look_on: bool,
}

/// What a tick leaves to be done.
#[derive(Clone, Copy, Debug, PartialEq, Eq, Structural)]
pub struct Ticked {
    /// The panel has something new to draw.
    pub redraw: bool,
    /// The settings are to be written.
    pub save: bool,
    /// The system's output is to be looked at.
    pub poll: bool,
}

impl Ticked {
    /// Whether the panel is to be redrawn once the tick is over: because of the
    /// tick itself, or because the look at the system's output that it asked for
    /// changed what the card draws.
    pub fn redraws(self, before: &Poll, after: &Poll) -> (redraw: bool)
        ensures
            redraw == (self.redraw || (self.poll && (before.routing != after.routing
                || before.output@ != after.output@))),
    {
        self.redraw || (self.poll && before.changed(after))
    }
}

/// One thing a launch does.
#[derive(Clone, Copy, Debug, PartialEq, Eq, Structural)]
pub enum LaunchStep {
    /// Switch the route on.
    Route,
    /// Set the volume.
    Volume { volume: u32 },
    /// Switch the App Mixer on.
    Mix,
}

/// What a launch does, in order. The route comes first, and the saved volume
/// after it, because a route adopts the hardware's volume and the saved one is
/// the one the user chose. The mixer comes last, so that what it mixes lands in
/// front of the equaliser.
pub open spec fn launching(routing: bool, mixing: bool, volume: u32) -> Seq<LaunchStep> {
    (if routing {
        seq![LaunchStep::Route, LaunchStep::Volume { volume }]
    } else {
        Seq::empty()
    }) + (if mixing {
        seq![LaunchStep::Mix]
    } else {
        Seq::empty()
    })
}

/// What follows an attempt to move to another output.
#[derive(Clone, Copy, Debug, PartialEq, Eq, Structural)]
pub struct Aftermath {
    /// The App Mixer is to be switched on again, over wherever the audio goes
    /// now.
    pub remix: bool,
    /// The settings are to be written, after that.
    pub save: bool,
}

/// What follows once the mixer was taken down to move to another output: one
/// that ran is rebuilt whether or not the move succeeded, and the settings are
/// written where it did.
pub fn after_output_moved(was_mixing: bool, moved: bool) -> (aftermath: Aftermath)
    ensures
        aftermath == (Aftermath { remix: was_mixing, save: moved }),
{
    Aftermath { remix: was_mixing, save: moved }
}

/// What choosing an output comes to, where the move came to `moved` and
/// rebuilding the mixer to `mixed`: a failed move is what is reported, whatever
/// became of the mixer.
pub fn output_outcome(moved: Result<(), String>, mixed: Result<(), String>) -> (outcome: Result<
    (),
    String,
>)
    ensures
        outcome == (if moved is Err {
            moved
        } else {
            mixed
        }),
{
    if moved.is_err() {
        moved
    } else {
        mixed
    }
}

/// What is left running when everything goes away.
#[derive(Debug)]
pub struct Remains {
    /// The settings are to be written, before anything is taken down.
    pub save: bool,
    pub mixer: Option<Mixer>,
    pub route: Option<Route>,
}

/// A mixer that is being rebuilt.
#[derive(Debug)]
pub struct Rebuild {
    /// The mixer to take down first.
    pub ended: Option<Mixer>,
    /// The levels its faders stood at.
    pub previous: Vec<(u32, u32)>,
    pub ask: MixAsk,
}

// --- the service ------------------------------------------------------------

#[derive(Debug)]
pub struct SoundService {
    pub availability: Availability,
    pub equalizer: Equalizer,
    /// The hardware the route plays to. `None` when there is no output at all.
    pub target: Option<Device>,
    pub route: Option<Route>,
    pub mixer: Option<Mixer>,
    /// Master volume, in millionths. Applies to the route when one is running
    /// and to the output device otherwise, so the slider means the same thing
    /// either way.
    pub volume: u32,
    /// Frames since construction, so the device poll can run at its own rate
    /// rather than the ramp's.
    pub ticks: u32,
    /// Ticks left before device changes are believed again. Set whenever we
    /// change the system's output ourselves.
    pub settle: u32,
    /// How many routes have been started. Churn here is a rebuild loop, and a
    /// rebuild loop is silence.
    pub generation: u32,
    /// Everything that outlives the process.
    pub config: Config,
    /// Whether `config` has changed since it was last written.
    pub dirty: bool,
}

impl Config {
    /// Whether a device is another than the one remembered.
    pub open spec fn forgets(self, target: Device) -> bool {
        target.uid matches Some(uid) && !(self.target_uid matches Some(kept) && kept@ == uid@)
    }

    /// These settings with the device the route is playing to, by UID.
    pub open spec fn remembering(self, target: Device) -> Config {
        if self.forgets(target) {
            Config { target_uid: target.uid, ..self }
        } else {
            self
        }
    }
}

impl SoundService {
    pub open spec fn wf(self) -> bool {
        &&& self.equalizer.wf()
        &&& self.config.wf()
        &&& self.mixer matches Some(mixer) ==> mixer.wf()
    }

    /// The device the user is actually hearing: the route's, not the system's.
    pub open spec fn heard(self) -> Option<Device> {
        match self.route {
            Some(route) => Some(route.target),
            None => self.target,
        }
    }

    /// This service with its equaliser changed: the change is pushed at the
    /// route and copied into the settings to be written.
    ///
    /// The ramp's destination is what is written, rather than its current
    /// value: saving mid-transition would restore a half-applied preset.
    pub open spec fn retuned(self, before: SoundService) -> bool {
        &&& self.wf()
        &&& self.config.eq.records(
            self.equalizer.goal(),
            preset_row(self.equalizer.choice()).id@,
        )
        &&& self == (SoundService {
            equalizer: self.equalizer,
            route: before.pushed(self.equalizer),
            config: Config { eq: self.config.eq, ..before.config },
            dirty: true,
            ..before
        })
    }

    /// The route with an equaliser's settings.
    pub open spec fn pushed(self, equalizer: Equalizer) -> Option<Route> {
        match self.route {
            Some(route) => Some(Route { settings: equalizer.current(), ..route }),
            None => None,
        }
    }

    /// The service of a launch. `target` is the device to play to
    /// ([`remembered_target`]).
    ///
    /// The volume is the saved one, not the device's: the point of persistence
    /// is that the machine comes back the way it was left. The equaliser is
    /// restored without a ramp, and by its gains rather than by its preset's
    /// name: moving a band after choosing a preset leaves gains that no preset
    /// matches, and applying the name on top would throw those edits away.
    pub fn new(availability: Availability, config: Config, target: Option<Device>) -> (service:
        Self)
        requires
            config.wf(),
        ensures
            service.wf(),
            exists|saved: Settings|
                #[trigger] config.eq.reads_as(saved) && saved.brought_into_range(
                    service.equalizer.current(),
                ),
            service.equalizer.goal() == service.equalizer.current(),
            service.equalizer.ramping() is None,
            // The label is derived from the gains, which gets it right whether
            // or not a band was moved after a preset was chosen.
            selects(service.equalizer.current().gains@, service.equalizer.choice()),
            service == (SoundService {
                availability,
                equalizer: service.equalizer,
                target,
                route: None,
                mixer: None,
                volume: clamped_volume(config.volume),
                ticks: 0,
                settle: 0,
                generation: 0,
                config,
                dirty: false,
            }),
    {
        let saved = config.eq.settings();
        let equalizer = Equalizer::new(saved);
        let volume: u32 = if config.volume > UNITY {
            UNITY
        } else {
            config.volume
        };
        assert(config.eq.reads_as(saved));
        SoundService {
            availability,
            equalizer,
            target,
            route: None,
            mixer: None,
            volume,
            ticks: 0,
            settle: 0,
            generation: 0,
            config,
            dirty: false,
        }
    }

    /// What a launch does with the settings it read: it restores the route and
    /// the App Mixer as they were left, and the volume with the route.
    pub fn launch(&self) -> (steps: Vec<LaunchStep>)
        ensures
            steps@ == launching(self.config.routing, self.config.mixing, self.volume),
    {
        let mut steps: Vec<LaunchStep> = Vec::new();
        if self.config.routing {
            steps.push(LaunchStep::Route);
            steps.push(LaunchStep::Volume { volume: self.volume });
        }
        if self.config.mixing {
            steps.push(LaunchStep::Mix);
        }
        assert(steps@ =~= launching(self.config.routing, self.config.mixing, self.volume));
        steps
    }

    /// Takes in what the machine offers now. Cheap enough to call when the
    /// panel opens, which is when a driver installed since launch should
    /// appear. `default_target` is what there is to play to without a route.
    pub fn refresh(&mut self, availability: Availability, default_target: Option<Device>)
        requires
            old(self).wf(),
        ensures
            final(self).wf(),
            match old(self).route {
                // While routing, the device the user hears is the route's, not
                // the system's: the system's is ours.
                Some(route) => *final(self) == (SoundService {
                    availability,
                    target: Some(route.target),
                    ..*old(self)
                }),
                None => *final(self) == (SoundService {
                    availability,
                    target: default_target,
                    volume: match default_target {
                        Some(Device { volume: Some(volume), .. }) => volume,
                        _ => old(self).volume,
                    },
                    settle: settling(old(self).settle),
                    ..*old(self)
                }),
            },
    {
        self.availability = availability;
        match &self.route {
            Some(route) => {
                self.target = Some(route.target().clone());
            },
            None => {
                match &default_target {
                    Some(device) => {
                        match device.volume {
                            Some(volume) => {
                                self.volume = volume;
                            },
                            None => {},
                        }
                    },
                    None => {},
                }
                self.target = default_target;
                self.settle = self.settle.saturating_sub(POLL_TICKS);
            },
        }
    }

    pub fn availability(&self) -> (availability: &Availability)
        ensures
            *availability == self.availability,
    {
        &self.availability
    }

    /// The device name to show in the header: what the user is actually
    /// hearing, which is the route's target rather than the default output.
    pub fn output_name(&self) -> (name: String)
        ensures
            name@ == (match self.heard() {
                Some(device) => device.name@,
                None => "No output"@,
            }),
    {
        match &self.route {
            Some(route) => route.target().name.clone(),
            None => match &self.target {
                Some(target) => target.name.clone(),
                None => "No output".to_owned(),
            },
        }
    }

    /// What the Sound card draws of a device poll.
    pub fn poll(&self) -> (poll: Poll)
        ensures
            poll.routing == (self.route is Some),
            poll.output@ == (match self.heard() {
                Some(device) => device.name@,
                None => "No output"@,
            }),
    {
        Poll { routing: self.is_routing(), output: self.output_name() }
    }

    pub fn is_routing(&self) -> (routing: bool)
        ensures
            routing == (self.route is Some),
    {
        self.route.is_some()
    }

    pub fn is_mixing(&self) -> (mixing: bool)
        ensures
            mixing == (self.mixer is Some),
    {
        self.mixer.is_some()
    }

    pub fn settings(&self) -> (settings: &Settings)
        ensures
            *settings == self.equalizer.current(),
    {
        self.equalizer.settings()
    }

    pub fn selected_preset(&self) -> (id: &'static str)
        requires
            self.wf(),
        ensures
            id == preset_row(self.equalizer.choice()).id,
    {
        self.equalizer.selected_preset()
    }

    pub fn is_ramping(&self) -> (ramping: bool)
        ensures
            ramping == (self.equalizer.ramping() is Some),
    {
        self.equalizer.is_ramping()
    }

    pub fn volume(&self) -> (volume: u32)
        ensures
            volume == self.volume,
    {
        self.volume
    }
}

/// The count of frames after one more.
pub open spec fn next_tick(ticks: u32) -> u32 {
    if ticks == u32::MAX {
        0
    } else {
        (ticks + 1) as u32
    }
}

/// Ticks left to settle, once a poll has passed.
pub open spec fn settling(settle: u32) -> u32 {
    if settle < POLL_TICKS {
        0
    } else {
        (settle - POLL_TICKS) as u32
    }
}

// --- routing ----------------------------------------------------------------

impl SoundService {
    /// Records the device the route is playing to, by UID.
    fn remember_target(&mut self, target: &Device)
        ensures
            *final(self) == (SoundService {
                config: old(self).config.remembering(*target),
                dirty: old(self).dirty || old(self).config.forgets(*target),
                ..*old(self)
            }),
    {
        match &target.uid {
            Some(uid) => {
                let kept: bool = match &self.config.target_uid {
                    Some(kept) => *kept == *uid,
                    None => false,
                };
                if !kept {
                    self.config.target_uid = Some(uid.clone());
                    self.dirty = true;
                }
            },
            None => {},
        }
    }

    /// Starts or stops routing.
    ///
    /// Stopping removes our proxy without restoring the stale device snapshot
    /// from when enhancement first started: the route may have followed a later
    /// output selection, and switching enhancement off must not undo that
    /// choice.
    pub fn set_routing(&mut self, on: bool) -> (ask: Ask)
        requires
            old(self).wf(),
        ensures
            final(self).wf(),
            match (on, old(self).route) {
                (true, Some(_)) => ask is Nothing && *final(self) == *old(self),
                (false, None) => ask is Nothing && *final(self) == *old(self),
                (false, Some(route)) => {
                    &&& ask == (Ask::Stop { route: route.stopped_on_target() })
                    &&& *final(self) == (SoundService {
                        route: None,
                        target: Some(route.target),
                        config: Config { routing: false, ..old(self).config },
                        dirty: true,
                        ..*old(self)
                    })
                },
                (true, None) => {
                    &&& ask == old(self).starting(old(self).target)
                    &&& *final(self) == (SoundService {
                        config: Config { routing: true, ..old(self).config },
                        dirty: true,
                        ..*old(self)
                    })
                },
            },
    {
        if on == self.is_routing() {
            return Ask::Nothing;
        }
        self.config.routing = on;
        self.dirty = true;
        if !on {
            let ended = self.route.take();
            return match ended {
                Some(route) => {
                    self.target = Some(route.target().clone());
                    Ask::Stop { route: route.stop_on_target() }
                },
                None => Ask::Nothing,
            };
        }
        match &self.target {
            Some(target) => Ask::Start {
                ended: None,
                target: target.clone(),
                settings: *self.equalizer.target(),
                volume: self.volume,
            },
            None => Ask::Refuse { reason: "No output device to play to" },
        }
    }

    /// What starting a route to `target` asks for.
    pub open spec fn starting(self, target: Option<Device>) -> Ask {
        match target {
            Some(target) => Ask::Start {
                ended: None,
                target,
                settings: self.equalizer.goal(),
                volume: self.volume,
            },
            None => Ask::Refuse { reason: "No output device to play to" },
        }
    }

    /// Takes the outcome of starting a route to `target`.
    ///
    /// The route adopts the hardware's volume rather than imposing ours, so the
    /// panel follows it rather than the other way round.
    pub fn route_started(&mut self, target: &Device, started: Result<Route, RouteError>) -> (result:
        Result<(), String>)
        requires
            old(self).wf(),
            started is Ok ==> old(self).generation < u32::MAX,
        ensures
            final(self).wf(),
            match started {
                Ok(route) => {
                    &&& result is Ok
                    &&& *final(self) == (SoundService {
                        volume: route.device_volume,
                        route: Some(route),
                        settle: SETTLE_TICKS,
                        generation: (old(self).generation + 1) as u32,
                        config: old(self).config.remembering(*target),
                        dirty: old(self).dirty || old(self).config.forgets(*target),
                        ..*old(self)
                    })
                },
                Err(error) => {
                    &&& result matches Err(text) && text@ == error.text()
                    &&& *final(self) == *old(self)
                },
            },
    {
        match started {
            Ok(route) => {
                self.remember_target(target);
                self.volume = route.volume();
                self.route = Some(route);
                self.settle = SETTLE_TICKS;
                self.generation = self.generation + 1;
                Ok(())
            },
            Err(error) => Err(error.message()),
        }
    }

    /// This service on its way to another piece of hardware.
    pub open spec fn bound_for(self, target: Device) -> SoundService {
        SoundService { route: None, target: Some(target), ..self }
    }

    /// What moving the route to another piece of hardware asks for.
    pub open spec fn retargeting(self, target: Device) -> Ask {
        Ask::Start {
            ended: self.route,
            target,
            settings: self.equalizer.goal(),
            volume: self.volume,
        }
    }

    /// Moves a running route to another piece of hardware.
    ///
    /// The old route is dropped first: two global taps at once is one tap too
    /// many, and the gap costs a few milliseconds of audio rather than the
    /// double-muting the overlap would cause.
    pub fn retarget(&mut self, target: Device) -> (ask: Ask)
        requires
            old(self).wf(),
        ensures
            final(self).wf(),
            ask == old(self).retargeting(target),
            *final(self) == old(self).bound_for(target),
    {
        let ended = self.route.take();
        self.target = Some(target.clone());
        Ask::Start {
            ended,
            target,
            settings: *self.equalizer.target(),
            volume: self.volume,
        }
    }

    /// A look at the system's output, in the terms of what it leads to.
    ///
    /// The hardware going away (unplugged, powered off, put to sleep) comes
    /// first: a route into a device that no longer exists is silence with a
    /// perfectly healthy status line. Then the virtual device being replaced
    /// underneath the route: a HAL object that has been retracted and
    /// republished is a different object, and every write to the old one is
    /// accepted and discarded. Then the output's sample rate, which nothing in
    /// the graph follows on its own.
    pub open spec fn sees(self, look: Look) -> (SoundService, Followed) {
        if self.settle > 0 {
            (
                SoundService { settle: settling(self.settle), ..self },
                Followed { ask: Ask::Nothing, look_on: false },
            )
        } else {
            match self.route {
                None => (self, Followed { ask: Ask::Nothing, look_on: false }),
                Some(route) => if !look.target_alive {
                    (
                        SoundService { route: None, ..self },
                        Followed { ask: Ask::Replace { lost: route }, look_on: false },
                    )
                } else if route.driver matches Some(held) && look.driver != Some(held.id) {
                    (
                        self.bound_for(route.target),
                        Followed { ask: self.retargeting(route.target), look_on: false },
                    )
                } else if rate_moved(route.rate, look.rate) {
                    (
                        self.bound_for(look.target),
                        Followed { ask: self.retargeting(look.target), look_on: true },
                    )
                } else {
                    (self, Followed { ask: Ask::Nothing, look_on: true })
                },
            }
        }
    }

    /// Keeps the route pointed at whatever the user picked in Sound settings.
    ///
    /// Nothing is rerouted at the system level, so this is the only thing that
    /// notices a device change: without it the audio would keep arriving at the
    /// device the user just left. `look` is what the system says of the route's
    /// devices.
    pub fn follow_system_output(&mut self, look: &Look) -> (followed: Followed)
        requires
            old(self).wf(),
        ensures
            final(self).wf(),
            *final(self) == old(self).sees(*look).0,
            followed == old(self).sees(*look).1,
    {
        if self.settle > 0 {
            self.settle = self.settle.saturating_sub(POLL_TICKS);
            return Followed { ask: Ask::Nothing, look_on: false };
        }
        if !look.target_alive {
            return match self.route.take() {
                Some(route) => Followed { ask: Ask::Replace { lost: route }, look_on: false },
                None => Followed { ask: Ask::Nothing, look_on: false },
            };
        }
        match &self.route {
            None => Followed { ask: Ask::Nothing, look_on: false },
            Some(route) => {
                let replaced: bool = match route.driver() {
                    Some(held) => match look.driver {
                        Some(now) => now != held.id,
                        None => true,
                    },
                    None => false,
                };
                if replaced {
                    let target = route.target().clone();
                    return Followed { ask: self.retarget(target), look_on: false };
                }
                if route.rate_changed(look.rate) {
                    return Followed { ask: self.retarget(look.target.clone()), look_on: true };
                }
                Followed { ask: Ask::Nothing, look_on: true }
            },
        }
    }

    /// Takes what is left to play to once the route's hardware has gone, and
    /// starts over on it.
    pub fn fall_back(&mut self, target: Option<Device>) -> (ask: Ask)
        requires
            old(self).wf(),
            old(self).route is None,
        ensures
            final(self).wf(),
            ask == old(self).starting(target),
            *final(self) == (SoundService {
                target,
                config: Config { routing: true, ..old(self).config },
                dirty: true,
                ..*old(self)
            }),
    {
        self.target = target;
        self.set_routing(true)
    }

    /// Where the route goes now that the system's output is `current`, if it
    /// goes anywhere.
    ///
    /// While routing, the system's output is our own virtual device: that is
    /// what makes the menu-bar slider work on hardware that has no volume of
    /// its own. Anything else means the user picked a device in Sound settings,
    /// and that is the hardware they want to hear. Our own device under another
    /// id is an incarnation that nothing writes to, so the route is rebuilt on
    /// the hardware it has.
    pub open spec fn drawn_to(self, current: Option<Device>) -> Option<Device> {
        match (current, self.route) {
            (Some(device), Some(route)) => if (route.driver matches Some(driver) && driver.id
                == device.id) || device.id == route.target.id {
                None
            } else if device.ours() {
                Some(route.target)
            } else if device.has_output && !device.virtual_device() {
                Some(device)
            } else {
                None
            },
            _ => None,
        }
    }

    /// Follows the system's own choice of output.
    pub fn follow_default(&mut self, current: Option<Device>) -> (ask: Ask)
        requires
            old(self).wf(),
        ensures
            final(self).wf(),
            match old(self).drawn_to(current) {
                Some(target) => ask == old(self).retargeting(target) && *final(self) == old(self).bound_for(target),
                None => ask is Nothing && *final(self) == *old(self),
            },
    {
        let device = match current {
            Some(device) => device,
            None => {
                return Ask::Nothing;
            },
        };
        let target = match &self.route {
            None => {
                return Ask::Nothing;
            },
            Some(route) => {
                let is_driver: bool = match route.driver() {
                    Some(driver) => driver.id == device.id,
                    None => false,
                };
                if is_driver || device.id == route.target().id {
                    return Ask::Nothing;
                }
                if device.is_diseq() {
                    route.target().clone()
                } else if device.has_output && !device.is_virtual() {
                    device
                } else {
                    return Ask::Nothing;
                }
            },
        };
        self.retarget(target)
    }
}

/// Whether the hardware has left the rate a route was built for, by a hertz or
/// more.
pub open spec fn rate_moved(built: u64, now: Option<u64>) -> bool {
    match now {
        Some(rate) => rate > 0 && (rate - built >= 1_000 || built - rate >= 1_000),
        None => false,
    }
}

// --- choosing an output -----------------------------------------------------

impl SoundService {
    pub open spec fn has_selected(self, id: u32) -> bool {
        self.target matches Some(target) && target.id == id
    }

    pub fn output_is_selected(&self, device: &Device) -> (selected: bool)
        ensures
            selected == self.has_selected(device.id),
    {
        match &self.target {
            Some(target) => target.id == device.id,
            None => false,
        }
    }

    /// Moves both direct and enhanced audio to a user-selected output, one of
    /// `targets`.
    ///
    /// A mixer writes to the route's proxy when enhancement is active and
    /// directly to the hardware otherwise. Either destination changes here, so
    /// its taps are rebuilt after the output has moved.
    pub fn select_output(&mut self, device_id: u32, targets: &[Device]) -> (ask: SelectAsk)
        requires
            old(self).wf(),
        ensures
            final(self).wf(),
            match first(targets@, |device: Device| device.id == device_id) {
                None => {
                    &&& ask == (SelectAsk::Refuse { reason: "That output is no longer available" })
                    &&& *final(self) == *old(self)
                },
                Some(target) => if old(self).has_selected(device_id) {
                    ask is Nothing && *final(self) == *old(self)
                } else if old(self).route is Some {
                    &&& ask == (SelectAsk::Reroute {
                        mixer: old(self).mixer,
                        ask: old(self).retargeting(target),
                    })
                    &&& *final(self) == (SoundService {
                        mixer: None,
                        ..old(self).bound_for(target)
                    })
                } else {
                    &&& ask == (SelectAsk::Move { target })
                    &&& *final(self) == *old(self)
                },
            },
    {
        let ghost wanted = |device: Device| device.id == device_id;
        let mut i: usize = 0;
        while i < targets.len() && targets[i].id != device_id
            invariant
                i <= targets@.len(),
                wanted == (|device: Device| device.id == device_id),
                forall|j: int| 0 <= j < i ==> !wanted(#[trigger] targets@[j]),
            decreases targets@.len() - i,
        {
            i += 1;
        }
        if i == targets.len() {
            proof {
                lemma_first_none(targets@, wanted);
            }
            return SelectAsk::Refuse { reason: "That output is no longer available" };
        }
        proof {
            lemma_first_at(targets@, wanted, i as int);
        }
        let target = targets[i].clone();
        if self.output_is_selected(&target) {
            return SelectAsk::Nothing;
        }
        if self.route.is_some() {
            let mixer = self.mixer.take();
            SelectAsk::Reroute { mixer, ask: self.retarget(target) }
        } else {
            SelectAsk::Move { target }
        }
    }

    /// Takes the outcome of making `target` the system's output. The mixer that
    /// is to be taken down comes back.
    pub fn output_moved(&mut self, target: Device, moved: bool) -> (result: Result<
        Option<Mixer>,
        &'static str,
    >)
        requires
            old(self).wf(),
        ensures
            final(self).wf(),
            !moved ==> {
                &&& result == Err::<Option<Mixer>, &'static str>(
                    "The system refused the output change",
                )
                &&& *final(self) == *old(self)
            },
            moved ==> {
                &&& result == Ok::<Option<Mixer>, &'static str>(old(self).mixer)
                &&& *final(self) == (SoundService {
                    mixer: None,
                    volume: match target.volume {
                        Some(volume) => volume,
                        None => old(self).volume,
                    },
                    target: Some(target),
                    config: old(self).config.remembering(target),
                    dirty: old(self).dirty || old(self).config.forgets(target),
                    ..*old(self)
                })
            },
    {
        if !moved {
            return Err("The system refused the output change");
        }
        let mixer = self.mixer.take();
        match target.volume {
            Some(volume) => {
                self.volume = volume;
            },
            None => {},
        }
        self.remember_target(&target);
        self.target = Some(target);
        Ok(mixer)
    }
}

/// The device to route to at launch, among `devices`; `fallback` is what there
/// is to play to otherwise.
///
/// While routing, the system's default output is our own device, so a launch
/// that finds it there learns nothing from it: the answer is the device the
/// last run was playing to. A remembered device that has been unplugged since
/// is worse than no memory at all: routing to it is silence.
pub fn remembered_target(
    default_output: Option<Device>,
    target_uid: Option<&str>,
    devices: &[Listed],
    fallback: Option<Device>,
) -> (target: Option<Device>)
    ensures
        target == (match default_output {
            Some(device) if !device.ours() && !device.virtual_device() => Some(device),
            _ => match remembered(target_uid, devices@) {
                Some(listed) if listed.device.has_output && !listed.device.virtual_device()
                    && listed.alive => Some(listed.device),
                _ => fallback,
            },
        }),
{
    match default_output {
        Some(device) => {
            if !device.is_diseq() && !device.is_virtual() {
                return Some(device);
            }
        },
        None => {},
    }
    let uid = match target_uid {
        Some(uid) => uid,
        None => {
            return fallback;
        },
    };
    let ghost wanted = |listed: Listed| listed.device.has_uid(uid@);
    let mut i: usize = 0;
    while i < devices.len() && !devices[i].device.is_uid(uid)
        invariant
            i <= devices@.len(),
            wanted == (|listed: Listed| listed.device.has_uid(uid@)),
            forall|j: int| 0 <= j < i ==> !wanted(#[trigger] devices@[j]),
        decreases devices@.len() - i,
    {
        i += 1;
    }
    if i == devices.len() {
        proof {
            lemma_first_none(devices@, wanted);
        }
        return fallback;
    }
    proof {
        lemma_first_at(devices@, wanted, i as int);
    }
    let listed = &devices[i];
    if listed.device.has_output && !listed.device.is_virtual() && listed.alive {
        Some(listed.device.clone())
    } else {
        fallback
    }
}

/// The device of a UID that was remembered.
pub open spec fn remembered(target_uid: Option<&str>, devices: Seq<Listed>) -> Option<Listed> {
    match target_uid {
        Some(uid) => first(devices, |listed: Listed| listed.device.has_uid(uid@)),
        None => None,
    }
}

// --- the equaliser ----------------------------------------------------------

impl SoundService {
    fn push(&mut self)
        ensures
            *final(self) == (SoundService {
                route: old(self).pushed(old(self).equalizer),
                ..*old(self)
            }),
    {
        let settings: Settings = *self.equalizer.settings();
        match &mut self.route {
            Some(route) => {
                route.apply(settings);
            },
            None => {},
        }
    }

    /// Copies the equaliser's state into the settings to be written.
    fn remember_eq(&mut self)
        requires
            old(self).wf(),
        ensures
            final(self).wf(),
            final(self).config.eq.records(
                old(self).equalizer.goal(),
                preset_row(old(self).equalizer.choice()).id@,
            ),
            *final(self) == (SoundService {
                config: Config { eq: final(self).config.eq, ..old(self).config },
                dirty: true,
                ..*old(self)
            }),
    {
        self.config.eq = EqConfig::from(
            self.equalizer.target(),
            self.equalizer.selected_preset(),
        );
        self.dirty = true;
    }

    pub fn set_eq_enabled(&mut self, on: bool)
        requires
            old(self).wf(),
        ensures
            old(self).equalizer.switched(on, final(self).equalizer),
            final(self).retuned(*old(self)),
    {
        self.equalizer.set_enabled(on);
        self.push();
        self.remember_eq();
    }

    pub fn set_band(&mut self, band: usize, gain: i32)
        requires
            old(self).wf(),
        ensures
            old(self).equalizer.band_moved(band, gain, final(self).equalizer),
            final(self).retuned(*old(self)),
    {
        self.equalizer.set_gain(band, gain);
        self.push();
        self.remember_eq();
    }

    pub fn set_preamp(&mut self, preamp: i32)
        requires
            old(self).wf(),
        ensures
            old(self).equalizer.preamp_moved(preamp, final(self).equalizer),
            final(self).retuned(*old(self)),
    {
        self.equalizer.set_preamp(preamp);
        self.push();
        self.remember_eq();
    }

    pub fn set_auto_preamp(&mut self, on: bool)
        requires
            old(self).wf(),
        ensures
            old(self).equalizer.auto_preamp_switched(on, final(self).equalizer),
            final(self).retuned(*old(self)),
    {
        self.equalizer.set_auto_preamp(on);
        self.push();
        self.remember_eq();
    }

    /// Chooses a preset. Returns false for an unknown id.
    pub fn set_preset(&mut self, id: &str) -> (known: bool)
        requires
            old(self).wf(),
        ensures
            old(self).equalizer.preset_chosen(id@, true, known, final(self).equalizer),
            final(self).retuned(*old(self)),
    {
        let known: bool = self.equalizer.set_preset(id, true);
        self.push();
        self.remember_eq();
        known
    }
}

// --- volume -----------------------------------------------------------------

impl SoundService {
    /// Whether the volume slider does anything. Routing gives every device a
    /// working slider; without it, only a device with its own volume control
    /// has one.
    pub fn volume_is_settable(&self) -> (settable: bool)
        ensures
            settable == (self.route is Some || (self.target matches Some(target)
                && target.volume_is_settable)),
    {
        if self.is_routing() {
            return true;
        }
        match &self.target {
            Some(target) => target.volume_is_settable,
            None => false,
        }
    }

    /// Sets the master volume. The route decides where the gain lands: the
    /// hardware's own volume control when it has one, our mixer when it does
    /// not. Returns what is to be asked of the system.
    pub fn set_volume(&mut self, volume: u32) -> (actions: Vec<Action>)
        requires
            old(self).wf(),
        ensures
            final(self).wf(),
            *final(self) == (SoundService {
                volume: clamped_volume(volume),
                config: Config { volume: clamped_volume(volume), ..old(self).config },
                dirty: old(self).dirty || old(self).config.volume != clamped_volume(volume),
                route: match old(self).route {
                    Some(route) => Some(
                        Route { device_volume: clamped_volume(volume), ..route },
                    ),
                    None => None,
                },
                ..*old(self)
            }),
            actions@ == (match (old(self).route, old(self).target) {
                (Some(route), _) => volume_actions(
                    route.target,
                    route.driver,
                    clamped_volume(volume),
                    true,
                ),
                (None, Some(target)) => seq![
                    Action::SetVolume { id: target.id, volume: clamped_volume(volume) },
                ],
                (None, None) => Seq::empty(),
            }),
    {
        let volume: u32 = if volume > UNITY {
            UNITY
        } else {
            volume
        };
        self.volume = volume;
        if self.config.volume != volume {
            self.config.volume = volume;
            self.dirty = true;
        }
        let mut actions: Vec<Action> = Vec::new();
        match &mut self.route {
            Some(route) => {
                actions = route.set_volume(volume);
            },
            None => {
                match &self.target {
                    Some(target) => {
                        actions.push(Action::SetVolume { id: target.id, volume });
                    },
                    None => {},
                }
            },
        }
        actions
    }
}

// --- cards ------------------------------------------------------------------

impl SoundService {
    /// Whether this display's card is open far enough to show its primary
    /// controls. The key describes the hardware, not its transient display id,
    /// so the choice survives restarts and display enumeration changes.
    pub fn display_card_is_open(&self, display: &Display) -> (open: bool)
        ensures
            open == self.config.open_displays@.contains(display_key(*display)),
    {
        self.config.open_displays.contains(display_persistence_key(display).as_str())
    }

    /// Toggles a display card's primary disclosure. Unlike slider changes this
    /// is a single, infrequent click, so the settings are to be written at
    /// once.
    pub fn toggle_display_card(&mut self, display: &Display) -> (open: bool)
        requires
            old(self).wf(),
        ensures
            final(self).wf(),
            open == !old(self).config.open_displays@.contains(display_key(*display)),
            final(self).config.open_displays@ == (if open {
                old(self).config.open_displays@.insert(display_key(*display))
            } else {
                old(self).config.open_displays@.remove(display_key(*display))
            }),
            *final(self) == (SoundService {
                config: Config {
                    open_displays: final(self).config.open_displays,
                    ..old(self).config
                },
                dirty: true,
                ..*old(self)
            }),
    {
        let key = display_persistence_key(display);
        let open: bool = if self.config.open_displays.remove(key.as_str()) {
            false
        } else {
            let _ = self.config.open_displays.insert(key);
            true
        };
        self.dirty = true;
        proof {
            let before = old(self).config.open_displays@;
            let name = display_key(*display);
            if open {
                assert(before.remove(name) =~= before);
            }
        }
        open
    }

    /// Forces an offline display back to its compact state. Returns true when
    /// that changed anything, and the settings are to be written.
    pub fn close_display_card(&mut self, display: &Display) -> (closed: bool)
        requires
            old(self).wf(),
        ensures
            final(self).wf(),
            closed == old(self).config.open_displays@.contains(display_key(*display)),
            final(self).config.open_displays@ == old(self).config.open_displays@.remove(
                display_key(*display),
            ),
            *final(self) == (SoundService {
                config: Config {
                    open_displays: final(self).config.open_displays,
                    ..old(self).config
                },
                dirty: old(self).dirty || closed,
                ..*old(self)
            }),
    {
        let closed: bool = self.config.open_displays.remove(
            display_persistence_key(display).as_str(),
        );
        if closed {
            self.dirty = true;
        }
        closed
    }

    pub fn sound_card_is_open(&self) -> (open: bool)
        ensures
            open == self.config.sound_open,
    {
        self.config.sound_open
    }

    /// Toggles the Sound card's primary disclosure. The settings are to be
    /// written at once.
    pub fn toggle_sound_card(&mut self) -> (open: bool)
        requires
            old(self).wf(),
        ensures
            final(self).wf(),
            open == !old(self).config.sound_open,
            *final(self) == (SoundService {
                config: Config { sound_open: open, ..old(self).config },
                dirty: true,
                ..*old(self)
            }),
    {
        self.config.sound_open = !self.config.sound_open;
        self.dirty = true;
        self.config.sound_open
    }

    /// Whether the offer to install the audio driver was turned down.
    pub fn driver_prompt_declined(&self) -> (declined: bool)
        ensures
            declined == self.config.driver_prompt_declined,
    {
        self.config.driver_prompt_declined
    }

    pub fn set_driver_prompt_declined(&mut self, declined: bool)
        requires
            old(self).wf(),
        ensures
            final(self).wf(),
            *final(self) == (SoundService {
                config: Config { driver_prompt_declined: declined, ..old(self).config },
                dirty: old(self).dirty || old(self).config.driver_prompt_declined != declined,
                ..*old(self)
            }),
    {
        if self.config.driver_prompt_declined != declined {
            self.config.driver_prompt_declined = declined;
            self.dirty = true;
        }
    }
}

// --- app mixer --------------------------------------------------------------

/// The applications a mixer would cover: those that are playing, but for our
/// own audio, which would be tapped out of the mix and fed back into it, and no
/// more of them than there are faders.
pub open spec fn mixable(processes: Seq<Process>, own: i32) -> Seq<Process> {
    let others = processes.filter(|process: Process| process.is_playing).filter(
        |process: Process| process.pid != own,
    );
    if others.len() > MAX_FADERS {
        others.take(MAX_FADERS as int)
    } else {
        others
    }
}

/// A mixer's faders once the levels that were remembered have been given to the
/// first `count` of its applications.
pub open spec fn recalled(mixer: Mixer, gains: Map<Seq<char>, i64>, count: int) -> Seq<Fader>
    decreases count,
{
    if count <= 0 {
        mixer.faders.slots@
    } else {
        let slots = recalled(mixer, gains, count - 1);
        let process = mixer.taps@[count - 1].process;
        match process.bundle_id {
            Some(bundle) if gains.contains_key(bundle@) => slots.update(
                mixer.slot(process.id),
                (Fader {
                    gain: slider_gain(gains[bundle@] as int) as u32,
                    ..slots[mixer.slot(process.id)]
                }),
            ),
            _ => slots,
        }
    }
}

/// A mixer's faders once the first `count` of some processes have been given
/// levels.
pub open spec fn leveled(mixer: Mixer, levels: Seq<(u32, u32)>, count: int) -> Seq<Fader>
    decreases count,
{
    if count <= 0 {
        mixer.faders.slots@
    } else {
        let slots = leveled(mixer, levels, count - 1);
        let (process, gain) = levels[count - 1];
        if mixer.has_fader(process) {
            slots.update(
                mixer.slot(process),
                (Fader {
                    gain: slider_gain(gain as int) as u32,
                    ..slots[mixer.slot(process)]
                }),
            )
        } else {
            slots
        }
    }
}

/// The bundle that a process's level is remembered under, if it is.
pub open spec fn kept_under(mixer: Mixer, process: u32) -> Option<Seq<char>> {
    if mixer.has_fader(process) {
        match mixer.taps@[mixer.slot(process)].process.bundle_id {
            Some(bundle) => Some(bundle@),
            None => None,
        }
    } else {
        None
    }
}

/// The levels remembered once the first `count` of some processes have been
/// given theirs.
pub open spec fn kept(
    mixer: Mixer,
    gains: Map<Seq<char>, i64>,
    levels: Seq<(u32, u32)>,
    count: int,
) -> Map<Seq<char>, i64>
    decreases count,
{
    if count <= 0 {
        gains
    } else {
        let before = kept(mixer, gains, levels, count - 1);
        let (process, gain) = levels[count - 1];
        match kept_under(mixer, process) {
            Some(bundle) => before.insert(bundle, gain as i64),
            None => before,
        }
    }
}

/// Everything of a mixer but where its faders stand.
pub open spec fn same_mixer(before: Mixer, after: Mixer) -> bool {
    &&& after.wf()
    &&& after.taps == before.taps
    &&& after.faders.active == before.faders.active
    &&& after.faders.offset == before.faders.offset
    &&& after.running == before.running
    &&& after.has_proc == before.has_proc
    &&& after.aggregate == before.aggregate
    &&& after.destination == before.destination
}

impl SoundService {
    /// Applications with a fader right now. Empty when the mixer is off: there
    /// is nothing to show a level for until something is tapped.
    pub fn app_faders(&self) -> (faders: Vec<AppFader>)
        requires
            self.wf(),
        ensures
            match self.mixer {
                Some(mixer) => faders@ == Seq::new(
                    mixer.taps@.len(),
                    |i: int|
                        AppFader {
                            process: mixer.taps@[i].process,
                            gain: mixer.faders.slots@[i].gain,
                        },
                ),
                None => faders@ == Seq::<AppFader>::empty(),
            },
    {
        let mut faders: Vec<AppFader> = Vec::new();
        match &self.mixer {
            Some(mixer) => {
                let pairs = mixer.faders();
                let mut i: usize = 0;
                while i < pairs.len()
                    invariant
                        i <= pairs@.len(),
                        pairs@ == Seq::new(
                            mixer.taps@.len(),
                            |i: int| (mixer.taps@[i].process, mixer.faders.slots@[i].gain),
                        ),
                        faders@.len() == i,
                        forall|j: int|
                            0 <= j < i ==> (#[trigger] faders@[j]) == (AppFader {
                                process: mixer.taps@[j].process,
                                gain: mixer.faders.slots@[j].gain,
                            }),
                    decreases pairs@.len() - i,
                {
                    faders.push(AppFader { process: pairs[i].0.clone(), gain: pairs[i].1 });
                    i += 1;
                }
            },
            None => {},
        }
        faders
    }

    /// What the mixer would cover if it were switched on now; `own` is our own
    /// process.
    pub fn playing(processes: &[Process], own: i32) -> (playing: Vec<Process>)
        ensures
            playing@ == mixable(processes@, own),
    {
        let listed = crate::processes::playing(processes);
        let ghost keeps = |process: Process| process.pid != own;
        let mut others: Vec<Process> = Vec::new();
        let mut i: usize = 0;
        while i < listed.len()
            invariant
                i <= listed@.len(),
                keeps == (|process: Process| process.pid != own),
                others@ == listed@.take(i as int).filter(keeps),
            decreases listed@.len() - i,
        {
            proof {
                crate::lists::lemma_filter_next(listed@, i as int, keeps);
            }
            if listed[i].pid != own {
                others.push(listed[i].clone());
            }
            i += 1;
        }
        assert(listed@.take(i as int) == listed@);
        if others.len() > MAX_FADERS {
            others.truncate(MAX_FADERS);
        }
        others
    }

    /// Where mixed audio goes. It has to land in front of the EQ, which means
    /// the virtual device while a route is running; without one it goes
    /// straight to the hardware and the mixer works on its own.
    pub open spec fn mixes_into(self) -> Option<Device> {
        match self.route {
            Some(Route { driver: Some(driver), .. }) => Some(driver),
            _ => self.target,
        }
    }

    /// Whether `ask` is what switching the mixer on over the applications that
    /// are `playing` asks for.
    pub open spec fn mixing_asks(self, playing: Seq<Process>, ask: MixAsk) -> bool {
        if playing.len() == 0 {
            ask == (MixAsk::Refuse { reason: "Nothing is playing audio right now" })
        } else {
            match self.mixes_into() {
                Some(into) => ask matches MixAsk::Start { playing: asked, destination } && asked@
                    == playing && destination == into,
                None => ask == (MixAsk::Refuse { reason: "No output device to mix into" }),
            }
        }
    }

    /// Starts or stops the App Mixer over the applications that are `playing`.
    pub fn set_mixing(&mut self, on: bool, playing: Vec<Process>) -> (ask: MixAsk)
        requires
            old(self).wf(),
        ensures
            final(self).wf(),
            match (on, old(self).mixer) {
                (true, Some(_)) => ask is Nothing && *final(self) == *old(self),
                (false, None) => ask is Nothing && *final(self) == *old(self),
                (false, Some(mixer)) => {
                    &&& ask == (MixAsk::Stop { mixer })
                    &&& *final(self) == (SoundService {
                        mixer: None,
                        config: Config { mixing: false, ..old(self).config },
                        dirty: true,
                        ..*old(self)
                    })
                },
                (true, None) => {
                    &&& old(self).mixing_asks(playing@, ask)
                    &&& *final(self) == (SoundService {
                        config: Config { mixing: true, ..old(self).config },
                        dirty: true,
                        ..*old(self)
                    })
                },
            },
    {
        if on == self.is_mixing() {
            return MixAsk::Nothing;
        }
        self.config.mixing = on;
        self.dirty = true;
        if !on {
            return match self.mixer.take() {
                Some(mixer) => MixAsk::Stop { mixer },
                None => MixAsk::Nothing,
            };
        }
        if playing.len() == 0 {
            return MixAsk::Refuse { reason: "Nothing is playing audio right now" };
        }
        let driver = match &self.route {
            Some(route) => match route.driver() {
                Some(driver) => Some(driver.clone()),
                None => None,
            },
            None => None,
        };
        let destination = match driver {
            Some(driver) => driver,
            None => match &self.target {
                Some(target) => target.clone(),
                None => {
                    return MixAsk::Refuse { reason: "No output device to mix into" };
                },
            },
        };
        MixAsk::Start { playing, destination }
    }

    /// Takes the outcome of starting a mixer. Applications come back at the
    /// level they were left at, even though the processes carrying their audio
    /// are new.
    pub fn mixer_started(&mut self, started: Result<Mixer, MixerError>) -> (result: Result<
        (),
        String,
    >)
        requires
            old(self).wf(),
            started matches Ok(mixer) ==> mixer.wf(),
        ensures
            final(self).wf(),
            match started {
                Ok(mixer) => {
                    &&& result is Ok
                    &&& final(self).mixer matches Some(after) && same_mixer(mixer, after)
                        && after.faders.slots@ == recalled(
                        mixer,
                        old(self).config.app_gains@,
                        mixer.taps@.len() as int,
                    )
                    &&& *final(self) == (SoundService { mixer: final(self).mixer, ..*old(self) })
                },
                Err(error) => {
                    &&& result matches Err(text) && text@ == error.text()
                    &&& *final(self) == *old(self)
                },
            },
    {
        let mut mixer = match started {
            Ok(mixer) => mixer,
            Err(error) => {
                return Err(error.message());
            },
        };
        let ghost begun = mixer;
        let count: usize = mixer.taps.len();
        let mut i: usize = 0;
        while i < count
            invariant
                i <= count == begun.taps@.len(),
                self.wf(),
                *self == *old(self),
                same_mixer(begun, mixer),
                mixer.faders.slots@ == recalled(begun, self.config.app_gains@, i as int),
            decreases count - i,
        {
            let id: u32 = mixer.taps[i].process().id;
            let gain: Option<i64> = match &mixer.taps[i].process().bundle_id {
                Some(bundle) => self.config.app_gains.get(bundle.as_str()),
                None => None,
            };
            match gain {
                Some(gain) => {
                    assert(mixer.taps@[i as int].process.id == id);
                    let _ = mixer.set_gain(id, gain);
                },
                None => {},
            }
            i += 1;
        }
        self.mixer = Some(mixer);
        Ok(())
    }

    /// Sets one application's level, in millionths. The level is remembered by
    /// bundle ID, because the process this fader belongs to will have a
    /// different object, and a different pid, next time.
    pub fn set_app_gain(&mut self, process: u32, gain: i64)
        requires
            old(self).wf(),
        ensures
            final(self).wf(),
            match old(self).mixer {
                None => *final(self) == *old(self),
                Some(mixer) => {
                    &&& final(self).mixer matches Some(after) && mixer.regained(
                        process,
                        gain,
                        after,
                    )
                    &&& final(self).config.app_gains@ == (match kept_under(mixer, process) {
                        Some(bundle) => old(self).config.app_gains@.insert(bundle, gain),
                        None => old(self).config.app_gains@,
                    })
                    &&& *final(self) == (SoundService {
                        mixer: final(self).mixer,
                        config: Config {
                            app_gains: final(self).config.app_gains,
                            ..old(self).config
                        },
                        dirty: old(self).dirty || kept_under(mixer, process) is Some,
                        ..*old(self)
                    })
                },
            },
    {
        match self.mixer.take() {
            None => {},
            Some(mut mixer) => {
                let _ = mixer.set_gain(process, gain);
                match mixer.bundle_of(process) {
                    Some(bundle) => {
                        self.config.app_gains.insert(bundle, gain);
                        self.dirty = true;
                    },
                    None => {},
                }
                self.mixer = Some(mixer);
            },
        }
    }

    /// Whether the applications playing have changed since the mixer was built.
    /// A new application needs a new tap, which needs a new aggregate device.
    pub fn mixer_is_stale(&self, playing: &[Process]) -> (stale: bool)
        ensures
            stale == (self.mixer matches Some(mixer) && !(playing@.len() == mixer.taps@.len()
                && forall|i: int|
                0 <= i < playing@.len() ==> mixer.has_fader((#[trigger] playing@[i]).id))),
    {
        match &self.mixer {
            Some(mixer) => !mixer.covers(playing),
            None => false,
        }
    }

    /// Begins to rebuild the mixer over whatever is `playing` now. Nothing is
    /// asked when the mixer is off. The levels are put back once the new mixer
    /// runs ([`Self::restore_levels`]).
    pub fn refresh_mixer(&mut self, playing: Vec<Process>) -> (rebuild: Rebuild)
        requires
            old(self).wf(),
        ensures
            final(self).wf(),
            rebuild.ended == old(self).mixer,
            match old(self).mixer {
                None => {
                    &&& rebuild.previous@ == Seq::<(u32, u32)>::empty()
                    &&& rebuild.ask is Nothing
                    &&& *final(self) == *old(self)
                },
                Some(mixer) => {
                    &&& rebuild.previous@ == Seq::new(
                        mixer.taps@.len(),
                        |i: int| (mixer.taps@[i].process.id, mixer.faders.slots@[i].gain),
                    )
                    &&& old(self).mixing_asks(playing@, rebuild.ask)
                    &&& *final(self) == (SoundService {
                        mixer: None,
                        config: Config { mixing: true, ..old(self).config },
                        dirty: true,
                        ..*old(self)
                    })
                },
            },
    {
        let mut previous: Vec<(u32, u32)> = Vec::new();
        match self.mixer.take() {
            None => Rebuild { ended: None, previous, ask: MixAsk::Nothing },
            Some(mixer) => {
                let faders = mixer.faders();
                let mut i: usize = 0;
                while i < faders.len()
                    invariant
                        i <= faders@.len(),
                        faders@ == Seq::new(
                            mixer.taps@.len(),
                            |i: int| (mixer.taps@[i].process, mixer.faders.slots@[i].gain),
                        ),
                        previous@.len() == i,
                        forall|j: int|
                            0 <= j < i ==> (#[trigger] previous@[j]) == (
                                mixer.taps@[j].process.id,
                                mixer.faders.slots@[j].gain,
                            ),
                    decreases faders@.len() - i,
                {
                    previous.push((faders[i].0.id, faders[i].1));
                    i += 1;
                }
                let ask = self.set_mixing(true, playing);
                Rebuild { ended: Some(mixer), previous, ask }
            },
        }
    }

    /// Gives the faders of a rebuilt mixer the levels they stood at, so a
    /// rebuild does not reset what the user set.
    pub fn restore_levels(&mut self, previous: &[(u32, u32)])
        requires
            old(self).wf(),
        ensures
            final(self).wf(),
            match old(self).mixer {
                None => *final(self) == *old(self),
                Some(mixer) => {
                    &&& final(self).mixer matches Some(after) && same_mixer(mixer, after)
                        && after.faders.slots@ == leveled(
                        mixer,
                        previous@,
                        previous@.len() as int,
                    )
                    &&& final(self).config.app_gains@ == kept(
                        mixer,
                        old(self).config.app_gains@,
                        previous@,
                        previous@.len() as int,
                    )
                    &&& *final(self) == (SoundService {
                        mixer: final(self).mixer,
                        config: Config {
                            app_gains: final(self).config.app_gains,
                            ..old(self).config
                        },
                        dirty: final(self).dirty,
                        ..*old(self)
                    })
                    &&& final(self).dirty == (old(self).dirty || exists|i: int|
                        0 <= i < previous@.len() && kept_under(
                            mixer,
                            (#[trigger] previous@[i]).0,
                        ) is Some)
                },
            },
    {
        if self.mixer.is_none() {
            return;
        }
        let ghost begun = self.mixer->0;
        let mut i: usize = 0;
        while i < previous.len()
            invariant
                i <= previous@.len(),
                self.wf(),
                old(self).mixer == Some(begun),
                self.mixer matches Some(after) && same_mixer(begun, after) && after.faders.slots@
                    == leveled(begun, previous@, i as int),
                self.config.app_gains@ == kept(
                    begun,
                    old(self).config.app_gains@,
                    previous@,
                    i as int,
                ),
                *self == (SoundService {
                    mixer: self.mixer,
                    config: Config { app_gains: self.config.app_gains, ..old(self).config },
                    dirty: self.dirty,
                    ..*old(self)
                }),
                self.dirty == (old(self).dirty || exists|j: int|
                    0 <= j < i && kept_under(begun, (#[trigger] previous@[j]).0) is Some),
            decreases previous@.len() - i,
        {
            let (process, gain): (u32, u32) = previous[i];
            assert(previous@[i as int].0 == process);
            self.set_app_gain(process, gain as i64);
            i += 1;
        }
    }
}

/// Where no process is tapped twice, a started mixer gives every application the
/// level that was remembered for it, and leaves every other at the level it
/// started at.
pub proof fn law_applications_come_back_at_their_level(
    mixer: Mixer,
    gains: Map<Seq<char>, i64>,
    index: int,
)
    requires
        mixer.wf(),
        0 <= index < mixer.taps@.len(),
        forall|i: int, j: int|
            0 <= i < j < mixer.taps@.len() ==> (#[trigger] mixer.taps@[i]).process.id != (
            #[trigger] mixer.taps@[j]).process.id,
    ensures
        recalled(mixer, gains, mixer.taps@.len() as int)[index].gain == (
        match mixer.taps@[index].process.bundle_id {
            Some(bundle) if gains.contains_key(bundle@) => slider_gain(gains[bundle@] as int),
            _ => mixer.faders.slots@[index].gain as int,
        }),
{
    lemma_recalled(mixer, gains, index, mixer.taps@.len() as int);
}

proof fn lemma_recalled(mixer: Mixer, gains: Map<Seq<char>, i64>, index: int, count: int)
    requires
        mixer.wf(),
        0 <= index < mixer.taps@.len(),
        0 <= count <= mixer.taps@.len(),
        forall|i: int, j: int|
            0 <= i < j < mixer.taps@.len() ==> (#[trigger] mixer.taps@[i]).process.id != (
            #[trigger] mixer.taps@[j]).process.id,
    ensures
        recalled(mixer, gains, count).len() == mixer.faders.slots@.len(),
        recalled(mixer, gains, count)[index].gain == (
        match mixer.taps@[index].process.bundle_id {
            Some(bundle) if index < count && gains.contains_key(bundle@) => slider_gain(
                gains[bundle@] as int,
            ),
            _ => mixer.faders.slots@[index].gain as int,
        }),
    decreases count,
{
    if count > 0 {
        lemma_recalled(mixer, gains, index, count - 1);
        let id = mixer.taps@[count - 1].process.id;
        assert(is_slot_among(mixer.taps@, id, count - 1));
        let slot = mixer.slot(id);
        assert(is_slot_among(mixer.taps@, id, slot));
        assert(slot == count - 1) by {
            if slot < count - 1 {
                assert(mixer.taps@[slot].process.id != mixer.taps@[count - 1].process.id);
            }
            if slot > count - 1 {
                assert(mixer.taps@[count - 1].process.id != mixer.taps@[slot].process.id);
            }
        }
    }
}

// --- upkeep -----------------------------------------------------------------

impl SoundService {
    /// The route once the equaliser has moved on, and what its own step asks of
    /// the system.
    pub open spec fn stepped(
        self,
        equalizer: Equalizer,
        readings: Readings,
        peak: u32,
    ) -> (Option<Route>, Seq<Action>) {
        let route = if self.equalizer.ramping() is Some {
            self.pushed(equalizer)
        } else {
            self.route
        };
        match route {
            Some(route) => (
                Some(route.after_tick(readings, peak).0),
                route.after_tick(readings, peak).1,
            ),
            None => (None, Seq::empty()),
        }
    }

    /// The equaliser's own step. Returns true when it moved, and the route was
    /// told.
    fn ramp(&mut self) -> (ramped: bool)
        requires
            old(self).wf(),
        ensures
            final(self).wf(),
            old(self).equalizer.ticked(final(self).equalizer),
            ramped == (old(self).equalizer.ramping() is Some),
            *final(self) == (SoundService {
                equalizer: final(self).equalizer,
                route: if ramped {
                    old(self).pushed(final(self).equalizer)
                } else {
                    old(self).route
                },
                ..*old(self)
            }),
    {
        let ramped: bool = self.equalizer.tick();
        if ramped {
            self.push();
        }
        ramped
    }

    /// Counts a frame: whether the settings are to be written, and whether the
    /// system's output is to be looked at.
    fn advance(&mut self) -> (due: (bool, bool))
        ensures
            ({
                let ticks = next_tick(old(self).ticks);
                &&& due.0 == (ticks % SAVE_TICKS == 0 && old(self).dirty)
                &&& due.1 == (ticks % POLL_TICKS == 0)
                &&& *final(self) == (SoundService {
                    ticks,
                    dirty: old(self).dirty && ticks % SAVE_TICKS != 0,
                    ..*old(self)
                })
            }),
    {
        self.ticks = self.ticks.wrapping_add(1);
        let save: bool = self.ticks % SAVE_TICKS == 0 && self.save();
        (save, self.ticks % POLL_TICKS == 0)
    }

    /// The route's own step: the volume it picked up, and what it asks of the
    /// system.
    fn step_route<T: Copy>(&mut self, bridge: &mut Bridge<T>, readings: Readings) -> (stepped: (
        Option<u32>,
        Vec<Action>,
    ))
        requires
            old(bridge).wf(),
            old(self).route is Some ==> old(bridge).clocks().can_trail(),
        ensures
            final(bridge).wf(),
            match old(self).route {
                None => {
                    &&& *final(bridge) == *old(bridge)
                    &&& *final(self) == *old(self)
                    &&& stepped.0 is None
                    &&& stepped.1@ == Seq::<Action>::empty()
                },
                Some(route) => {
                    let (after, actions) = route.after_tick(readings, old(bridge).clocks().peak);
                    &&& final(bridge).buffer() == old(bridge).buffer()
                    &&& final(bridge).clocks() == (crate::bridge::Timeline {
                        peak: 0,
                        ..old(bridge).clocks()
                    })
                    &&& *final(self) == (SoundService { route: Some(after), ..*old(self) })
                    &&& stepped.0 == after.volume_changed
                    &&& stepped.1@ == actions
                },
            },
    {
        match &mut self.route {
            Some(route) => {
                let (_, actions) = route.tick(bridge, readings);
                (route.volume_changed(), actions)
            },
            None => (None, Vec::new()),
        }
    }

    /// Takes in a volume that was set outside the panel.
    fn follow_volume(&mut self, moved: Option<u32>)
        ensures
            *final(self) == (match moved {
                Some(volume) => SoundService {
                    volume,
                    config: Config { volume, ..old(self).config },
                    dirty: old(self).dirty || old(self).config.volume != volume,
                    ..*old(self)
                },
                None => *old(self),
            }),
    {
        match moved {
            Some(volume) => {
                self.volume = volume;
                if self.config.volume != volume {
                    self.config.volume = volume;
                    self.dirty = true;
                }
            },
            None => {},
        }
    }

    /// One step of everything that needs stepping: the preset ramp and the
    /// route's own. `readings` is what the system says of the route's parts.
    ///
    /// The menu-bar slider and the volume keys write to the virtual device; the
    /// panel follows them rather than overwriting them on the next redraw, and
    /// they are settings changes too.
    pub fn tick<T: Copy>(&mut self, bridge: &mut Bridge<T>, readings: Readings) -> (ticked: (
        Ticked,
        Vec<Action>,
    ))
        requires
            old(self).wf(),
            old(bridge).wf(),
            old(self).route is Some ==> old(bridge).clocks().can_trail(),
        ensures
            final(self).wf(),
            final(bridge).wf(),
            old(self).equalizer.ticked(final(self).equalizer),
            old(self).route is None ==> *final(bridge) == *old(bridge),
            old(self).route is Some ==> {
                &&& final(bridge).buffer() == old(bridge).buffer()
                &&& final(bridge).clocks() == (crate::bridge::Timeline {
                    peak: 0,
                    ..old(bridge).clocks()
                })
            },
            ({
                let (route, actions) = old(self).stepped(
                    final(self).equalizer,
                    readings,
                    old(bridge).clocks().peak,
                );
                let moved = match route {
                    Some(route) => route.volume_changed,
                    None => None,
                };
                let volume = match moved {
                    Some(volume) => volume,
                    None => old(self).volume,
                };
                let ticks = next_tick(old(self).ticks);
                let dirty = old(self).dirty || (moved is Some && old(self).config.volume != volume);
                &&& ticked.0 == (Ticked {
                    redraw: old(self).equalizer.ramping() is Some || moved is Some,
                    save: ticks % SAVE_TICKS == 0 && dirty,
                    poll: ticks % POLL_TICKS == 0,
                })
                &&& ticked.1@ == actions
                &&& *final(self) == (SoundService {
                    equalizer: final(self).equalizer,
                    route,
                    volume,
                    config: Config {
                        volume: if moved is Some {
                            volume
                        } else {
                            old(self).config.volume
                        },
                        ..old(self).config
                    },
                    ticks,
                    dirty: dirty && ticks % SAVE_TICKS != 0,
                    ..*old(self)
                })
            }),
    {
        let ramped: bool = self.ramp();
        let (moved, actions) = self.step_route(bridge, readings);
        self.follow_volume(moved);
        let (save, poll): (bool, bool) = self.advance();
        (Ticked { redraw: ramped || moved.is_some(), save, poll }, actions)
    }

    /// Whether the frame timer is still worth running. The device poll needs it
    /// even with nothing playing, so an installed driver keeps it alive.
    pub fn wants_ticks(&self) -> (wants: bool)
        ensures
            wants == (self.equalizer.ramping() is Some || self.route is Some
                || self.availability.driver),
    {
        self.is_ramping() || self.is_routing() || self.availability.driver
    }

    /// Whether the settings are to be written: they are where anything has
    /// changed since they were.
    pub fn save(&mut self) -> (write: bool)
        ensures
            write == old(self).dirty,
            *final(self) == (SoundService { dirty: false, ..*old(self) }),
    {
        let write: bool = self.dirty;
        self.dirty = false;
        write
    }

    /// Puts everything back: stops routing, un-mutes every tapped application,
    /// and restores the system's default output.
    ///
    /// The settings come first: tearing the route down changes the device the
    /// volume belongs to, and the file should describe the session that just
    /// ended.
    pub fn shutdown(&mut self) -> (remains: Remains)
        requires
            old(self).wf(),
        ensures
            final(self).wf(),
            remains == (Remains {
                save: old(self).dirty,
                mixer: old(self).mixer,
                route: old(self).route,
            }),
            *final(self) == (SoundService {
                dirty: false,
                mixer: None,
                route: None,
                ..*old(self)
            }),
    {
        let save: bool = self.save();
        let mixer = self.mixer.take();
        let route = self.route.take();
        Remains { save, mixer, route }
    }
}

/// Switching enhancement off leaves the system on the hardware the route was
/// playing to, whatever it was on before the route took it.
pub proof fn law_switching_off_keeps_the_chosen_output(route: Route)
    ensures
        route.stopped_on_target().undoing().take(2) == seq![
            Action::SetDefaultOutput { id: route.target.id },
            Action::SetDefaultSystemOutput { id: route.target.id },
        ],
{
}

// --- what holds of the service ----------------------------------------------

/// A volume as a slider takes it: a whole is the most there is.
pub open spec fn at_most_whole(volume: u32) -> int {
    if volume > 1_000_000 {
        1_000_000
    } else {
        volume as int
    }
}

/// The panel is rebuilt where routing began or ended or the output has another
/// name, and a tick without a poll does not ask.
pub proof fn law_a_poll_redraws_what_changed(
    ticked: Ticked,
    before: Poll,
    after: Poll,
    changed: bool,
    redraw: bool,
)
    requires
        call_ensures(Poll::changed, (&before, &after), changed),
        call_ensures(Ticked::redraws, (ticked, &before, &after), redraw),
    ensures
        changed <==> before.routing != after.routing || before.output@ != after.output@,
        redraw <==> ticked.redraw || ticked.poll && changed,
{
}

/// The equaliser needs the driver; the mixer never says no in advance.
pub proof fn law_only_the_equaliser_needs_the_driver(
    availability: Availability,
    eq: Option<String>,
    mixer: Option<String>,
)
    requires
        call_ensures(Availability::eq_blocked, (&availability,), eq),
        call_ensures(Availability::mixer_blocked, (&availability,), mixer),
    ensures
        eq is Some <==> !availability.driver,
        mixer is None,
{
}

/// A launch comes back the way the last one was left: route, volume, mixer, in
/// that order.
pub proof fn law_a_launch_restores_what_was_left(service: SoundService, steps: Vec<LaunchStep>)
    requires
        call_ensures(SoundService::launch, (&service,), steps),
    ensures
        steps@.contains(LaunchStep::Route) <==> service.config.routing,
        steps@.contains(LaunchStep::Mix) <==> service.config.mixing,
        steps@.contains(LaunchStep::Volume { volume: service.volume }) <==> service.config.routing,
        service.config.routing ==> steps@[0] == LaunchStep::Route && steps@[1]
            == (LaunchStep::Volume { volume: service.volume }),
        service.config.mixing ==> steps@.last() == LaunchStep::Mix,
        steps@.len() == (if service.config.routing {
            2int
        } else {
            0
        }) + (if service.config.mixing {
            1int
        } else {
            0
        }),
{
    let routing = service.config.routing;
    if routing {
        assert(steps@[0] == LaunchStep::Route);
        assert(steps@[1] == (LaunchStep::Volume { volume: service.volume }));
    }
    if service.config.mixing {
        assert(steps@[steps@.len() - 1] == LaunchStep::Mix);
    }
}

/// A service starts from what was saved, within range, with nothing running.
pub proof fn law_a_service_starts_from_what_was_saved(
    availability: Availability,
    config: Config,
    target: Option<Device>,
    service: SoundService,
    settings: &Settings,
    goal: &Settings,
    band: int,
)
    requires
        call_ensures(SoundService::new, (availability, config, target), service),
        call_ensures(SoundService::settings, (&service,), settings),
        call_ensures(Equalizer::target, (&service.equalizer,), goal),
        0 <= band < 10,
    ensures
        service.volume == at_most_whole(config.volume),
        service.config == config,
        service.target == target,
        service.availability == availability,
        service.route is None && service.mixer is None,
        service.ticks == 0 && service.settle == 0 && service.generation == 0 && !service.dirty,
        settings.enabled == config.eq.enabled,
        settings.auto_preamp == config.eq.auto_preamp,
        ({
            let kept = if band < config.eq.gains@.len() {
                config.eq.gains@[band] as int
            } else {
                0
            };
            settings.gains@[band] == (if kept < -24_000_000 {
                -24_000_000
            } else if kept > 24_000_000 {
                24_000_000
            } else {
                kept
            })
        }),
        *goal == *settings,
{
    let saved = choose|saved: Settings|
        #[trigger] config.eq.reads_as(saved) && saved.brought_into_range(
            service.equalizer.current(),
        );
    assert(settings.gains@[band] == service.equalizer.current().gains@[band]);
    assert(saved.gains@[band] == (if band < config.eq.gains@.len() {
        config.eq.gains@[band]
    } else {
        0
    }));
}

/// A look at the machine takes in what it offers. While a route runs, what is
/// heard is the route's hardware; else it is what the machine plays to, at the
/// volume that stands at.
pub proof fn law_a_refresh_follows_the_machine(
    service: &mut SoundService,
    availability: Availability,
    found: Option<Device>,
    name: String,
    poll: Poll,
)
    requires
        old(service).wf(),
        call_ensures(SoundService::refresh, (service, availability, found), ()),
        call_ensures(SoundService::output_name, (&*final(service),), name),
        call_ensures(SoundService::poll, (&*final(service),), poll),
    ensures
        final(service).availability == availability,
        final(service).route == old(service).route,
        final(service).mixer == old(service).mixer,
        final(service).config == old(service).config,
        poll.routing == (old(service).route is Some),
        poll.output@ == name@,
        match old(service).route {
            Some(route) => {
                &&& final(service).target == Some(route.target)
                &&& final(service).volume == old(service).volume
                &&& final(service).settle == old(service).settle
                &&& name@ == route.target.name@
            },
            None => {
                &&& final(service).target == found
                &&& found matches Some(device) ==> name@ == device.name@
                &&& found is None ==> name@ == "No output"@
                &&& found is Some && (found->0).volume is Some ==> final(service).volume == (
                found->0).volume->0
                &&& found is None || (found->0).volume is None
                    ==> final(service).volume == old(service).volume
                &&& final(service).settle == (if old(service).settle <= 8 {
                    0
                } else {
                    old(service).settle - 8
                })
            },
        },
{
}

/// Switching the enhancement on starts a route to the output there is, and says
/// so where there is none; switching it off stops the route and leaves the
/// system on its hardware. What is so already is left alone.
pub proof fn law_enhancement_is_switched(
    service: &mut SoundService,
    on: bool,
    ask: Ask,
    goal: &Settings,
)
    requires
        old(service).wf(),
        call_ensures(SoundService::set_routing, (service, on), ask),
        call_ensures(Equalizer::target, (&old(service).equalizer,), goal),
    ensures
        on == (old(service).route is Some) ==> ask is Nothing && *final(service) == *old(service),
        on != (old(service).route is Some) ==> final(service).config.routing == on
            && final(service).dirty,
        on && old(service).route is None ==> match old(service).target {
            Some(target) => ask == (Ask::Start {
                ended: None,
                target,
                settings: *goal,
                volume: old(service).volume,
            }),
            None => ask == (Ask::Refuse { reason: "No output device to play to" }),
        },
        !on ==> (old(service).route matches Some(route) ==> {
            &&& ask matches Ask::Stop { route: stopped } && stopped.target == route.target
                && stopped.previous.output == Some(route.target.id) && stopped.previous.system
                == Some(route.target.id) && stopped.driver == route.driver
            &&& final(service).route is None
            &&& final(service).target == Some(route.target)
        }),
        final(service).volume == old(service).volume,
        final(service).equalizer == old(service).equalizer,
        final(service).mixer == old(service).mixer,
{
}

/// A route that started is what runs, at the volume it found, and its hardware
/// is remembered by its UID; one that did not changes nothing.
pub proof fn law_a_started_route_is_adopted(
    service: &mut SoundService,
    target: Device,
    started: Result<Route, RouteError>,
    result: Result<(), String>,
    volume: u32,
)
    requires
        old(service).wf(),
        old(service).generation < u32::MAX,
        call_ensures(SoundService::route_started, (service, &target, started), result),
        call_ensures(SoundService::volume, (&*final(service),), volume),
    ensures
        result is Ok <==> started is Ok,
        started is Err ==> *final(service) == *old(service),
        started matches Ok(route) ==> {
            &&& final(service).route == Some(route)
            &&& volume == route.device_volume
            &&& final(service).settle == 30
            &&& final(service).generation == old(service).generation + 1
            &&& target.uid matches Some(uid) ==> final(service).config.target_uid matches Some(kept)
                && kept@ == uid@
            &&& target.uid is None ==> final(service).config == old(service).config
            &&& target.uid matches Some(uid) ==> final(service).dirty == (old(service).dirty || !(
            old(service).config.target_uid is Some && (old(service).config.target_uid->0)@ == uid@))
            &&& final(service).equalizer == old(service).equalizer
            &&& final(service).target == old(service).target
            &&& final(service).mixer == old(service).mixer
        },
{
}

/// A running route is looked after: hardware that went away is replaced, a
/// virtual device that was republished and a rate that moved have the route
/// rebuilt, and anything else leaves it. Right after a change of our own nothing
/// is believed.
pub proof fn law_a_route_keeps_up_with_its_devices(
    service: &mut SoundService,
    look: Look,
    followed: Followed,
    goal: &Settings,
    moved: bool,
)
    requires
        old(service).wf(),
        old(service).route matches Some(route) ==> call_ensures(
            Route::rate_changed,
            (&route, look.rate),
            moved,
        ),
        call_ensures(SoundService::follow_system_output, (service, &look), followed),
        call_ensures(Equalizer::target, (&old(service).equalizer,), goal),
    ensures
        old(service).settle > 0 || old(service).route is None ==> followed.ask is Nothing
            && !followed.look_on && final(service).route == old(service).route
            && final(service).target == old(service).target,
        final(service).settle == (if old(service).settle <= 8 {
            0
        } else {
            old(service).settle - 8
        }),
        old(service).settle == 0 ==> (old(service).route matches Some(route) ==> {
            let republished = route.driver is Some && look.driver != Some((route.driver->0).id);
            let rebuilt_on = |target: Device|
                {
                    &&& final(service).route is None
                    &&& final(service).target == Some(target)
                    &&& followed.ask == (Ask::Start {
                        ended: Some(route),
                        target,
                        settings: *goal,
                        volume: old(service).volume,
                    })
                };
            &&& !look.target_alive ==> followed.ask == (Ask::Replace { lost: route })
                && !followed.look_on && final(service).route is None
            &&& look.target_alive && republished ==> rebuilt_on(route.target) && !followed.look_on
            &&& look.target_alive && !republished && moved ==> rebuilt_on(look.target)
                && followed.look_on
            &&& look.target_alive && !republished && !moved ==> followed.ask is Nothing
                && followed.look_on && *final(service) == *old(service)
        }),
        final(service).equalizer == old(service).equalizer,
        final(service).volume == old(service).volume,
        final(service).config == old(service).config,
        final(service).mixer == old(service).mixer,
{
}

/// Once the hardware is gone, the route starts over on what is left.
pub proof fn law_a_lost_output_is_replaced(
    service: &mut SoundService,
    left: Option<Device>,
    ask: Ask,
    goal: &Settings,
)
    requires
        old(service).wf(),
        old(service).route is None,
        call_ensures(SoundService::fall_back, (service, left), ask),
        call_ensures(Equalizer::target, (&old(service).equalizer,), goal),
    ensures
        final(service).target == left,
        left matches Some(target) ==> ask == (Ask::Start {
            ended: None,
            target,
            settings: *goal,
            volume: old(service).volume,
        }),
        left is None ==> ask == (Ask::Refuse { reason: "No output device to play to" }),
        final(service).config.routing,
        final(service).dirty,
{
}

/// The system's own choice of output is followed where it is hardware other than
/// the route's. Another incarnation of our device has the route rebuilt where it
/// is; a virtual device of someone else is not followed.
pub proof fn law_the_chosen_output_is_followed(
    service: &mut SoundService,
    current: Option<Device>,
    ask: Ask,
    goal: &Settings,
    ours: bool,
    is_virtual: bool,
)
    requires
        old(service).wf(),
        call_ensures(SoundService::follow_default, (service, current), ask),
        call_ensures(Equalizer::target, (&old(service).equalizer,), goal),
        current matches Some(device) ==> call_ensures(Device::is_diseq, (&device,), ours),
        current matches Some(device) ==> call_ensures(Device::is_virtual, (&device,), is_virtual),
    ensures
        current is None || old(service).route is None ==> ask is Nothing,
        ask is Nothing || ask is Start,
        ask is Nothing ==> *final(service) == *old(service),
        current is Some && old(service).route is Some ==> {
            let device = current->0;
            let route = old(service).route->0;
            let known = route.driver is Some && (route.driver->0).id == device.id || route.target.id
                == device.id;
            let led_to = |target: Device|
                {
                    &&& ask == (Ask::Start {
                        ended: Some(route),
                        target,
                        settings: *goal,
                        volume: old(service).volume,
                    })
                    &&& final(service).route is None
                    &&& final(service).target == Some(target)
                };
            &&& known ==> ask is Nothing
            &&& !known && ours ==> led_to(route.target)
            &&& !known && !ours && device.has_output && !is_virtual ==> led_to(device)
            &&& !known && !ours && !(device.has_output && !is_virtual) ==> ask is Nothing
        },
{
}

/// An output is chosen by its id, among those on offer: the route moves to it,
/// or the system does where there is no route. What is the output already stays.
pub proof fn law_an_output_is_chosen_by_its_id(
    service: &mut SoundService,
    id: u32,
    targets: &[Device],
    ask: SelectAsk,
    at: int,
    goal: &Settings,
)
    requires
        old(service).wf(),
        call_ensures(SoundService::select_output, (service, id, targets), ask),
        call_ensures(Equalizer::target, (&old(service).equalizer,), goal),
        0 <= at <= targets@.len(),
        forall|i: int| 0 <= i < at ==> (#[trigger] targets@[i]).id != id,
        at < targets@.len() ==> targets@[at].id == id,
    ensures
        at == targets@.len() ==> ask == (SelectAsk::Refuse {
            reason: "That output is no longer available",
        }) && *final(service) == *old(service),
        at < targets@.len() ==> {
            let target = targets@[at];
            let already = old(service).target is Some && (old(service).target->0).id == id;
            &&& already ==> ask is Nothing && *final(service) == *old(service)
            &&& !already && old(service).route is None ==> ask == (SelectAsk::Move { target })
                && *final(service) == *old(service)
            &&& !already && old(service).route is Some ==> {
                &&& ask == (SelectAsk::Reroute {
                    mixer: old(service).mixer,
                    ask: Ask::Start {
                        ended: old(service).route,
                        target,
                        settings: *goal,
                        volume: old(service).volume,
                    },
                })
                &&& final(service).mixer is None
                &&& final(service).route is None
                &&& final(service).target == Some(target)
            }
        },
{
    let wanted = |device: Device| device.id == id;
    if at < targets@.len() {
        lemma_first_at(targets@, wanted, at);
    } else {
        lemma_first_none(targets@, wanted);
    }
}

/// An output the system moved to is the one that is shown, at its own volume; a
/// refusal changes nothing.
pub proof fn law_a_moved_output_is_adopted(
    service: &mut SoundService,
    target: Device,
    moved: bool,
    result: Result<Option<Mixer>, &'static str>,
    selected: bool,
)
    requires
        old(service).wf(),
        call_ensures(SoundService::output_moved, (service, target, moved), result),
        call_ensures(SoundService::output_is_selected, (&*final(service), &target), selected),
    ensures
        result is Ok <==> moved,
        !moved ==> *final(service) == *old(service),
        moved ==> {
            &&& selected
            &&& result->Ok_0 == old(service).mixer
            &&& final(service).mixer is None
            &&& final(service).target == Some(target)
            &&& target.volume matches Some(volume) ==> final(service).volume == volume
            &&& target.volume is None ==> final(service).volume == old(service).volume
            &&& target.uid matches Some(uid) ==> final(service).config.target_uid matches Some(kept)
                && kept@ == uid@
            &&& final(service).route == old(service).route
        },
{
}

/// A launch plays to the system's output where that is hardware, else to the
/// device the last run played to where it is still there and can be heard.
pub proof fn law_a_launch_finds_the_remembered_output(
    current: Option<Device>,
    uid: Option<&str>,
    devices: &[Listed],
    fallback: Option<Device>,
    target: Option<Device>,
    ours: bool,
    is_virtual: bool,
    at: int,
    known_virtual: bool,
)
    requires
        call_ensures(remembered_target, (current, uid, devices, fallback), target),
        current matches Some(device) ==> call_ensures(Device::is_diseq, (&device,), ours),
        current matches Some(device) ==> call_ensures(Device::is_virtual, (&device,), is_virtual),
        0 <= at <= devices@.len(),
        uid is Some ==> forall|i: int|
            0 <= i < at ==> !((#[trigger] devices@[i]).device.uid is Some && (
            devices@[i].device.uid->0)@ == (uid->0)@),
        uid is Some && at < devices@.len() ==> devices@[at].device.uid is Some && (
        devices@[at].device.uid->0)@ == (uid->0)@,
        at < devices@.len() ==> call_ensures(
            Device::is_virtual,
            (&devices@[at].device,),
            known_virtual,
        ),
    ensures
        current is Some && !ours && !is_virtual ==> target == current,
        current is None || ours || is_virtual ==> target == (if uid is Some && at < devices@.len()
            && devices@[at].device.has_output && !known_virtual && devices@[at].alive {
            Some(devices@[at].device)
        } else {
            fallback
        }),
{
    if uid is Some {
        let text = uid->0;
        let wanted = |listed: Listed| listed.device.has_uid(text@);
        if at < devices@.len() {
            lemma_first_at(devices@, wanted, at);
        } else {
            lemma_first_none(devices@, wanted);
        }
    }
}

/// A level set on the equaliser is heard on the route at once, and is what will
/// be written.
pub proof fn law_a_band_is_heard_and_kept(
    service: &mut SoundService,
    band: usize,
    gain: i32,
    settings: &Settings,
    shown: &'static str,
    other: int,
)
    requires
        old(service).wf(),
        band < 10,
        0 <= other < 10,
        other != band,
        call_ensures(SoundService::set_band, (service, band, gain), ()),
        call_ensures(SoundService::settings, (&*final(service),), settings),
        call_ensures(SoundService::selected_preset, (&*final(service),), shown),
    ensures
        settings.gains@[band as int] == (if gain < -24_000_000 {
            -24_000_000
        } else if gain > 24_000_000 {
            24_000_000
        } else {
            gain as int
        }),
        settings.gains@[other] == old(service).equalizer.current().gains@[other],
        final(service).route is Some ==> (final(service).route->0).settings == *settings,
        final(service).route is Some <==> old(service).route is Some,
        final(service).config.eq.gains@ == settings.gains@,
        final(service).config.eq.preset@ == shown@,
        final(service).dirty,
{
}

/// Pre-amp and switches likewise; neither moves a band.
pub proof fn law_a_switch_is_heard_and_kept(
    service: &mut SoundService,
    on: bool,
    then: &mut SoundService,
    auto: bool,
    last: &mut SoundService,
    preamp: i32,
    settings: &Settings,
)
    requires
        old(service).wf(),
        call_ensures(SoundService::set_eq_enabled, (service, on), ()),
        *old(then) == *final(service),
        call_ensures(SoundService::set_auto_preamp, (then, auto), ()),
        *old(last) == *final(then),
        call_ensures(SoundService::set_preamp, (last, preamp), ()),
        call_ensures(SoundService::settings, (&*final(last),), settings),
    ensures
        settings.enabled == on,
        settings.auto_preamp == auto,
        settings.preamp == (if preamp < -96_000_000 {
            -96_000_000
        } else if preamp > 5_000_000 {
            5_000_000
        } else {
            preamp as int
        }),
        settings.gains == old(service).equalizer.current().gains,
        final(service).config.eq.enabled == on,
        final(then).config.eq.auto_preamp == auto,
        final(last).config.eq.preamp == settings.preamp,
        final(last).config.eq.enabled == on && final(last).config.eq.auto_preamp == auto,
        final(last).route is Some ==> (final(last).route->0).settings == *settings,
        final(service).route is Some ==> (final(service).route->0).settings.enabled == on,
        final(service).dirty && final(then).dirty && final(last).dirty,
{
}

/// A preset that is known is shown and kept by its id; its levels are kept too,
/// whatever the glide has come to.
pub proof fn law_a_chosen_preset_is_kept(
    service: &mut SoundService,
    id: &str,
    known: bool,
    shown: &'static str,
    goal: &Settings,
    settings: &Settings,
)
    requires
        old(service).wf(),
        call_ensures(SoundService::set_preset, (service, id), known),
        call_ensures(SoundService::selected_preset, (&*final(service),), shown),
        call_ensures(SoundService::settings, (&*final(service),), settings),
        call_ensures(Equalizer::target, (&final(service).equalizer,), goal),
    ensures
        known ==> shown@ == id@,
        !known ==> final(service).equalizer == old(service).equalizer,
        final(service).config.eq.preset@ == shown@,
        final(service).config.eq.gains@ == goal.gains@,
        final(service).config.eq.preamp == goal.preamp,
        final(service).route is Some ==> (final(service).route->0).settings == *settings,
{
}

/// The slider works where a route runs, or the output has a volume of its own.
/// What it is set to is what is shown, kept and heard.
pub proof fn law_the_slider_sets_what_is_heard(
    service: &mut SoundService,
    volume: u32,
    settable: bool,
    actions: Vec<Action>,
    shown: u32,
)
    requires
        old(service).wf(),
        call_ensures(SoundService::volume_is_settable, (&*old(service),), settable),
        call_ensures(SoundService::set_volume, (service, volume), actions),
        call_ensures(SoundService::volume, (&*final(service),), shown),
    ensures
        settable <==> old(service).route is Some || old(service).target is Some
            && (old(service).target->0).volume_is_settable,
        shown == at_most_whole(volume),
        final(service).config.volume == at_most_whole(volume),
        final(service).dirty == (old(service).dirty || old(service).config.volume != at_most_whole(
            volume,
        )),
        old(service).route is Some ==> final(service).route is Some
            && (final(service).route->0).device_volume == at_most_whole(volume),
        old(service).route is None && old(service).target is None ==> actions@.len() == 0,
        old(service).route is None && old(service).target is Some ==> actions@.len() == 1
            && actions@[0] == (Action::SetVolume {
            id: (old(service).target->0).id,
            volume: at_most_whole(volume) as u32,
        }),
        final(service).target == old(service).target,
        final(service).equalizer == old(service).equalizer,
{
}

/// With a route, the slider asks for what the route's own asks for.
pub proof fn law_the_slider_moves_the_route(
    service: &mut SoundService,
    route: &mut Route,
    volume: u32,
    actions: Vec<Action>,
    asked: Vec<Action>,
)
    requires
        old(service).wf(),
        old(service).route == Some(*old(route)),
        call_ensures(SoundService::set_volume, (service, volume), actions),
        call_ensures(Route::set_volume, (route, volume), asked),
    ensures
        actions@ == asked@,
        final(service).route == Some(*final(route)),
{
}

/// A card that is toggled is the other way round, and only that one is; one that
/// is closed is not open.
pub proof fn law_a_toggled_card_is_the_other_way_round(
    service: &mut SoundService,
    display: Display,
    other: Display,
    was: bool,
    open: bool,
    is: bool,
    before: bool,
    after: bool,
    then: &mut SoundService,
    closed: bool,
    last: bool,
    key: String,
    apart: String,
)
    requires
        old(service).wf(),
        call_ensures(display_persistence_key, (&display,), key),
        call_ensures(display_persistence_key, (&other,), apart),
        call_ensures(SoundService::display_card_is_open, (&*old(service), &display), was),
        call_ensures(SoundService::display_card_is_open, (&*old(service), &other), before),
        call_ensures(SoundService::toggle_display_card, (service, &display), open),
        call_ensures(SoundService::display_card_is_open, (&*final(service), &display), is),
        call_ensures(SoundService::display_card_is_open, (&*final(service), &other), after),
        *old(then) == *final(service),
        call_ensures(SoundService::close_display_card, (then, &display), closed),
        call_ensures(SoundService::display_card_is_open, (&*final(then), &display), last),
    ensures
        open == !was,
        is == open,
        key@ != apart@ ==> after == before,
        final(service).dirty,
        closed == open,
        !last,
        final(then).dirty,
{
}

/// The Sound card likewise, and the answer to the driver's offer is the one that
/// was given.
pub proof fn law_the_sound_card_toggles(
    service: &mut SoundService,
    was: bool,
    open: bool,
    is: bool,
    then: &mut SoundService,
    declined: bool,
    answer: bool,
)
    requires
        old(service).wf(),
        call_ensures(SoundService::sound_card_is_open, (&*old(service),), was),
        call_ensures(SoundService::toggle_sound_card, (service,), open),
        call_ensures(SoundService::sound_card_is_open, (&*final(service),), is),
        *old(then) == *final(service),
        call_ensures(SoundService::set_driver_prompt_declined, (then, declined), ()),
        call_ensures(SoundService::driver_prompt_declined, (&*final(then),), answer),
    ensures
        open == !was && is == open && final(service).dirty,
        answer == declined,
        final(then).config.sound_open == open,
{
}

/// What a mixer covers: an application that is playing and is not ours, in the
/// order they come, sixteen at the most.
pub proof fn law_the_mixer_covers_what_plays(
    processes: &[Process],
    more: &[Process],
    process: Process,
    own: i32,
    playing: Vec<Process>,
    then: Vec<Process>,
)
    requires
        more@ == processes@.push(process),
        call_ensures(SoundService::playing, (processes, own), playing),
        call_ensures(SoundService::playing, (more, own), then),
    ensures
        processes@.len() == 0 ==> playing@.len() == 0,
        playing@.len() <= 16,
        then@ == (if process.is_playing && process.pid != own && playing@.len() < 16 {
            playing@.push(process)
        } else {
            playing@
        }),
{
    let plays = |process: Process| process.is_playing;
    let others = |process: Process| process.pid != own;
    lemma_filter_push(processes@, process, plays);
    lemma_filter_push(processes@.filter(plays), process, others);
    let kept = processes@.filter(plays).filter(others);
    if processes@.len() == 0 {
        assert(processes@ =~= Seq::empty());
        reveal(Seq::filter);
    }
    assert(kept.push(process).take(16) =~= if kept.len() >= 16 {
        kept.take(16)
    } else {
        kept.push(process).take(16)
    });
}

/// Switching the mixer on mixes what plays into the virtual device of a running
/// route, else into the output; it says why it cannot. Switching it off takes
/// it down. What is so already is left alone.
pub proof fn law_the_mixer_is_switched(
    service: &mut SoundService,
    on: bool,
    playing: Vec<Process>,
    ask: MixAsk,
    mixing: bool,
)
    requires
        old(service).wf(),
        call_ensures(SoundService::is_mixing, (&*old(service),), mixing),
        call_ensures(SoundService::set_mixing, (service, on, playing), ask),
    ensures
        mixing == (old(service).mixer is Some),
        on == mixing ==> ask is Nothing && *final(service) == *old(service),
        on != mixing ==> final(service).config.mixing == on && final(service).dirty
            && final(service).mixer is None,
        !on && mixing ==> ask == (MixAsk::Stop { mixer: old(service).mixer->0 }),
        on && !mixing ==> {
            let proxied = old(service).route is Some && (old(service).route->0).driver is Some;
            &&& playing@.len() == 0 ==> ask == (MixAsk::Refuse {
                reason: "Nothing is playing audio right now",
            })
            &&& playing@.len() > 0 && (proxied || old(service).target is Some) ==> {
                &&& ask is Start
                &&& ask->Start_playing@ == playing@
                &&& ask->Start_destination == (if proxied {
                    (old(service).route->0).driver->0
                } else {
                    old(service).target->0
                })
            }
            &&& playing@.len() > 0 && !proxied && old(service).target is None ==> ask == (
            MixAsk::Refuse { reason: "No output device to mix into" })
        },
        final(service).route == old(service).route,
        final(service).volume == old(service).volume,
{
}

/// A mixer that started brings every application back to the level that was
/// remembered for its bundle, within the slider, and leaves the others; where no
/// process is tapped twice.
pub proof fn law_a_started_mixer_recalls_the_levels(
    service: &mut SoundService,
    mixer: Mixer,
    result: Result<(), String>,
    faders: Vec<AppFader>,
    index: int,
)
    requires
        old(service).wf(),
        mixer.wf(),
        call_ensures(
            SoundService::mixer_started,
            (service, Ok::<Mixer, MixerError>(mixer)),
            result,
        ),
        call_ensures(SoundService::app_faders, (&*final(service),), faders),
        0 <= index < mixer.taps@.len(),
        forall|i: int, j: int|
            0 <= i < j < mixer.taps@.len() ==> (#[trigger] mixer.taps@[i]).process.id != (
            #[trigger] mixer.taps@[j]).process.id,
    ensures
        result is Ok,
        faders@.len() == mixer.taps@.len(),
        faders@[index].process == mixer.taps@[index].process,
        ({
            let bundle = mixer.taps@[index].process.bundle_id;
            let gains = old(service).config.app_gains@;
            if bundle is Some && gains.contains_key((bundle->0)@) {
                let kept = gains[(bundle->0)@];
                faders@[index].gain == (if kept < 0 {
                    0
                } else if kept > 1_000_000 {
                    1_000_000
                } else {
                    kept as int
                })
            } else {
                faders@[index].gain == mixer.faders.slots@[index].gain
            }
        }),
        final(service).config == old(service).config,
        final(service).dirty == old(service).dirty,
{
    law_applications_come_back_at_their_level(mixer, old(service).config.app_gains@, index);
}

/// A mixer that did not start changes nothing; without one there are no faders.
pub proof fn law_a_failed_mixer_changes_nothing(
    service: &mut SoundService,
    error: MixerError,
    result: Result<(), String>,
    faders: Vec<AppFader>,
)
    requires
        old(service).wf(),
        old(service).mixer is None,
        call_ensures(
            SoundService::mixer_started,
            (service, Err::<Mixer, MixerError>(error)),
            result,
        ),
        call_ensures(SoundService::app_faders, (&*final(service),), faders),
    ensures
        result is Err,
        *final(service) == *old(service),
        faders@.len() == 0,
{
}

/// An application's level is what its fader shows, within the slider, and is
/// remembered under its bundle as it was given. No other fader moves.
pub proof fn law_an_application_is_set_to_its_level(
    service: &mut SoundService,
    index: int,
    gain: i64,
    faders: Vec<AppFader>,
    other: int,
)
    requires
        old(service).wf(),
        old(service).mixer is Some,
        ({
            let taps = (old(service).mixer->0).taps@;
            &&& 0 <= index < taps.len()
            &&& 0 <= other < taps.len()
            &&& other != index
            &&& forall|i: int, j: int|
                0 <= i < j < taps.len() ==> (#[trigger] taps[i]).process.id != (
                #[trigger] taps[j]).process.id
            &&& call_ensures(
                SoundService::set_app_gain,
                (service, taps[index].process.id, gain),
                (),
            )
        }),
        call_ensures(SoundService::app_faders, (&*final(service),), faders),
    ensures
        faders@[index].gain == (if gain < 0 {
            0
        } else if gain > 1_000_000 {
            1_000_000
        } else {
            gain as int
        }),
        faders@[other].gain == (old(service).mixer->0).faders.slots@[other].gain,
        ({
            let bundle = (old(service).mixer->0).taps@[index].process.bundle_id;
            let before = old(service).config.app_gains@;
            &&& bundle is Some ==> final(service).config.app_gains@ == before.insert(
                (bundle->0)@,
                gain,
            ) && final(service).dirty
            &&& bundle is None ==> final(service).config.app_gains@ == before
                && final(service).dirty == old(service).dirty
        }),
        final(service).route == old(service).route,
        final(service).volume == old(service).volume,
{
    let mixer = old(service).mixer->0;
    let id = mixer.taps@[index].process.id;
    assert(is_slot_among(mixer.taps@, id, index));
    let slot = mixer.slot(id);
    assert(is_slot_among(mixer.taps@, id, slot));
    assert(slot == index) by {
        if slot < index {
            assert(mixer.taps@[slot].process.id != mixer.taps@[index].process.id);
        }
        if slot > index {
            assert(mixer.taps@[index].process.id != mixer.taps@[slot].process.id);
        }
    }
}

/// A mixer is stale once it does not cover exactly what plays; one that is off
/// never is.
pub proof fn law_a_mixer_is_stale_once_something_else_plays(
    service: SoundService,
    playing: &[Process],
    stale: bool,
    index: int,
)
    requires
        call_ensures(SoundService::mixer_is_stale, (&service, playing), stale),
    ensures
        service.mixer is None ==> !stale,
        service.mixer is Some && playing@.len() != (service.mixer->0).taps@.len() ==> stale,
        service.mixer is Some && 0 <= index < playing@.len() && (forall|i: int|
            0 <= i < (service.mixer->0).taps@.len() ==> (#[trigger] (
            service.mixer->0).taps@[i]).process.id != playing@[index].id) ==> stale,
        service.mixer is Some && playing@.len() == (service.mixer->0).taps@.len() && (forall|j: int|
            #![trigger playing@[j]]
            0 <= j < playing@.len() ==> playing@[j].id == (
            service.mixer->0).taps@[j].process.id) ==> !stale,
{
    if service.mixer is Some {
        let mixer = service.mixer->0;
        if playing@.len() == mixer.taps@.len() && (forall|j: int|
            #![trigger playing@[j]]
            0 <= j < playing@.len() ==> playing@[j].id == mixer.taps@[j].process.id) {
            assert forall|j: int| 0 <= j < playing@.len() implies mixer.has_fader(
                (#[trigger] playing@[j]).id,
            ) by {
                assert(mixer.taps@[j].process.id == playing@[j].id);
            }
        }
    }
}

/// A mixer that is rebuilt goes away, its levels are noted, and a new one is
/// asked for over what plays; the noted levels come back, each at its process,
/// where no process is tapped or noted twice.
pub proof fn law_a_rebuilt_mixer_is_asked_for(
    service: &mut SoundService,
    playing: Vec<Process>,
    rebuild: Rebuild,
    i: int,
)
    requires
        old(service).wf(),
        call_ensures(SoundService::refresh_mixer, (service, playing), rebuild),
    ensures
        rebuild.ended == old(service).mixer,
        final(service).mixer is None,
        old(service).mixer is None ==> rebuild.previous@.len() == 0 && rebuild.ask is Nothing
            && *final(service) == *old(service),
        old(service).mixer is Some ==> {
            let mixer = old(service).mixer->0;
            let proxied = old(service).route is Some && (old(service).route->0).driver is Some;
            &&& rebuild.previous@.len() == mixer.taps@.len()
            &&& 0 <= i < mixer.taps@.len() ==> rebuild.previous@[i] == (
                mixer.taps@[i].process.id,
                mixer.faders.slots@[i].gain,
            )
            &&& playing@.len() == 0 ==> rebuild.ask == (MixAsk::Refuse {
                reason: "Nothing is playing audio right now",
            })
            &&& playing@.len() > 0 && (proxied || old(service).target is Some) ==> {
                &&& rebuild.ask is Start
                &&& rebuild.ask->Start_playing@ == playing@
                &&& rebuild.ask->Start_destination == (if proxied {
                    (old(service).route->0).driver->0
                } else {
                    old(service).target->0
                })
            }
            &&& final(service).config.mixing
        },
        final(service).config.app_gains == old(service).config.app_gains,
{
}

/// A fader of a rebuilt mixer stands at the level noted for its process, and one
/// that nothing was noted for stays, where no process is tapped or noted twice.
pub proof fn law_noted_levels_are_put_back(
    service: &mut SoundService,
    previous: &[(u32, u32)],
    faders: Vec<AppFader>,
    index: int,
    noted: int,
)
    requires
        old(service).wf(),
        old(service).mixer is Some,
        call_ensures(SoundService::restore_levels, (service, previous), ()),
        call_ensures(SoundService::app_faders, (&*final(service),), faders),
        0 <= index < (old(service).mixer->0).taps@.len(),
        0 <= noted <= previous@.len(),
        ({
            let taps = (old(service).mixer->0).taps@;
            &&& forall|i: int, j: int|
                0 <= i < j < taps.len() ==> (#[trigger] taps[i]).process.id != (
                #[trigger] taps[j]).process.id
            &&& noted < previous@.len() ==> previous@[noted].0 == taps[index].process.id
            &&& forall|i: int|
                0 <= i < previous@.len() && i != noted ==> (#[trigger] previous@[i]).0
                    != taps[index].process.id
        }),
    ensures
        faders@.len() == (old(service).mixer->0).taps@.len(),
        faders@[index].process == (old(service).mixer->0).taps@[index].process,
        faders@[index].gain == (if noted == previous@.len() {
            (old(service).mixer->0).faders.slots@[index].gain as int
        } else if previous@[noted].1 > 1_000_000 {
            1_000_000
        } else {
            previous@[noted].1 as int
        }),
{
    lemma_leveled(old(service).mixer->0, previous@, index, noted, previous@.len() as int);
}

proof fn lemma_leveled(
    mixer: Mixer,
    levels: Seq<(u32, u32)>,
    index: int,
    noted: int,
    count: int,
)
    requires
        mixer.wf(),
        0 <= index < mixer.taps@.len(),
        0 <= noted <= levels.len(),
        0 <= count <= levels.len(),
        forall|i: int, j: int|
            0 <= i < j < mixer.taps@.len() ==> (#[trigger] mixer.taps@[i]).process.id != (
            #[trigger] mixer.taps@[j]).process.id,
        noted < levels.len() ==> levels[noted].0 == mixer.taps@[index].process.id,
        forall|i: int|
            0 <= i < levels.len() && i != noted ==> (#[trigger] levels[i]).0
                != mixer.taps@[index].process.id,
    ensures
        leveled(mixer, levels, count).len() == mixer.faders.slots@.len(),
        leveled(mixer, levels, count)[index].gain == (if noted >= count {
            mixer.faders.slots@[index].gain as int
        } else {
            slider_gain(levels[noted].1 as int)
        }),
    decreases count,
{
    if count > 0 {
        lemma_leveled(mixer, levels, index, noted, count - 1);
        let id = levels[count - 1].0;
        if mixer.has_fader(id) {
            let found = choose|i: int|
                0 <= i < mixer.taps@.len() && (#[trigger] mixer.taps@[i]).process.id == id;
            assert(is_slot_among(mixer.taps@, id, found)) by {
                assert forall|i: int| 0 <= i < found implies (
                #[trigger] mixer.taps@[i]).process.id != id by {
                    assert(mixer.taps@[i].process.id != mixer.taps@[found].process.id);
                }
            }
            let slot = mixer.slot(id);
            assert(is_slot_among(mixer.taps@, id, slot));
            if count - 1 == noted {
                assert(is_slot_among(mixer.taps@, id, index));
                assert(slot == index) by {
                    if slot < index {
                        assert(mixer.taps@[slot].process.id != mixer.taps@[index].process.id);
                    }
                    if slot > index {
                        assert(mixer.taps@[index].process.id != mixer.taps@[slot].process.id);
                    }
                }
            } else {
                assert(slot != index);
            }
        } else if count - 1 == noted {
            assert(is_slot_among(mixer.taps@, id, index));
        }
    }
}

/// Levels are kept under their bundles as a single setting keeps them: what was
/// noted last for a bundle counts, and other bundles keep theirs.
pub proof fn law_noted_levels_are_kept(
    service: &mut SoundService,
    previous: &[(u32, u32)],
    bundle: Seq<char>,
    last: int,
)
    requires
        old(service).wf(),
        old(service).mixer is Some,
        call_ensures(SoundService::restore_levels, (service, previous), ()),
        -1 <= last < previous@.len(),
        last >= 0 ==> kept_under(old(service).mixer->0, previous@[last].0) == Some(bundle),
        forall|i: int|
            last < i < previous@.len() ==> kept_under(
                old(service).mixer->0,
                (#[trigger] previous@[i]).0,
            ) != Some(bundle),
    ensures
        ({
            let before = old(service).config.app_gains@;
            let after = final(service).config.app_gains@;
            &&& last >= 0 ==> after.contains_key(bundle) && after[bundle] == previous@[last].1
            &&& last < 0 ==> after.contains_key(bundle) == before.contains_key(bundle) && (
            before.contains_key(bundle) ==> after[bundle] == before[bundle])
        }),
{
    lemma_kept(
        old(service).mixer->0,
        old(service).config.app_gains@,
        previous@,
        bundle,
        last,
        previous@.len() as int,
    );
}

proof fn lemma_kept(
    mixer: Mixer,
    gains: Map<Seq<char>, i64>,
    levels: Seq<(u32, u32)>,
    bundle: Seq<char>,
    last: int,
    count: int,
)
    requires
        -1 <= last < count <= levels.len(),
        last >= 0 ==> kept_under(mixer, levels[last].0) == Some(bundle),
        forall|i: int|
            last < i < count ==> kept_under(mixer, (#[trigger] levels[i]).0) != Some(bundle),
    ensures
        ({
            let after = kept(mixer, gains, levels, count);
            &&& last >= 0 ==> after.contains_key(bundle) && after[bundle] == levels[last].1
            &&& last < 0 ==> after.contains_key(bundle) == gains.contains_key(bundle) && (
            gains.contains_key(bundle) ==> after[bundle] == gains[bundle])
        }),
    decreases count,
{
    if count > 0 && last < count - 1 {
        lemma_kept(mixer, gains, levels, bundle, last, count - 1);
        assert(kept_under(mixer, levels[count - 1].0) != Some(bundle));
    }
}

/// A frame steps the glide, follows the volume set elsewhere, writes the
/// settings every thirtieth time where they changed, and looks at the system's
/// output every eighth.
pub proof fn law_a_frame_does_its_upkeep<T: Copy>(
    service: &mut SoundService,
    equalizer: &mut Equalizer,
    bridge: &mut Bridge<T>,
    readings: Readings,
    ticked: (Ticked, Vec<Action>),
    gliding: bool,
    stepped: bool,
)
    requires
        old(service).wf(),
        old(service).route is None,
        *old(equalizer) == old(service).equalizer,
        call_ensures(SoundService::is_ramping, (&*old(service),), gliding),
        call_ensures(SoundService::tick::<T>, (service, bridge, readings), ticked),
        call_ensures(Equalizer::tick, (equalizer,), stepped),
    ensures
        ticked.1@.len() == 0,
        ticked.0.redraw == gliding,
        stepped == gliding,
        final(service).equalizer.goal() == final(equalizer).goal(),
        final(service).volume == old(service).volume,
        final(service).config == old(service).config,
        final(service).ticks == (if old(service).ticks == 0xFFFF_FFFFu32 {
            0
        } else {
            old(service).ticks + 1
        }),
        ticked.0.poll <==> final(service).ticks % 8 == 0,
        ticked.0.save <==> final(service).ticks % 30 == 0 && old(service).dirty,
        final(service).dirty <==> old(service).dirty && !ticked.0.save,
        final(service).route is None,
{
}

/// The volume that was set at the virtual device is the one that is shown and
/// kept, and the route is told what plays.
pub proof fn law_a_frame_follows_the_route<T: Copy>(
    service: &mut SoundService,
    route: &mut Route,
    bridge: &mut Bridge<T>,
    same: &mut Bridge<T>,
    readings: Readings,
    ticked: (Ticked, Vec<Action>),
    gliding: bool,
    alone: (crate::router::Health, Vec<Action>),
)
    requires
        old(service).wf(),
        old(service).route is Some,
        call_ensures(SoundService::is_ramping, (&*old(service),), gliding),
        call_ensures(SoundService::tick::<T>, (service, bridge, readings), ticked),
        *old(same) == *old(bridge),
        *old(route) == (if gliding {
            Route {
                settings: final(service).equalizer.current(),
                ..old(service).route->0
            }
        } else {
            old(service).route->0
        }),
        call_ensures(Route::tick::<T>, (route, same, readings), alone),
    ensures
        final(service).route == Some(*final(route)),
        ticked.1@ == alone.1@,
        final(route).volume_changed matches Some(volume) ==> final(service).volume == volume
            && final(service).config.volume == volume && ticked.0.redraw,
        final(route).volume_changed is None ==> final(service).volume == old(service).volume
            && final(service).config == old(service).config && ticked.0.redraw == gliding,
        ticked.0.poll <==> final(service).ticks % 8 == 0,
        ticked.0.save <==> final(service).ticks % 30 == 0 && (old(service).dirty
            || final(service).config.volume != old(service).config.volume),
{
}

/// Frames are wanted while anything moves, plays or may come: a glide, a route,
/// an installed driver.
pub proof fn law_frames_are_wanted_while_something_may_change(
    service: SoundService,
    wants: bool,
    gliding: bool,
    routing: bool,
)
    requires
        call_ensures(SoundService::wants_ticks, (&service,), wants),
        call_ensures(SoundService::is_ramping, (&service,), gliding),
        call_ensures(SoundService::is_routing, (&service,), routing),
    ensures
        wants <==> gliding || routing || service.availability.driver,
        routing <==> service.route is Some,
{
}

/// What changed is written once; what did not is not written.
pub proof fn law_a_change_is_written_once(
    service: &mut SoundService,
    first: bool,
    then: &mut SoundService,
    second: bool,
)
    requires
        call_ensures(SoundService::save, (service,), first),
        *old(then) == *final(service),
        call_ensures(SoundService::save, (then,), second),
    ensures
        first == old(service).dirty,
        !second,
        final(service).config == old(service).config,
{
}

/// Nothing runs after a shutdown, and everything that did is handed back to be
/// taken down; what changed is written.
pub proof fn law_a_shutdown_hands_everything_back(service: &mut SoundService, remains: Remains)
    requires
        old(service).wf(),
        call_ensures(SoundService::shutdown, (service,), remains),
    ensures
        remains.route == old(service).route,
        remains.mixer == old(service).mixer,
        remains.save == old(service).dirty,
        final(service).route is None,
        final(service).mixer is None,
        !final(service).dirty,
        final(service).config == old(service).config,
{
}

/// The mixer comes back after a move, whether or not it succeeded; a failed move
/// is what is reported.
pub proof fn law_a_move_is_finished(
    was_mixing: bool,
    moved: bool,
    aftermath: Aftermath,
    move_result: Result<(), String>,
    mix_result: Result<(), String>,
    outcome: Result<(), String>,
)
    requires
        call_ensures(after_output_moved, (was_mixing, moved), aftermath),
        call_ensures(output_outcome, (move_result, mix_result), outcome),
    ensures
        aftermath.remix == was_mixing,
        aftermath.save == moved,
        outcome is Ok <==> move_result is Ok && mix_result is Ok,
        move_result is Err ==> outcome == move_result,
        move_result is Ok ==> outcome == mix_result,
{
}

/// A route that moves is ended first and started on the other hardware.
pub proof fn law_a_route_moves_to_the_other_hardware(
    service: &mut SoundService,
    target: Device,
    ask: Ask,
    goal: &Settings,
    availability: &Availability,
)
    requires
        old(service).wf(),
        call_ensures(SoundService::retarget, (service, target), ask),
        call_ensures(Equalizer::target, (&old(service).equalizer,), goal),
        call_ensures(SoundService::availability, (&*final(service),), availability),
    ensures
        ask == (Ask::Start {
            ended: old(service).route,
            target,
            settings: *goal,
            volume: old(service).volume,
        }),
        final(service).route is None,
        final(service).target == Some(target),
        final(service).config == old(service).config,
        final(service).mixer == old(service).mixer,
        *availability == old(service).availability,
{
}

} // verus!
