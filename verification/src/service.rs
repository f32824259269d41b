//! Backend selection and the actions the UI invokes.
//!
//! Every display exposes the same controls, but what actually drives them
//! differs per display and per machine, so the backend is resolved once at
//! startup and cached.

use std::collections::HashMap;

use vstd::prelude::*;

use crate::display::{Attachment, Display, DisplayId, DisplayMode, DisplaySnapshot};
use crate::offline::{Registry, Strategy};
use crate::power::{may_connect, PowerError};

verus! {

broadcast use vstd::std_specs::hash::group_hash_axioms;

/// What is actually driving a display's brightness.
#[derive(Copy, Clone, PartialEq, Eq, Debug, Structural)]
pub enum BrightnessBackend {
    /// Built-in panel, via the private brightness frameworks.
    Panel,
    /// External display over DDC/CI.
    Ddc,
    /// Gamma ramp: dims the signal, not the backlight.
    Software,
    /// Nothing available: no backlight control, no DDC, and gamma is ignored.
    Unavailable,
}

pub open spec fn backend_caption(backend: BrightnessBackend) -> &'static str {
    match backend {
        BrightnessBackend::Panel => "Brightness",
        BrightnessBackend::Ddc => "Brightness (DDC)",
        BrightnessBackend::Software => "Brightness (Software)",
        BrightnessBackend::Unavailable => "Brightness (unavailable)",
    }
}

impl BrightnessBackend {
    pub fn caption(self) -> (caption: &'static str)
        ensures
            caption == backend_caption(self),
    {
        match self {
            BrightnessBackend::Panel => "Brightness",
            BrightnessBackend::Ddc => "Brightness (DDC)",
            BrightnessBackend::Software => "Brightness (Software)",
            BrightnessBackend::Unavailable => "Brightness (unavailable)",
        }
    }

    pub fn is_available(self) -> (available: bool)
        ensures
            available == (self != BrightnessBackend::Unavailable),
    {
        match self {
            BrightnessBackend::Unavailable => false,
            _ => true,
        }
    }
}

// --- probing ----------------------------------------------------------------

/// What is known of which backend drives a display, and what has to be asked to
/// know more. Asking walks the monitor bus, so it is done only where it decides
/// anything.
#[derive(Copy, Clone, PartialEq, Eq, Debug, Structural)]
pub enum Probe {
    AskDdc,
    AskGamma,
    Settled(BrightnessBackend),
}

/// The backend that drives a display, by what answers for it.
///
/// The panel frameworks answer for external displays too (they report a
/// plausible value and silently ignore writes), so they count for the built-in
/// panel only.
pub open spec fn driving(is_builtin: bool, panel: bool, ddc: bool, gamma: bool) -> BrightnessBackend {
    if is_builtin && panel {
        BrightnessBackend::Panel
    } else if ddc {
        BrightnessBackend::Ddc
    } else if gamma {
        BrightnessBackend::Software
    } else {
        BrightnessBackend::Unavailable
    }
}

impl Probe {
    /// Where a probe ends, given what the display would answer.
    pub open spec fn ends(self, ddc: bool, gamma: bool) -> BrightnessBackend {
        match self {
            Probe::AskDdc => driving(false, false, ddc, gamma),
            Probe::AskGamma => driving(false, false, false, gamma),
            Probe::Settled(backend) => backend,
        }
    }

    /// `linked` says whether the monitor bus reaches the display at all.
    pub fn start(is_builtin: bool, panel: bool, linked: bool) -> (probe: Self)
        ensures
            probe == (if is_builtin && panel {
                Probe::Settled(BrightnessBackend::Panel)
            } else if linked {
                Probe::AskDdc
            } else {
                Probe::AskGamma
            }),
    {
        if is_builtin && panel {
            Probe::Settled(BrightnessBackend::Panel)
        } else if linked {
            Probe::AskDdc
        } else {
            Probe::AskGamma
        }
    }

    pub fn ddc_answered(answers: bool) -> (probe: Self)
        ensures
            probe == (if answers {
                Probe::Settled(BrightnessBackend::Ddc)
            } else {
                Probe::AskGamma
            }),
    {
        if answers {
            Probe::Settled(BrightnessBackend::Ddc)
        } else {
            Probe::AskGamma
        }
    }

    pub fn gamma_answered(works: bool) -> (probe: Self)
        ensures
            probe == (if works {
                Probe::Settled(BrightnessBackend::Software)
            } else {
                Probe::Settled(BrightnessBackend::Unavailable)
            }),
    {
        if works {
            Probe::Settled(BrightnessBackend::Software)
        } else {
            Probe::Settled(BrightnessBackend::Unavailable)
        }
    }
}

/// Asking one thing at a time comes to the same backend as asking everything at
/// once, and the panel frameworks are never trusted with an external display.
pub proof fn law_the_probe_finds_what_drives_the_display(
    is_builtin: bool,
    panel: bool,
    linked: bool,
    answers: bool,
    gamma: bool,
)
    ensures
        ({
            let start = if is_builtin && panel {
                Probe::Settled(BrightnessBackend::Panel)
            } else if linked {
                Probe::AskDdc
            } else {
                Probe::AskGamma
            };
            start.ends(answers, gamma) == driving(is_builtin, panel, linked && answers, gamma)
        }),
        !is_builtin ==> driving(is_builtin, panel, linked && answers, gamma)
            != BrightnessBackend::Panel,
{
}

// --- brightness -------------------------------------------------------------

/// How bright a display is, from 0 to 1.
#[derive(Copy, Clone, PartialEq, Eq, Debug, Structural)]
pub enum Level {
    /// As a monitor reports it: a part of its own scale.
    Ratio { current: u16, max: u16 },
    /// A double-precision number, by its bits.
    Value { bits: u64 },
}

/// The bits of the double-precision one, and of the largest magnitude that is a
/// number.
pub const ONE_BITS: u64 = 0x3FF0_0000_0000_0000;

pub const INFINITY_BITS: u64 = 0x7FF0_0000_0000_0000;

pub const SIGN_BIT: u64 = 0x8000_0000_0000_0000;

/// The bits of a double-precision number brought into the range from 0 to 1.
///
/// Numbers that are not negative are ordered as their bits are. What is not a
/// number stays what it is, and so does the zero with a minus sign.
pub open spec fn unit_range(bits: u64) -> u64 {
    let magnitude = bits % SIGN_BIT;
    if magnitude > INFINITY_BITS {
        bits
    } else if bits > SIGN_BIT {
        0
    } else if bits == SIGN_BIT {
        bits
    } else if bits > ONE_BITS {
        ONE_BITS
    } else {
        bits
    }
}

/// What is to be asked of the system to set a brightness.
#[derive(Copy, Clone, PartialEq, Eq, Debug, Structural)]
pub enum BrightnessAction {
    Panel { display: DisplayId, bits: u64 },
    /// Write the monitor's own scale, which ends at `max`.
    Ddc { display: DisplayId, bits: u64, max: u16 },
    Gamma { display: DisplayId, bits: u64 },
    Nothing,
}

/// The scale a monitor is taken to have until it says otherwise.
pub const DEFAULT_SCALE: u16 = 100;

#[derive(Debug)]
pub struct Service {
    backends: HashMap<u32, BrightnessBackend>,
    brightness: HashMap<u32, Level>,
    scales: HashMap<u32, u16>,
    strategy: Strategy,
    /// Set whenever the display layout changes, because which backend drives a
    /// display is decided by what answered at probe time.
    stale: bool,
}

impl Service {
    pub closed spec fn backends(self) -> Map<u32, BrightnessBackend> {
        self.backends@
    }

    pub closed spec fn levels(self) -> Map<u32, Level> {
        self.brightness@
    }

    pub closed spec fn scales(self) -> Map<u32, u16> {
        self.scales@
    }

    pub closed spec fn preferred(self) -> Strategy {
        self.strategy
    }

    pub closed spec fn is_stale(self) -> bool {
        self.stale
    }

    pub open spec fn backend_of(self, display: DisplayId) -> BrightnessBackend {
        if self.backends().contains_key(display.0) {
            self.backends()[display.0]
        } else {
            BrightnessBackend::Unavailable
        }
    }

    /// Off means off: the hard disconnect is the only mechanism that darkens
    /// the panel and takes the display out of the layout in one step. Where it
    /// is missing the mirror trick is what there is.
    pub fn start(hard_disconnect_available: bool) -> (service: Self)
        ensures
            service.backends() == Map::<u32, BrightnessBackend>::empty(),
            service.levels() == Map::<u32, Level>::empty(),
            service.scales() == Map::<u32, u16>::empty(),
            service.preferred() == (if hard_disconnect_available {
                Strategy::HardDisconnect
            } else {
                Strategy::Mirror
            }),
            !service.is_stale(),
    {
        Service {
            backends: HashMap::new(),
            brightness: HashMap::new(),
            scales: HashMap::new(),
            strategy: if hard_disconnect_available {
                Strategy::HardDisconnect
            } else {
                Strategy::Mirror
            },
            stale: false,
        }
    }

    /// The display layout changed.
    pub fn layout_changed(&mut self)
        ensures
            final(self).is_stale(),
            final(self).backends() == old(self).backends(),
            final(self).levels() == old(self).levels(),
            final(self).scales() == old(self).scales(),
            final(self).preferred() == old(self).preferred(),
    {
        self.stale = true;
    }

    /// Whether the backends have to be resolved again because the layout has
    /// changed since the last probe. Saying so takes note of it.
    pub fn refresh_if_stale(&mut self) -> (probe: bool)
        ensures
            probe == old(self).is_stale(),
            !final(self).is_stale(),
            final(self).backends() == old(self).backends(),
            final(self).levels() == old(self).levels(),
            final(self).scales() == old(self).scales(),
            final(self).preferred() == old(self).preferred(),
    {
        let probe: bool = self.stale;
        self.stale = false;
        probe
    }

    /// Forgets which backend drives which display, before a probe. What the
    /// displays were set to is kept.
    pub fn begin_probe(&mut self)
        ensures
            final(self).backends() == Map::<u32, BrightnessBackend>::empty(),
            final(self).levels() == old(self).levels(),
            final(self).scales() == old(self).scales(),
            final(self).preferred() == old(self).preferred(),
            final(self).is_stale() == old(self).is_stale(),
    {
        self.backends.clear();
    }

    /// Takes the backend of a display, and what its brightness stands at where
    /// the backend can say so at once. Returns whether the monitor is to be
    /// asked aside, so opening the panel never blocks on the bus.
    pub fn probed(
        &mut self,
        display: DisplayId,
        backend: BrightnessBackend,
        bits: Option<u64>,
    ) -> (ask_monitor: bool)
        ensures
            ask_monitor == (backend == BrightnessBackend::Ddc),
            final(self).backends() == old(self).backends().insert(display.0, backend),
            final(self).levels() == (match bits {
                Some(bits) if backend == BrightnessBackend::Panel || backend
                    == BrightnessBackend::Software => old(self).levels().insert(
                    display.0,
                    Level::Value { bits },
                ),
                _ => old(self).levels(),
            }),
            final(self).scales() == old(self).scales(),
            final(self).preferred() == old(self).preferred(),
            final(self).is_stale() == old(self).is_stale(),
    {
        self.backends.insert(display.0, backend);
        match backend {
            BrightnessBackend::Panel | BrightnessBackend::Software => {
                match bits {
                    Some(bits) => {
                        self.brightness.insert(display.0, Level::Value { bits });
                    },
                    None => {},
                }
                false
            },
            BrightnessBackend::Ddc => true,
            BrightnessBackend::Unavailable => false,
        }
    }

    /// Takes what a monitor said of its brightness. A scale that ends at zero
    /// says nothing.
    pub fn monitor_answered(&mut self, display: DisplayId, current: u16, max: u16)
        ensures
            max == 0 ==> *final(self) == *old(self),
            max > 0 ==> {
                &&& final(self).levels() == old(self).levels().insert(
                    display.0,
                    Level::Ratio { current, max },
                )
                &&& final(self).scales() == old(self).scales().insert(display.0, max)
                &&& final(self).backends() == old(self).backends()
                &&& final(self).preferred() == old(self).preferred()
                &&& final(self).is_stale() == old(self).is_stale()
            },
    {
        if max > 0 {
            self.brightness.insert(display.0, Level::Ratio { current, max });
            self.scales.insert(display.0, max);
        }
    }

    pub fn backend(&self, display: DisplayId) -> (backend: BrightnessBackend)
        ensures
            backend == self.backend_of(display),
    {
        match self.backends.get(&display.0) {
            Some(backend) => *backend,
            None => BrightnessBackend::Unavailable,
        }
    }

    pub fn brightness(&self, display: DisplayId) -> (level: Option<Level>)
        ensures
            level == (if self.backend_of(display) != BrightnessBackend::Unavailable
                && self.levels().contains_key(display.0) {
                Some(self.levels()[display.0])
            } else {
                None
            }),
    {
        if !self.backend(display).is_available() {
            return None;
        }
        match self.brightness.get(&display.0) {
            Some(level) => Some(*level),
            None => None,
        }
    }

    /// Sets a brightness, given by the bits of a double-precision number: what
    /// is to be asked of the system.
    pub fn set_brightness(&mut self, display: DisplayId, bits: u64) -> (action: BrightnessAction)
        ensures
            final(self).levels() == old(self).levels().insert(
                display.0,
                Level::Value { bits: unit_range(bits) },
            ),
            final(self).backends() == old(self).backends(),
            final(self).scales() == old(self).scales(),
            final(self).preferred() == old(self).preferred(),
            final(self).is_stale() == old(self).is_stale(),
            action == (match old(self).backend_of(display) {
                BrightnessBackend::Panel => BrightnessAction::Panel {
                    display,
                    bits: unit_range(bits),
                },
                BrightnessBackend::Ddc => BrightnessAction::Ddc {
                    display,
                    bits: unit_range(bits),
                    max: if old(self).scales().contains_key(display.0) {
                        old(self).scales()[display.0]
                    } else {
                        DEFAULT_SCALE
                    },
                },
                BrightnessBackend::Software => BrightnessAction::Gamma {
                    display,
                    bits: unit_range(bits),
                },
                BrightnessBackend::Unavailable => BrightnessAction::Nothing,
            }),
    {
        let magnitude: u64 = bits % SIGN_BIT;
        let bits: u64 = if magnitude > INFINITY_BITS {
            bits
        } else if bits > SIGN_BIT {
            0
        } else if bits == SIGN_BIT {
            bits
        } else if bits > ONE_BITS {
            ONE_BITS
        } else {
            bits
        };
        self.brightness.insert(display.0, Level::Value { bits });
        match self.backend(display) {
            BrightnessBackend::Panel => BrightnessAction::Panel { display, bits },
            BrightnessBackend::Ddc => {
                let max: u16 = match self.scales.get(&display.0) {
                    Some(max) => *max,
                    None => DEFAULT_SCALE,
                };
                BrightnessAction::Ddc { display, bits, max }
            },
            BrightnessBackend::Software => BrightnessAction::Gamma { display, bits },
            BrightnessBackend::Unavailable => BrightnessAction::Nothing,
        }
    }

    /// The mode at `index` in the display's selectable list, which is to be
    /// applied; `None` where there is no such mode.
    pub fn set_resolution(&self, display: &Display, index: usize) -> (io_mode_id: Option<i32>)
        ensures
            io_mode_id == (if index < display.selectable().len() {
                Some(display.selectable()[index as int].io_mode_id)
            } else {
                None
            }),
    {
        let modes: Vec<DisplayMode> = display.selectable_modes();
        if index < modes.len() {
            Some(modes[index].io_mode_id)
        } else {
            None
        }
    }

    pub fn strategy(&self) -> (strategy: Strategy)
        ensures
            strategy == self.preferred(),
    {
        self.strategy
    }

    /// Whether a display counts as connected, given what the system says of it.
    pub fn is_connected(&self, registry: &Registry, display: DisplayId, connected: bool) -> (is: bool)
        requires
            registry.wf(),
        ensures
            is == (!registry.records().contains_key(display.0) && connected),
    {
        !registry.is_offline(display) && connected
    }
}

/// What brings a display's panel out of standby or puts it there: the value of
/// the monitor's power control.
pub fn panel_power(on: bool) -> (value: u16)
    ensures
        value == (if on {
            1int
        } else {
            5
        }),
{
    if on {
        1
    } else {
        5
    }
}

// --- connecting and disconnecting -------------------------------------------

/// Where switching a display off or on stands.
#[derive(Copy, Clone, PartialEq, Eq, Debug)]
pub enum Switching {
    /// The hard disconnect was asked for.
    HardOff,
    /// The mirror trick was asked for, with the panel already in standby.
    MirrorOff,
    /// The connect was asked for.
    On { strategy: Strategy },
    /// The connect failed; every display that is known but not online is being
    /// swept.
    Sweeping { error: PowerError },
    Done { result: Result<(), PowerError> },
}

/// What is to be asked of the system on the way.
#[derive(Copy, Clone, PartialEq, Eq, Debug, Structural)]
pub enum SwitchAction {
    Disconnect { strategy: Strategy },
    Connect { strategy: Strategy },
    PanelPower { on: bool },
    /// Keep a record of the display, taken before it went away.
    Record { strategy: Strategy },
    Forget,
    /// The handles for a display that left the layout are stale.
    Rediscover,
    Sweep,
    /// Which backend drives what is to be worked out again.
    MarkStale,
}

#[derive(Copy, Clone, PartialEq, Eq, Debug)]
pub enum SwitchEvent {
    Disconnected { result: Result<(), PowerError> },
    Connected { result: Result<(), PowerError> },
    Swept { restored: usize },
}

/// Whether a refusal is about the request rather than the mechanism; falling
/// back would only refuse again.
pub open spec fn is_final(error: PowerError) -> bool {
    error == PowerError::LastActiveDisplay
}

/// Mirroring on its own would leave a lit screen showing a duplicate desktop,
/// which is not "off", so the panel goes into standby too, and first: mirroring
/// can invalidate the handle it is reached by.
pub open spec fn mirroring() -> Seq<SwitchAction> {
    seq![
        SwitchAction::PanelPower { on: false },
        SwitchAction::Disconnect { strategy: Strategy::Mirror },
    ]
}

/// What follows once a display is back. Leaving the mirror set gives it a fresh
/// handle; the one from before would send the wake to nothing.
pub open spec fn welcoming(strategy: Strategy) -> Seq<SwitchAction> {
    if strategy == Strategy::Mirror {
        seq![
            SwitchAction::Rediscover,
            SwitchAction::PanelPower { on: true },
            SwitchAction::Forget,
        ]
    } else {
        seq![SwitchAction::Forget]
    }
}

/// What follows a switch that the user asked for, once it has ended. The handles
/// for a display that just left the layout are stale, and so is the backend map
/// for one that just came back.
pub open spec fn settling() -> Seq<SwitchAction> {
    seq![SwitchAction::Rediscover, SwitchAction::MarkStale]
}

/// How a display is brought back: the reverse of what took it out. One that this
/// app did not take out and that sits in a mirror set was mirrored by something
/// else; anything else answers to the preferred way.
pub open spec fn way_back(
    recorded: Option<Strategy>,
    mirrored: bool,
    preferred: Strategy,
) -> Strategy {
    match recorded {
        Some(strategy) => strategy,
        None => if mirrored {
            Strategy::Mirror
        } else {
            preferred
        },
    }
}

fn mirror_off() -> (actions: Vec<SwitchAction>)
    ensures
        actions@ == mirroring(),
{
    let mut actions: Vec<SwitchAction> = Vec::new();
    actions.push(SwitchAction::PanelPower { on: false });
    actions.push(SwitchAction::Disconnect { strategy: Strategy::Mirror });
    assert(actions@ =~= mirroring());
    actions
}

fn welcome(strategy: Strategy) -> (actions: Vec<SwitchAction>)
    ensures
        actions@ == welcoming(strategy),
{
    let mut actions: Vec<SwitchAction> = Vec::new();
    if strategy == Strategy::Mirror {
        actions.push(SwitchAction::Rediscover);
        actions.push(SwitchAction::PanelPower { on: true });
    }
    actions.push(SwitchAction::Forget);
    assert(actions@ =~= welcoming(strategy));
    actions
}

fn one(action: SwitchAction) -> (actions: Vec<SwitchAction>)
    ensures
        actions@ == seq![action],
{
    let mut actions: Vec<SwitchAction> = Vec::new();
    actions.push(action);
    assert(actions@ =~= seq![action]);
    actions
}

impl Switching {
    /// Begins to take a display out of the layout and turn its panel off.
    ///
    /// The hard disconnect does both at once. When it is unavailable or the
    /// system refuses it, the mirror trick removes the display from the layout
    /// and standby takes care of the panel.
    pub fn disconnect(preferred: Strategy) -> (begun: (Self, Vec<SwitchAction>))
        ensures
            preferred == Strategy::HardDisconnect ==> begun.0 == Switching::HardOff && begun.1@
                == seq![SwitchAction::Disconnect { strategy: Strategy::HardDisconnect }],
            preferred == Strategy::Mirror ==> begun.0 == Switching::MirrorOff && begun.1@
                == mirroring(),
    {
        if preferred == Strategy::HardDisconnect {
            (
                Switching::HardOff,
                one(SwitchAction::Disconnect { strategy: Strategy::HardDisconnect }),
            )
        } else {
            (Switching::MirrorOff, mirror_off())
        }
    }

    /// Begins to bring a display back, reversing whichever mechanism took it
    /// out.
    ///
    /// Refuses outright when there is nothing on the other end of the cable, or
    /// when it is the built-in panel and the lid is shut: enabling it does not
    /// fail in either case. It fabricates a display, and leaves the port in a
    /// state that survives a real monitor being plugged into it.
    pub fn reconnect(
        snapshot: &DisplaySnapshot,
        recorded: Option<Strategy>,
        mirrored: bool,
        preferred: Strategy,
        lid_closed: Option<bool>,
        attachment: Attachment,
    ) -> (begun: (Self, Vec<SwitchAction>))
        ensures
            ({
                let refusal = if snapshot.is_builtin {
                    if lid_closed == Some(true) {
                        Some(PowerError::LidClosed)
                    } else {
                        None
                    }
                } else if attachment == Attachment::Absent {
                    Some(PowerError::NotAttached)
                } else {
                    None
                };
                match refusal {
                    Some(error) => {
                        &&& begun.0 == (Switching::Done { result: Err(error) })
                        &&& begun.1@ == Seq::<SwitchAction>::empty()
                    },
                    None => {
                        let strategy = way_back(recorded, mirrored, preferred);
                        &&& begun.0 == (Switching::On { strategy })
                        &&& begun.1@ == seq![SwitchAction::Connect { strategy }]
                    },
                }
            }),
    {
        match may_connect(snapshot, lid_closed, attachment) {
            Err(error) => (Switching::Done { result: Err(error) }, Vec::new()),
            Ok(()) => {
                let strategy: Strategy = match recorded {
                    Some(strategy) => strategy,
                    None => {
                        if mirrored {
                            Strategy::Mirror
                        } else {
                            preferred
                        }
                    },
                };
                (Switching::On { strategy }, one(SwitchAction::Connect { strategy }))
            },
        }
    }

    pub open spec fn awaits(self, event: SwitchEvent) -> bool {
        match self {
            Switching::HardOff => event is Disconnected,
            Switching::MirrorOff => event is Disconnected,
            Switching::On { .. } => event is Connected,
            Switching::Sweeping { .. } => event is Swept,
            Switching::Done { .. } => false,
        }
    }

    pub open spec fn after(self, event: SwitchEvent) -> (Switching, Seq<SwitchAction>) {
        match (self, event) {
            (Switching::HardOff, SwitchEvent::Disconnected { result }) => match result {
                Ok(_) => (
                    Switching::Done { result: Ok(()) },
                    seq![SwitchAction::Record { strategy: Strategy::HardDisconnect }],
                ),
                Err(error) => if is_final(error) {
                    (Switching::Done { result: Err(error) }, Seq::empty())
                } else {
                    (Switching::MirrorOff, mirroring())
                },
            },
            (Switching::MirrorOff, SwitchEvent::Disconnected { result }) => match result {
                Ok(_) => (
                    Switching::Done { result: Ok(()) },
                    seq![SwitchAction::Record { strategy: Strategy::Mirror }],
                ),
                Err(error) => (
                    Switching::Done { result: Err(error) },
                    seq![SwitchAction::PanelPower { on: true }],
                ),
            },
            (Switching::On { strategy }, SwitchEvent::Connected { result }) => match result {
                Ok(_) => (Switching::Done { result: Ok(()) }, welcoming(strategy)),
                // A record written in an earlier session carries that session's
                // id. Rather than guess which display the stale id meant, every
                // display that is known but not online is swept.
                Err(error) => if strategy == Strategy::HardDisconnect {
                    (Switching::Sweeping { error }, seq![SwitchAction::Sweep])
                } else {
                    (Switching::Done { result: Err(error) }, Seq::empty())
                },
            },
            (Switching::Sweeping { error }, SwitchEvent::Swept { restored }) => if restored == 0 {
                (Switching::Done { result: Err(error) }, Seq::empty())
            } else {
                (Switching::Done { result: Ok(()) }, welcoming(Strategy::HardDisconnect))
            },
            _ => (self, Seq::empty()),
        }
    }

    /// Takes the system's answer, and says what is to be asked of it next.
    pub fn step(self, event: SwitchEvent) -> (next: (Self, Vec<SwitchAction>))
        requires
            self.awaits(event),
        ensures
            next.0 == self.after(event).0,
            next.1@ == self.after(event).1,
    {
        match (self, event) {
            (Switching::HardOff, SwitchEvent::Disconnected { result }) => match result {
                Ok(()) => (
                    Switching::Done { result: Ok(()) },
                    one(SwitchAction::Record { strategy: Strategy::HardDisconnect }),
                ),
                Err(error) => {
                    if error == PowerError::LastActiveDisplay {
                        (Switching::Done { result: Err(error) }, Vec::new())
                    } else {
                        (Switching::MirrorOff, mirror_off())
                    }
                },
            },
            (Switching::MirrorOff, SwitchEvent::Disconnected { result }) => match result {
                Ok(()) => (
                    Switching::Done { result: Ok(()) },
                    one(SwitchAction::Record { strategy: Strategy::Mirror }),
                ),
                // A dark panel with the desktop still on it is the worse
                // half-state to be stuck in.
                Err(error) => (
                    Switching::Done { result: Err(error) },
                    one(SwitchAction::PanelPower { on: true }),
                ),
            },
            (Switching::On { strategy }, SwitchEvent::Connected { result }) => match result {
                Ok(()) => (Switching::Done { result: Ok(()) }, welcome(strategy)),
                Err(error) => {
                    if strategy == Strategy::HardDisconnect {
                        (Switching::Sweeping { error }, one(SwitchAction::Sweep))
                    } else {
                        (Switching::Done { result: Err(error) }, Vec::new())
                    }
                },
            },
            (Switching::Sweeping { error }, SwitchEvent::Swept { restored }) => {
                if restored == 0 {
                    (Switching::Done { result: Err(error) }, Vec::new())
                } else {
                    (Switching::Done { result: Ok(()) }, welcome(Strategy::HardDisconnect))
                }
            },
            (state, _) => (state, Vec::new()),
        }
    }
}

impl Switching {
    /// What follows once the switch has ended, on success and failure alike: a
    /// switch that failed may have moved the display all the same.
    pub fn settle(self) -> (actions: Vec<SwitchAction>)
        ensures
            actions@ == (if self is Done {
                settling()
            } else {
                Seq::empty()
            }),
    {
        let mut actions: Vec<SwitchAction> = Vec::new();
        match self {
            Switching::Done { .. } => {
                actions.push(SwitchAction::Rediscover);
                actions.push(SwitchAction::MarkStale);
                assert(actions@ =~= settling());
            },
            _ => {},
        }
        actions
    }
}

/// A display that could not be switched off is left as it was: the panel that
/// was put in standby is woken again, and no record is kept.
pub proof fn law_a_failed_mirror_wakes_the_panel(error: PowerError)
    ensures
        Switching::MirrorOff.after(SwitchEvent::Disconnected { result: Err(error) }) == (
            Switching::Done { result: Err(error) },
            seq![SwitchAction::PanelPower { on: true }],
        ),
{
}

/// Refusing to switch off the last display is not worked around.
pub proof fn law_the_last_display_is_never_mirrored_away(event: SwitchEvent)
    requires
        event == (SwitchEvent::Disconnected { result: Err(PowerError::LastActiveDisplay) }),
    ensures
        Switching::HardOff.after(event) == (
            Switching::Done { result: Err(PowerError::LastActiveDisplay) },
            Seq::<SwitchAction>::empty(),
        ),
{
}

/// A display is brought back by reversing what took it out: switching it off
/// keeps a record of the mechanism that worked, and the way back from that
/// record is the same mechanism, whatever is preferred by then.
pub proof fn law_a_display_comes_back_the_way_it_went(
    state: Switching,
    mirrored: bool,
    preferred: Strategy,
)
    requires
        state is HardOff || state is MirrorOff,
    ensures
        ({
            let strategy = if state is HardOff {
                Strategy::HardDisconnect
            } else {
                Strategy::Mirror
            };
            &&& state.after(SwitchEvent::Disconnected { result: Ok(()) }) == (
                Switching::Done { result: Ok(()) },
                seq![SwitchAction::Record { strategy }],
            )
            &&& way_back(Some(strategy), mirrored, preferred) == strategy
        }),
{
}

impl Switching {
    /// How many answers can still be awaited.
    pub open spec fn answers_left(self) -> int {
        match self {
            Switching::HardOff => 2,
            Switching::MirrorOff => 1,
            Switching::On { .. } => 2,
            Switching::Sweeping { .. } => 1,
            Switching::Done { .. } => 0,
        }
    }
}

/// Every answer brings a switch nearer its end, so it ends after two of them at
/// the most.
pub proof fn law_a_switch_ends(state: Switching, event: SwitchEvent)
    requires
        state.awaits(event),
    ensures
        0 <= state.after(event).0.answers_left() < state.answers_left() <= 2,
        state.after(event).0.answers_left() == 0 <==> state.after(event).0 is Done,
{
}

/// The record of a display follows what became of it: a record is kept only
/// where switching it off succeeded, it is dropped only where bringing it back
/// did, and where either failed it stays as it was.
pub proof fn law_the_record_follows_the_outcome(state: Switching, event: SwitchEvent)
    requires
        state.awaits(event),
    ensures
        ({
            let (next, actions) = state.after(event);
            let off = state is HardOff || state is MirrorOff;
            let done = next == (Switching::Done { result: Ok(()) });
            &&& done && off ==> actions.last() is Record
            &&& done && !off ==> actions.last() == SwitchAction::Forget
            &&& !done ==> forall|i: int|
                0 <= i < actions.len() ==> !((#[trigger] actions[i]) is Record) && actions[i]
                    != SwitchAction::Forget
        }),
{
}

// --- everything at once -----------------------------------------------------

/// Whether a display is to be brought out of a mirror set when everything is
/// reconnected: only one that this app put there. One the user arranged
/// themselves is not something to undo behind their back.
pub fn is_own_mirror(registry: &Registry, snapshot: &DisplaySnapshot) -> (own: bool)
    requires
        registry.wf(),
    ensures
        own == (snapshot.mirrors is Some && registry.records().contains_key(snapshot.id.0)),
{
    snapshot.mirrors.is_some() && registry.is_offline(snapshot.id)
}

/// The records that are left once those of some displays are dropped.
pub open spec fn without(
    records: Map<u32, crate::offline::Offline>,
    displays: Seq<DisplayId>,
) -> Map<u32, crate::offline::Offline>
    decreases displays.len(),
{
    if displays.len() == 0 {
        records
    } else {
        without(records, displays.drop_last()).remove(displays.last().0)
    }
}

/// Drops the records of displays that are in the layout under their own power:
/// they are not switched off, whatever a record left over from an earlier
/// session still claims.
///
/// Returns whether there was a record to drop.
pub fn forget_connected(registry: &mut Registry, connected: &[DisplayId]) -> (dropped: bool)
    requires
        old(registry).wf(),
    ensures
        final(registry).wf(),
        final(registry).records() == without(old(registry).records(), connected@),
        dropped == exists|i: int|
            0 <= i < connected@.len() && old(registry).records().contains_key(
                (#[trigger] connected@[i]).0,
            ),
{
    let mut dropped: bool = false;
    let mut i: usize = 0;
    while i < connected.len()
        invariant
            i <= connected@.len(),
            registry.wf(),
            registry.records() == without(old(registry).records(), connected@.take(i as int)),
            dropped == exists|j: int|
                0 <= j < i && old(registry).records().contains_key((#[trigger] connected@[j]).0),
        decreases connected@.len() - i,
    {
        proof {
            lemma_without(
                old(registry).records(),
                connected@.take(i as int),
                connected@[i as int].0,
            );
        }
        if registry.forget(connected[i]) {
            dropped = true;
        }
        assert(connected@.take(i + 1).drop_last() == connected@.take(i as int));
        i += 1;
    }
    assert(connected@.take(i as int) == connected@);
    dropped
}

/// A record is left exactly where its display is not among those dropped.
proof fn lemma_without(
    records: Map<u32, crate::offline::Offline>,
    displays: Seq<DisplayId>,
    id: u32,
)
    ensures
        without(records, displays).contains_key(id) == (records.contains_key(id) && forall|i: int|
            0 <= i < displays.len() ==> (#[trigger] displays[i]).0 != id),
    decreases displays.len(),
{
    if displays.len() > 0 {
        lemma_without(records, displays.drop_last(), id);
        assert forall|i: int| 0 <= i < displays.len() - 1 implies displays.drop_last()[i]
            == #[trigger] displays[i] by {}
        if forall|i: int| 0 <= i < displays.len() - 1 ==> (#[trigger] displays.drop_last()[i]).0
            != id {
            assert(forall|i: int|
                0 <= i < displays.len() && displays.last().0 != id ==> (#[trigger] displays[i]).0
                    != id);
        }
    }
}

/// How many displays a reconnect brought back.
pub fn reconnected(before: usize, after: usize) -> (count: usize)
    ensures
        count == (if after < before {
            0
        } else {
            after - before
        }),
{
    if after < before {
        0
    } else {
        after - before
    }
}

/// Where bringing everything back stands. `before` is how many displays were
/// online when it began.
#[derive(Debug)]
pub enum Reconnecting {
    /// Every display that is known but not online is being swept.
    Sweeping { before: usize },
    /// The display at `at` is being looked at.
    Looking { before: usize, online: Vec<DisplayId>, at: usize },
    /// The display at `at` is being brought out of its mirror set.
    Returning { before: usize, online: Vec<DisplayId>, at: usize },
    /// The records that are not true any more are being dropped.
    Forgetting { before: usize },
    Done { count: usize },
}

/// What is to be asked of the system on the way.
#[derive(Copy, Clone, PartialEq, Eq, Debug, Structural)]
pub enum ReconnectAction {
    Sweep,
    /// Say whether a display is an own mirror; see [`is_own_mirror`].
    Look { id: DisplayId },
    /// Bring a display back; see [`Switching::reconnect`].
    Reconnect { id: DisplayId },
    /// Drop the records of what is connected now; see [`forget_connected`].
    ForgetConnected,
    Rediscover,
    MarkStale,
    /// Count the displays that are online now.
    Count,
}

#[derive(Debug)]
pub enum ReconnectEvent {
    /// The sweep is over, and these displays are online.
    Swept { online: Vec<DisplayId> },
    Seen { own: bool },
    /// The display came back, or did not: either way the next one has its turn.
    Returned,
    Counted { after: usize },
}

/// What the end of bringing everything back does. The records go once the
/// displays had their chance to come back: what is in the layout by then is not
/// switched off, whatever a record still claims.
pub open spec fn closing() -> Seq<ReconnectAction> {
    seq![
        ReconnectAction::ForgetConnected,
        ReconnectAction::Rediscover,
        ReconnectAction::MarkStale,
        ReconnectAction::Count,
    ]
}

fn close() -> (actions: Vec<ReconnectAction>)
    ensures
        actions@ == closing(),
{
    let mut actions: Vec<ReconnectAction> = Vec::new();
    actions.push(ReconnectAction::ForgetConnected);
    actions.push(ReconnectAction::Rediscover);
    actions.push(ReconnectAction::MarkStale);
    actions.push(ReconnectAction::Count);
    assert(actions@ =~= closing());
    actions
}

fn only(action: ReconnectAction) -> (actions: Vec<ReconnectAction>)
    ensures
        actions@ == seq![action],
{
    let mut actions: Vec<ReconnectAction> = Vec::new();
    actions.push(action);
    assert(actions@ =~= seq![action]);
    actions
}

impl Reconnecting {
    /// Begins to undo every disconnect that this app is holding, whichever
    /// session made it. The sweep comes first: it needs no record, whose id may
    /// be that of an earlier session.
    pub fn begin(before: usize) -> (begun: (Self, Vec<ReconnectAction>))
        ensures
            begun.0 == (Reconnecting::Sweeping { before }),
            begun.1@ == seq![ReconnectAction::Sweep],
    {
        (Reconnecting::Sweeping { before }, only(ReconnectAction::Sweep))
    }

    pub open spec fn awaits(self, event: ReconnectEvent) -> bool {
        match self {
            Reconnecting::Sweeping { .. } => event is Swept,
            Reconnecting::Looking { .. } => event is Seen,
            Reconnecting::Returning { .. } => event is Returned,
            Reconnecting::Forgetting { .. } => event is Counted,
            Reconnecting::Done { .. } => false,
        }
    }

    /// The display that is being dealt with is one of those online.
    pub open spec fn wf(self) -> bool {
        match self {
            Reconnecting::Looking { online, at, .. } => at < online.len(),
            Reconnecting::Returning { online, at, .. } => at < online.len(),
            _ => true,
        }
    }

    /// On to the display at `at`, or to the end where there is none.
    pub open spec fn turning(before: usize, online: Vec<DisplayId>, at: int) -> (
        Reconnecting,
        Seq<ReconnectAction>,
    ) {
        if at < online.len() {
            (
                Reconnecting::Looking { before, online, at: at as usize },
                seq![ReconnectAction::Look { id: online@[at] }],
            )
        } else {
            (Reconnecting::Forgetting { before }, closing())
        }
    }

    pub open spec fn after(self, event: ReconnectEvent) -> (Reconnecting, Seq<ReconnectAction>) {
        match (self, event) {
            (Reconnecting::Sweeping { before }, ReconnectEvent::Swept { online }) => {
                Self::turning(before, online, 0)
            },
            (Reconnecting::Looking { before, online, at }, ReconnectEvent::Seen { own }) => if own {
                (
                    Reconnecting::Returning { before, online, at },
                    seq![ReconnectAction::Reconnect { id: online@[at as int] }],
                )
            } else {
                Self::turning(before, online, at + 1)
            },
            (Reconnecting::Returning { before, online, at }, ReconnectEvent::Returned) => {
                Self::turning(before, online, at + 1)
            },
            (Reconnecting::Forgetting { before }, ReconnectEvent::Counted { after }) => (
                Reconnecting::Done {
                    count: if after < before {
                        0
                    } else {
                        (after - before) as usize
                    },
                },
                Seq::empty(),
            ),
            _ => (self, Seq::empty()),
        }
    }

    fn turn(before: usize, online: Vec<DisplayId>, at: usize) -> (next: (
        Self,
        Vec<ReconnectAction>,
    ))
        ensures
            next.0 == Self::turning(before, online, at as int).0,
            next.1@ == Self::turning(before, online, at as int).1,
            next.0.wf(),
    {
        if at < online.len() {
            let id: DisplayId = online[at];
            (Reconnecting::Looking { before, online, at }, only(ReconnectAction::Look { id }))
        } else {
            (Reconnecting::Forgetting { before }, close())
        }
    }

    /// Takes the system's answer, and says what is to be asked of it next.
    pub fn step(self, event: ReconnectEvent) -> (next: (Self, Vec<ReconnectAction>))
        requires
            self.wf(),
            self.awaits(event),
        ensures
            next.0.wf(),
            next.0 == self.after(event).0,
            next.1@ == self.after(event).1,
    {
        match (self, event) {
            (Reconnecting::Sweeping { before }, ReconnectEvent::Swept { online }) => {
                Self::turn(before, online, 0)
            },
            (Reconnecting::Looking { before, online, at }, ReconnectEvent::Seen { own }) => {
                if own {
                    let id: DisplayId = online[at];
                    (
                        Reconnecting::Returning { before, online, at },
                        only(ReconnectAction::Reconnect { id }),
                    )
                } else {
                    Self::turn(before, online, at + 1)
                }
            },
            (Reconnecting::Returning { before, online, at }, ReconnectEvent::Returned) => {
                Self::turn(before, online, at + 1)
            },
            (Reconnecting::Forgetting { before }, ReconnectEvent::Counted { after }) => {
                (Reconnecting::Done { count: reconnected(before, after) }, Vec::new())
            },
            (state, _) => (state, Vec::new()),
        }
    }

    /// How many answers can still be awaited once the sweep is over.
    pub open spec fn answers_left(self) -> int {
        match self {
            Reconnecting::Sweeping { .. } => 0,
            Reconnecting::Looking { online, at, .. } => 2 * (online@.len() - at) + 1,
            Reconnecting::Returning { online, at, .. } => 2 * (online@.len() - at),
            Reconnecting::Forgetting { .. } => 1,
            Reconnecting::Done { .. } => 0,
        }
    }
}

/// Bringing everything back ends, two answers for each display and one more
/// after the sweep at the most.
pub proof fn law_bringing_everything_back_ends(state: Reconnecting, event: ReconnectEvent)
    requires
        state.wf(),
        state.awaits(event),
    ensures
        state.after(event).0.wf(),
        !(state.after(event).0 is Sweeping),
        state is Sweeping ==> state.after(event).0.answers_left() <= 2 * event->online@.len() + 1,
        !(state is Sweeping) ==> 0 <= state.after(event).0.answers_left() < state.answers_left(),
        state.after(event).0.answers_left() == 0 <==> state.after(event).0 is Done,
{
}

/// Only an own mirror is brought out of its set: a display is reconnected
/// exactly where it was just found to be one.
pub proof fn law_only_own_mirrors_are_undone(
    state: Reconnecting,
    event: ReconnectEvent,
    id: DisplayId,
)
    requires
        state.wf(),
        state.awaits(event),
    ensures
        state.after(event).1.contains(ReconnectAction::Reconnect { id }) <==> (
        state matches Reconnecting::Looking { online, at, .. } && event == (ReconnectEvent::Seen {
            own: true,
        }) && online@[at as int] == id),
{
    let actions = state.after(event).1;
    let asked = ReconnectAction::Reconnect { id };
    if actions.contains(asked) {
        assert(actions[actions.index_of(asked)] == asked);
    }
    match (state, event) {
        (Reconnecting::Looking { online, at, .. }, ReconnectEvent::Seen { own: true }) => {
            assert(actions[0] == (ReconnectAction::Reconnect { id: online@[at as int] }));
        },
        _ => {},
    }
}

/// Records are dropped last: only once the sweep is over and every display that
/// was online after it had its turn, in order.
pub proof fn law_records_are_dropped_last(state: Reconnecting, event: ReconnectEvent)
    requires
        state.wf(),
        state.awaits(event),
    ensures
        state.after(event).1.contains(ReconnectAction::ForgetConnected) <==> state.after(
            event,
        ).0 is Forgetting,
        state.after(event).0 is Forgetting ==> match state {
            Reconnecting::Sweeping { .. } => event->online@.len() == 0,
            Reconnecting::Looking { online, at, .. } => at + 1 == online@.len(),
            Reconnecting::Returning { online, at, .. } => at + 1 == online@.len(),
            _ => false,
        },
        state.after(event).0 matches Reconnecting::Looking { online, at, .. } ==> match state {
            Reconnecting::Sweeping { .. } => at == 0 && online == event->online,
            Reconnecting::Looking { online: was, at: last, .. } => online == was && at == last + 1,
            Reconnecting::Returning { online: was, at: last, .. } => online == was && at == last
                + 1,
            _ => false,
        },
{
    let actions = state.after(event).1;
    let asked = ReconnectAction::ForgetConnected;
    if actions.contains(asked) {
        assert(actions[actions.index_of(asked)] == asked);
    }
    if state.after(event).0 is Forgetting {
        assert(actions[0] == asked);
    }
}

// --- what drives a display --------------------------------------------------

/// The built-in panel is driven by its own frameworks where they answer; anything
/// else by the monitor bus where it is linked and answers, then by gamma, then by
/// nothing. The panel frameworks are never believed of an external display.
pub proof fn law_each_display_is_driven_by_what_works(
    is_builtin: bool,
    panel: bool,
    linked: bool,
    first: Probe,
    answers: bool,
    asked: Probe,
    works: bool,
    last: Probe,
)
    requires
        call_ensures(Probe::start, (is_builtin, panel, linked), first),
        call_ensures(Probe::ddc_answered, (answers,), asked),
        call_ensures(Probe::gamma_answered, (works,), last),
    ensures
        first == Probe::Settled(BrightnessBackend::Panel) <==> is_builtin && panel,
        first == Probe::AskDdc <==> !(is_builtin && panel) && linked,
        first == Probe::AskGamma <==> !(is_builtin && panel) && !linked,
        answers ==> asked == Probe::Settled(BrightnessBackend::Ddc),
        !answers ==> asked == Probe::AskGamma,
        works ==> last == Probe::Settled(BrightnessBackend::Software),
        !works ==> last == Probe::Settled(BrightnessBackend::Unavailable),
{
}

/// What was found to drive a display drives it, and its level is known at once
/// where it could be read; only a monitor on the bus is asked for it. The levels
/// and backends of other displays stay.
pub proof fn law_a_probed_display_is_driven_by_what_was_found(
    service: &mut Service,
    display: DisplayId,
    backend: BrightnessBackend,
    bits: Option<u64>,
    ask: bool,
    other: DisplayId,
    before: BrightnessBackend,
    after: BrightnessBackend,
    level: Option<Level>,
)
    requires
        call_ensures(Service::probed, (service, display, backend, bits), ask),
        call_ensures(Service::backend, (&*old(service), other), before),
        call_ensures(Service::backend, (&*final(service), other), after),
        call_ensures(Service::brightness, (&*final(service), display), level),
    ensures
        ask <==> backend == BrightnessBackend::Ddc,
        other == display ==> after == backend,
        other != display ==> after == before,
        bits is Some && (backend == BrightnessBackend::Panel || backend
            == BrightnessBackend::Software) ==> level == Some(Level::Value { bits: bits->0 }),
        backend == BrightnessBackend::Unavailable ==> level is None,
        other != display && old(service).levels().contains_key(other.0)
            ==> final(service).levels().contains_key(other.0)
            && final(service).levels()[other.0] == old(service).levels()[other.0],
{
}

/// A probe starts from nothing but keeps the levels; it is due once the layout
/// changed, and once only.
pub proof fn law_a_probe_is_due_once_the_layout_changed(
    service: &mut Service,
    then: &mut Service,
    due: bool,
    again: &mut Service,
    still: bool,
    last: &mut Service,
    display: DisplayId,
    backend: BrightnessBackend,
)
    requires
        call_ensures(Service::layout_changed, (service,), ()),
        *old(then) == *final(service),
        call_ensures(Service::refresh_if_stale, (then,), due),
        *old(again) == *final(then),
        call_ensures(Service::refresh_if_stale, (again,), still),
        *old(last) == *final(again),
        call_ensures(Service::begin_probe, (last,), ()),
        call_ensures(Service::backend, (&*final(last), display), backend),
    ensures
        due,
        !still,
        backend == BrightnessBackend::Unavailable,
        final(last).levels() == old(service).levels(),
        final(last).scales() == old(service).scales(),
        final(last).preferred() == old(service).preferred(),
{
}

/// The brightness that is set is the one that is shown, brought between nothing
/// and full, and it is sent to what drives the display and to nothing else. A
/// monitor on the bus is told on the scale it answered with, or on a hundred
/// where it did not.
pub proof fn law_the_brightness_that_is_set_is_shown_and_sent(
    service: &mut Service,
    display: DisplayId,
    bits: u64,
    action: BrightnessAction,
    backend: BrightnessBackend,
    shown: Option<Level>,
    other: DisplayId,
    before: Option<Level>,
    after: Option<Level>,
)
    requires
        call_ensures(Service::set_brightness, (service, display, bits), action),
        call_ensures(Service::backend, (&*old(service), display), backend),
        call_ensures(Service::brightness, (&*final(service), display), shown),
        other != display,
        call_ensures(Service::brightness, (&*old(service), other), before),
        call_ensures(Service::brightness, (&*final(service), other), after),
    ensures
        ({
            let value = if bits <= 0x3FF0_0000_0000_0000 || bits == 0x8000_0000_0000_0000 {
                bits
            } else if bits <= 0x7FF0_0000_0000_0000 {
                0x3FF0_0000_0000_0000u64
            } else if 0x8000_0000_0000_0000 < bits <= 0xFFF0_0000_0000_0000 {
                0
            } else {
                bits
            };
            &&& backend == BrightnessBackend::Panel ==> action == (BrightnessAction::Panel {
                display,
                bits: value,
            })
            &&& backend == BrightnessBackend::Software ==> action == (BrightnessAction::Gamma {
                display,
                bits: value,
            })
            &&& backend == BrightnessBackend::Ddc ==> action == (BrightnessAction::Ddc {
                display,
                bits: value,
                max: if old(service).scales().contains_key(display.0) {
                    old(service).scales()[display.0]
                } else {
                    100
                },
            })
            &&& backend == BrightnessBackend::Unavailable ==> action == BrightnessAction::Nothing
                && shown is None
            &&& backend != BrightnessBackend::Unavailable ==> shown == Some(
                Level::Value { bits: value },
            )
        }),
        after == before,
{
}

/// What a monitor answered is its level, and the scale of what is sent to it from
/// then on; an answer without a scale says nothing.
pub proof fn law_a_monitor_sets_its_own_scale(
    service: &mut Service,
    display: DisplayId,
    current: u16,
    max: u16,
    backend: BrightnessBackend,
    shown: Option<Level>,
    then: &mut Service,
    bits: u64,
    action: BrightnessAction,
)
    requires
        call_ensures(Service::monitor_answered, (service, display, current, max), ()),
        call_ensures(Service::backend, (&*old(service), display), backend),
        backend == BrightnessBackend::Ddc,
        call_ensures(Service::brightness, (&*final(service), display), shown),
        *old(then) == *final(service),
        call_ensures(Service::set_brightness, (then, display, bits), action),
    ensures
        max > 0 ==> shown == Some(Level::Ratio { current, max }),
        max > 0 ==> (action matches BrightnessAction::Ddc { display: to, max: scale, .. } && to
            == display && scale == max),
        max == 0 ==> *final(service) == *old(service),
{
}

/// The stop that is chosen on the slider is the mode that is set.
pub proof fn law_the_chosen_stop_is_the_mode_that_is_set(
    service: Service,
    display: Display,
    modes: Vec<DisplayMode>,
    index: usize,
    set: Option<i32>,
)
    requires
        call_ensures(Display::selectable_modes, (&display,), modes),
        call_ensures(Service::set_resolution, (&service, &display, index), set),
    ensures
        index < modes@.len() ==> set == Some(modes@[index as int].io_mode_id),
        index >= modes@.len() ==> set is None,
{
}

/// A display is connected while the system says so and this app has not switched
/// it off.
pub proof fn law_what_is_switched_off_is_not_connected(
    service: Service,
    registry: Registry,
    display: DisplayId,
    connected: bool,
    off: bool,
    is: bool,
)
    requires
        registry.wf(),
        call_ensures(Registry::is_offline, (&registry, display), off),
        call_ensures(Service::is_connected, (&service, &registry, display, connected), is),
    ensures
        is <==> connected && !off,
{
}

/// A monitor is woken by writing one to its power control, and put in standby by
/// writing five. The hard disconnect is preferred wherever it can be had.
pub proof fn law_how_a_panel_is_switched(
    on: bool,
    value: u16,
    available: bool,
    service: Service,
    strategy: Strategy,
)
    requires
        call_ensures(panel_power, (on,), value),
        call_ensures(Service::start, (available,), service),
        call_ensures(Service::strategy, (&service,), strategy),
    ensures
        on ==> value == 1,
        !on ==> value == 5,
        strategy == Strategy::HardDisconnect <==> available,
{
}

// --- what a switch does -----------------------------------------------------

/// Switching off begins with the preferred way: the hard disconnect alone, or
/// standby and then the mirror trick.
pub proof fn law_switching_off_begins_the_preferred_way(
    preferred: Strategy,
    begun: (Switching, Vec<SwitchAction>),
)
    requires
        call_ensures(Switching::disconnect, (preferred,), begun),
    ensures
        preferred == Strategy::HardDisconnect ==> begun.0 == Switching::HardOff && begun.1@
            == seq![SwitchAction::Disconnect { strategy: Strategy::HardDisconnect }],
        preferred == Strategy::Mirror ==> begun.0 == Switching::MirrorOff && begun.1@ == seq![
            SwitchAction::PanelPower { on: false },
            SwitchAction::Disconnect { strategy: Strategy::Mirror },
        ],
{
}

/// A switch off that works keeps a record of how, and of nothing else; a refused
/// hard disconnect falls back to standby and the mirror trick, unless it was
/// refused because no other display would be left; a refused mirror wakes the
/// panel again.
pub proof fn law_switching_off_falls_back_and_undoes(
    state: Switching,
    result: Result<(), PowerError>,
    next: (Switching, Vec<SwitchAction>),
)
    requires
        state is HardOff || state is MirrorOff,
        call_ensures(Switching::step, (state, SwitchEvent::Disconnected { result }), next),
    ensures
        result is Ok ==> next.0 == (Switching::Done { result: Ok(()) }),
        result is Ok && state is HardOff ==> next.1@ == seq![
            SwitchAction::Record { strategy: Strategy::HardDisconnect },
        ],
        result is Ok && state is MirrorOff ==> next.1@ == seq![
            SwitchAction::Record { strategy: Strategy::Mirror },
        ],
        result matches Err(error) ==> {
            &&& state is HardOff && error == PowerError::LastActiveDisplay ==> next.0 == (
            Switching::Done { result: Err(error) }) && next.1@.len() == 0
            &&& state is HardOff && error != PowerError::LastActiveDisplay ==> next.0
                == Switching::MirrorOff && next.1@ == seq![
                SwitchAction::PanelPower { on: false },
                SwitchAction::Disconnect { strategy: Strategy::Mirror },
            ]
            &&& state is MirrorOff ==> next.0 == (Switching::Done { result: Err(error) })
                && next.1@ == seq![SwitchAction::PanelPower { on: true }]
        },
{
}

/// Bringing a display back is refused where its panel is known to be gone, and
/// where it is the built-in one under a shut lid; otherwise it reverses what took
/// the display out, or leaves the mirror set it is in, or goes the preferred way.
pub proof fn law_bringing_back_reverses_what_took_it_out(
    snapshot: DisplaySnapshot,
    recorded: Option<Strategy>,
    mirrored: bool,
    preferred: Strategy,
    lid_closed: Option<bool>,
    attachment: Attachment,
    begun: (Switching, Vec<SwitchAction>),
)
    requires
        call_ensures(
            Switching::reconnect,
            (&snapshot, recorded, mirrored, preferred, lid_closed, attachment),
            begun,
        ),
    ensures
        snapshot.is_builtin && lid_closed == Some(true) ==> begun.0 == (Switching::Done {
            result: Err(PowerError::LidClosed),
        }) && begun.1@.len() == 0,
        !snapshot.is_builtin && attachment == Attachment::Absent ==> begun.0 == (Switching::Done {
            result: Err(PowerError::NotAttached),
        }) && begun.1@.len() == 0,
        !(snapshot.is_builtin && lid_closed == Some(true)) && !(!snapshot.is_builtin && attachment
            == Attachment::Absent) ==> {
            let strategy = if recorded is Some {
                recorded->0
            } else if mirrored {
                Strategy::Mirror
            } else {
                preferred
            };
            begun.0 == (Switching::On { strategy }) && begun.1@ == seq![
                SwitchAction::Connect { strategy },
            ]
        },
{
}

/// A display that came back is forgotten, and woken first where it was in a
/// mirror set, over a handle found afresh. One that did not come back from a hard
/// disconnect is swept for; nothing is forgotten where that brings nothing back.
pub proof fn law_what_came_back_is_woken_and_forgotten(
    state: Switching,
    event: SwitchEvent,
    next: (Switching, Vec<SwitchAction>),
)
    requires
        state.awaits(event),
        call_ensures(Switching::step, (state, event), next),
    ensures
        state == (Switching::On { strategy: Strategy::HardDisconnect }) && event == (
        SwitchEvent::Connected { result: Ok(()) }) ==> next.0 == (Switching::Done {
            result: Ok(()),
        }) && next.1@ == seq![SwitchAction::Forget],
        state == (Switching::On { strategy: Strategy::Mirror }) && event == (
        SwitchEvent::Connected { result: Ok(()) }) ==> next.0 == (Switching::Done {
            result: Ok(()),
        }) && next.1@ == seq![
            SwitchAction::Rediscover,
            SwitchAction::PanelPower { on: true },
            SwitchAction::Forget,
        ],
        event matches SwitchEvent::Connected { result: Err(error) } ==> {
            &&& state == (Switching::On { strategy: Strategy::HardDisconnect }) ==> next.0 == (
            Switching::Sweeping { error }) && next.1@ == seq![SwitchAction::Sweep]
            &&& state == (Switching::On { strategy: Strategy::Mirror }) ==> next.0 == (
            Switching::Done { result: Err(error) }) && next.1@.len() == 0
        },
        state matches Switching::Sweeping { error } ==> {
            &&& event == (SwitchEvent::Swept { restored: 0 }) ==> next.0 == (Switching::Done {
                result: Err(error),
            }) && next.1@.len() == 0
            &&& event->restored > 0 ==> next.0 == (Switching::Done { result: Ok(()) }) && next.1@
                == seq![SwitchAction::Forget]
        },
{
}

/// Whatever a switch came to, the bus is looked over afresh and the backends are
/// worked out again.
pub proof fn law_every_switch_that_ended_settles(state: Switching, actions: Vec<SwitchAction>)
    requires
        call_ensures(Switching::settle, (state,), actions),
    ensures
        state is Done ==> actions@ == seq![SwitchAction::Rediscover, SwitchAction::MarkStale],
        !(state is Done) ==> actions@.len() == 0,
{
}

/// Bringing everything back sweeps first, looks at every display that is online
/// after that, in order, reconnects those that were found to be own mirrors, and
/// drops records only then; what it counts is how many more displays there are.
pub proof fn law_everything_is_brought_back_in_order(
    before: usize,
    begun: (Reconnecting, Vec<ReconnectAction>),
    online: Vec<DisplayId>,
    swept: (Reconnecting, Vec<ReconnectAction>),
    at: usize,
    looking: Reconnecting,
    own: bool,
    seen: (Reconnecting, Vec<ReconnectAction>),
    returning: Reconnecting,
    returned: (Reconnecting, Vec<ReconnectAction>),
    after: usize,
    counted: (Reconnecting, Vec<ReconnectAction>),
)
    requires
        call_ensures(Reconnecting::begin, (before,), begun),
        call_ensures(
            Reconnecting::step,
            (begun.0, ReconnectEvent::Swept { online }),
            swept,
        ),
        at < online.len(),
        looking == (Reconnecting::Looking { before, online, at }),
        call_ensures(Reconnecting::step, (looking, ReconnectEvent::Seen { own }), seen),
        returning == (Reconnecting::Returning { before, online, at }),
        call_ensures(Reconnecting::step, (returning, ReconnectEvent::Returned), returned),
        call_ensures(
            Reconnecting::step,
            (Reconnecting::Forgetting { before }, ReconnectEvent::Counted { after }),
            counted,
        ),
    ensures
        begun.1@ == seq![ReconnectAction::Sweep],
        swept.0 == (Reconnecting::Looking { before, online, at: 0 }),
        swept.1@ == seq![ReconnectAction::Look { id: online@[0] }],
        own ==> seen.0 == returning && seen.1@ == seq![
            ReconnectAction::Reconnect { id: online@[at as int] },
        ],
        !own ==> seen.0 == returned.0 && seen.1@ == returned.1@,
        at + 1 < online@.len() ==> returned.0 == (Reconnecting::Looking {
            before,
            online,
            at: (at + 1) as usize,
        }) && returned.1@ == seq![ReconnectAction::Look { id: online@[at + 1] }],
        at + 1 == online@.len() ==> returned.0 == (Reconnecting::Forgetting { before })
            && returned.1@ == seq![
            ReconnectAction::ForgetConnected,
            ReconnectAction::Rediscover,
            ReconnectAction::MarkStale,
            ReconnectAction::Count,
        ],
        counted.0 is Done,
        after >= before ==> counted.0->count == after - before,
        after < before ==> counted.0->count == 0,
{
}

/// Only a display that is in a mirror set and recorded as switched off is taken
/// out of it.
pub proof fn law_an_own_mirror_is_a_recorded_one(
    registry: Registry,
    snapshot: DisplaySnapshot,
    off: bool,
    own: bool,
)
    requires
        registry.wf(),
        call_ensures(Registry::is_offline, (&registry, snapshot.id), off),
        call_ensures(is_own_mirror, (&registry, &snapshot), own),
    ensures
        own <==> snapshot.mirrors is Some && off,
{
}

/// What is connected keeps no record, and every other display keeps its own.
pub proof fn law_what_is_connected_keeps_no_record(
    registry: &mut Registry,
    connected: &[DisplayId],
    dropped: bool,
    id: u32,
)
    requires
        old(registry).wf(),
        call_ensures(forget_connected, (registry, connected), dropped),
    ensures
        final(registry).records().contains_key(id) <==> old(registry).records().contains_key(id)
            && forall|i: int| 0 <= i < connected@.len() ==> (#[trigger] connected@[i]).0 != id,
        final(registry).records().contains_key(id)
            ==> final(registry).records()[id] == old(registry).records()[id],
{
    lemma_without(old(registry).records(), connected@, id);
    if final(registry).records().contains_key(id) {
        lemma_without_same(old(registry).records(), connected@, id);
    }
}

proof fn lemma_without_same(
    records: Map<u32, crate::offline::Offline>,
    displays: Seq<DisplayId>,
    id: u32,
)
    requires
        without(records, displays).contains_key(id),
    ensures
        without(records, displays)[id] == records[id],
    decreases displays.len(),
{
    if displays.len() > 0 {
        lemma_without_same(records, displays.drop_last(), id);
    }
}

/// What drives a display's brightness is named, and can be moved where anything
/// does.
pub proof fn law_what_drives_the_brightness_is_named(
    backend: BrightnessBackend,
    caption: &'static str,
    available: bool,
)
    requires
        call_ensures(BrightnessBackend::caption, (backend,), caption),
        call_ensures(BrightnessBackend::is_available, (backend,), available),
    ensures
        available <==> backend != BrightnessBackend::Unavailable,
        match backend {
            BrightnessBackend::Panel => caption@ == "Brightness"@,
            BrightnessBackend::Ddc => caption@ == "Brightness (DDC)"@,
            BrightnessBackend::Software => caption@ == "Brightness (Software)"@,
            BrightnessBackend::Unavailable => caption@ == "Brightness (unavailable)"@,
        },
{
}

/// What came back is what is there more than before.
pub proof fn law_what_came_back_is_counted(before: usize, after: usize, count: usize)
    requires
        call_ensures(reconnected, (before, after), count),
    ensures
        after >= before ==> before + count == after,
        after < before ==> count == 0,
{
}

} // verus!
