//! Output devices, described rather than merely enumerated: which devices
//! exist, which one is ours, and what each one can and cannot do about its own
//! volume.

use vstd::prelude::*;

use crate::lists::{
    first, lemma_filter_next, lemma_filter_push, lemma_first, lemma_first_at, lemma_first_none,
};
use crate::playable::{is_being_tried, Trying};
use crate::text::{decimal, digits, same};

verus! {

/// The UID our driver publishes.
pub const DISEQ_UID: &'static str = "DisEQDevice";

/// eqMac's driver, so the app can say so when it is in the way.
pub const EQMAC_UID: &'static str = "EQMDevice";

/// The custom property the driver exposes for renaming the device: `'kdnm'`.
pub const CUSTOM_PROPERTY_NAME: u32 = 0x6B64_6E6D;

/// The custom property the app reports the route's delay through, in frames:
/// `'kdlt'`.
pub const CUSTOM_PROPERTY_LATENCY: u32 = 0x6B64_6C74;

/// The bundle identifier of the driver, which is how the plug-in object is
/// found while it is publishing no devices.
pub const DRIVER_BUNDLE_ID: &'static str = "com.koshka.DisEQ.driver";

/// Selector the plug-in publishes for its own visibility: `'kdsh'`.
pub const CUSTOM_PROPERTY_SHOWN: u32 = 0x6B64_7368;

// How a device is connected, as the four characters the system gives it.
/// `'virt'`.
pub const TRANSPORT_VIRTUAL: u32 = 0x7669_7274;

/// `'grup'`.
pub const TRANSPORT_AGGREGATE: u32 = 0x6772_7570;

/// `'bltn'`.
pub const TRANSPORT_BUILT_IN: u32 = 0x626C_746E;

/// `'usb '`.
pub const TRANSPORT_USB: u32 = 0x7573_6220;

/// `'hdmi'`.
pub const TRANSPORT_HDMI: u32 = 0x6864_6D69;

/// `'dprt'`.
pub const TRANSPORT_DISPLAY_PORT: u32 = 0x6470_7274;

/// `'blue'`.
pub const TRANSPORT_BLUETOOTH: u32 = 0x626C_7565;

/// `'airp'`.
pub const TRANSPORT_AIRPLAY: u32 = 0x6169_7270;

/// `'3915'`.
pub const TRANSPORT_THUNDERBOLT: u32 = 0x3339_3135;

/// `'pci '`.
pub const TRANSPORT_PCI: u32 = 0x7063_6920;

/// `'aggr'`.
pub const TRANSPORT_AGGREGATE_OLD: u32 = 0x6167_6772;

/// A volume or a gain is whole millionths of full scale.
pub const UNITY: u32 = 1_000_000;

#[derive(Debug)]
pub struct Device {
    pub id: u32,
    pub name: String,
    pub uid: Option<String>,
    pub has_output: bool,
    pub has_input: bool,
    /// Whether the system will let anyone change this device's volume. False
    /// for most HDMI and DisplayPort outputs: the reason the virtual device
    /// exists.
    pub volume_is_settable: bool,
    /// In millionths.
    pub volume: Option<u32>,
    pub muted: Option<bool>,
    /// In millihertz.
    pub sample_rate: Option<u64>,
    pub transport_type: Option<u32>,
}

/// What the system calls a connection, in words.
pub open spec fn transport_name(transport_type: Option<u32>) -> Seq<char> {
    match transport_type {
        None => "unknown"@,
        Some(value) => if value == TRANSPORT_VIRTUAL {
            "virtual"@
        } else if value == TRANSPORT_AGGREGATE {
            "aggregate"@
        } else if value == TRANSPORT_BUILT_IN {
            "built-in"@
        } else if value == TRANSPORT_USB {
            "USB"@
        } else if value == TRANSPORT_HDMI {
            "HDMI"@
        } else if value == TRANSPORT_DISPLAY_PORT {
            "DisplayPort"@
        } else if value == TRANSPORT_BLUETOOTH {
            "Bluetooth"@
        } else if value == TRANSPORT_AIRPLAY {
            "AirPlay"@
        } else if value == TRANSPORT_THUNDERBOLT {
            "Thunderbolt"@
        } else if value == TRANSPORT_PCI {
            "PCI"@
        } else if value == TRANSPORT_AGGREGATE_OLD {
            "aggregate"@
        } else {
            "other"@
        },
    }
}

/// Copies an optional string.
pub fn copied(text: &Option<String>) -> (copy: Option<String>)
    ensures
        copy == *text,
{
    match text {
        Some(text) => Some(text.clone()),
        None => None,
    }
}

impl Clone for Device {
    fn clone(&self) -> (device: Self)
        ensures
            device == *self,
    {
        Device {
            id: self.id,
            name: self.name.clone(),
            uid: copied(&self.uid),
            has_output: self.has_output,
            has_input: self.has_input,
            volume_is_settable: self.volume_is_settable,
            volume: self.volume,
            muted: self.muted,
            sample_rate: self.sample_rate,
            transport_type: self.transport_type,
        }
    }
}

impl Device {
    pub open spec fn has_uid(self, uid: Seq<char>) -> bool {
        self.uid matches Some(own) && own@ == uid
    }

    pub open spec fn ours(self) -> bool {
        self.has_uid(DISEQ_UID@)
    }

    pub open spec fn virtual_device(self) -> bool {
        self.transport_type == Some(TRANSPORT_VIRTUAL) || self.transport_type == Some(
            TRANSPORT_AGGREGATE,
        )
    }

    /// Real hardware: not our own driver, and nothing else that is virtual.
    pub open spec fn worth_routing_to(self) -> bool {
        !self.ours() && !self.virtual_device()
    }

    /// The device as it is shown: one that has no name is called by its number.
    pub fn describe(device: Device, name: Option<String>) -> (described: Device)
        ensures
            described == (Device { name: described.name, ..device }),
            described.name@ == (match name {
                Some(name) => name@,
                None => "device "@ + digits(device.id as nat),
            }),
    {
        let name = match name {
            Some(name) => name,
            None => {
                let mut text = "device ".to_owned();
                text.append(decimal(device.id as u64).as_str());
                text
            },
        };
        Device { name, ..device }
    }

    pub fn is_uid(&self, uid: &str) -> (is: bool)
        ensures
            is == self.has_uid(uid@),
    {
        match &self.uid {
            Some(own) => same(own.as_str(), uid),
            None => false,
        }
    }

    pub fn is_diseq(&self) -> (is: bool)
        ensures
            is == self.ours(),
    {
        self.is_uid(DISEQ_UID)
    }

    pub fn is_virtual(&self) -> (is: bool)
        ensures
            is == self.virtual_device(),
    {
        match self.transport_type {
            Some(value) => value == TRANSPORT_VIRTUAL || value == TRANSPORT_AGGREGATE,
            None => false,
        }
    }

    /// A device that needs routing through ours to get a volume slider: real
    /// hardware that publishes no settable volume of its own.
    pub fn needs_software_volume(&self) -> (needs: bool)
        ensures
            needs == (self.has_output && !self.volume_is_settable && !self.virtual_device()),
    {
        self.has_output && !self.volume_is_settable && !self.is_virtual()
    }

    pub fn transport_type_name(&self) -> (name: &'static str)
        ensures
            name@ == transport_name(self.transport_type),
    {
        match self.transport_type {
            None => "unknown",
            Some(value) => {
                if value == TRANSPORT_VIRTUAL {
                    "virtual"
                } else if value == TRANSPORT_AGGREGATE {
                    "aggregate"
                } else if value == TRANSPORT_BUILT_IN {
                    "built-in"
                } else if value == TRANSPORT_USB {
                    "USB"
                } else if value == TRANSPORT_HDMI {
                    "HDMI"
                } else if value == TRANSPORT_DISPLAY_PORT {
                    "DisplayPort"
                } else if value == TRANSPORT_BLUETOOTH {
                    "Bluetooth"
                } else if value == TRANSPORT_AIRPLAY {
                    "AirPlay"
                } else if value == TRANSPORT_THUNDERBOLT {
                    "Thunderbolt"
                } else if value == TRANSPORT_PCI {
                    "PCI"
                } else if value == TRANSPORT_AGGREGATE_OLD {
                    "aggregate"
                } else {
                    "other"
                }
            },
        }
    }
}

/// Every device with output channels.
///
/// Except any whose I/O is being tried right now: such a device answers nothing
/// else until the attempt ends, which on one that will not start is ten
/// seconds, and whoever asked waits with it. It is not listed until it has been
/// tried anyway.
pub fn outputs(devices: &[Device], trying: &Trying) -> (listed: Vec<Device>)
    ensures
        listed@ == devices@.filter(
            |device: Device| device.has_output && !trying.ids().contains(device.id),
        ),
{
    let ghost keeps = |device: Device| device.has_output && !trying.ids().contains(device.id);
    let mut listed: Vec<Device> = Vec::new();
    let mut i: usize = 0;
    while i < devices.len()
        invariant
            i <= devices@.len(),
            keeps == (|device: Device|
                device.has_output && !trying.ids().contains(device.id)),
            listed@ == devices@.take(i as int).filter(keeps),
        decreases devices@.len() - i,
    {
        proof {
            lemma_filter_next(devices@, i as int, keeps);
        }
        if devices[i].has_output && !is_being_tried(trying, devices[i].id) {
            listed.push(devices[i].clone());
        }
        i += 1;
    }
    assert(devices@.take(i as int) == devices@);
    listed
}

pub fn by_uid(devices: &[Device], uid: &str) -> (device: Option<Device>)
    ensures
        device == first(devices@, |device: Device| device.has_uid(uid@)),
{
    let ghost wanted = |device: Device| device.has_uid(uid@);
    let mut i: usize = 0;
    while i < devices.len()
        invariant
            i <= devices@.len(),
            wanted == (|device: Device| device.has_uid(uid@)),
            forall|j: int| 0 <= j < i ==> !wanted(#[trigger] devices@[j]),
        decreases devices@.len() - i,
    {
        if devices[i].is_uid(uid) {
            proof {
                lemma_first_at(devices@, wanted, i as int);
            }
            return Some(devices[i].clone());
        }
        i += 1;
    }
    proof {
        lemma_first_none(devices@, wanted);
    }
    None
}

/// A device as the system's list has it. One that was taken away stays in the
/// list for a few tens of milliseconds, still answering with its UID, but is
/// not alive.
#[derive(Debug)]
pub struct Listed {
    pub device: Device,
    pub alive: bool,
}

impl Listed {
    pub open spec fn is_live_driver(self) -> bool {
        self.alive && self.device.ours()
    }
}

/// Our virtual device, if the driver is installed and it is currently
/// published. Hidden is indistinguishable from absent by design.
///
/// Only ever a *live* object: every write to one that is on its way out
/// succeeds and does nothing. Newest wins: during the overlap there can be two,
/// and the one that matters is the one that just arrived.
pub fn diseq(devices: &[Listed]) -> (device: Option<Device>)
    ensures
        device == (match first(devices@.reverse(), |listed: Listed| listed.is_live_driver()) {
            Some(listed) => Some(listed.device),
            None => None,
        }),
{
    let ghost wanted = |listed: Listed| listed.is_live_driver();
    let ghost backwards = devices@.reverse();
    let mut left: usize = devices.len();
    while left > 0
        invariant
            left <= devices@.len(),
            backwards == devices@.reverse(),
            wanted == (|listed: Listed| listed.is_live_driver()),
            forall|j: int| 0 <= j < devices@.len() - left ==> !wanted(#[trigger] backwards[j]),
        decreases left,
    {
        left -= 1;
        assert(backwards[devices@.len() - 1 - left] == devices@[left as int]);
        if devices[left].alive && devices[left].device.is_diseq() {
            proof {
                lemma_first_at(backwards, wanted, devices@.len() - 1 - left);
            }
            return Some(devices[left].device.clone());
        }
    }
    proof {
        lemma_first_none(backwards, wanted);
    }
    None
}

/// Whether a device of a UID is listed.
pub open spec fn lists_uid(devices: Seq<Device>, uid: Seq<char>) -> bool {
    exists|i: int| 0 <= i < devices.len() && (#[trigger] devices[i]).has_uid(uid)
}

/// Whether eqMac's driver is present. Both want to own the default output, so
/// the app says so rather than fighting over it.
pub fn eqmac_is_installed(devices: &[Device]) -> (installed: bool)
    ensures
        installed == exists|i: int|
            0 <= i < devices@.len() && (#[trigger] devices@[i]).has_uid(EQMAC_UID@),
        installed == lists_uid(devices@, EQMAC_UID@),
{
    let mut i: usize = 0;
    while i < devices.len()
        invariant
            i <= devices@.len(),
            forall|j: int| 0 <= j < i ==> !(#[trigger] devices@[j]).has_uid(EQMAC_UID@),
        decreases devices@.len() - i,
    {
        if devices[i].is_uid(EQMAC_UID) {
            assert(devices@[i as int].has_uid(EQMAC_UID@));
            return true;
        }
        i += 1;
    }
    false
}

/// What the virtual device calls itself while it proxies `target`: the entry in
/// Sound settings names what is actually on the other end of the route.
pub fn proxy_name(target: &str) -> (name: String)
    ensures
        name@ == target@ + " (DisEQ)"@,
{
    let mut name = target.to_owned();
    name.append(" (DisEQ)");
    name
}

// --- publishing the virtual device ------------------------------------------

/// Looks at the device list while the system catches up with a publish; there
/// are 50 ms between two of them.
pub const PUBLISH_LOOKS: u32 = 40;

/// Looks while it catches up with a retract.
pub const RETRACT_LOOKS: u32 = 20;

/// Milliseconds between two looks.
pub const SETTLE_MS: u64 = 50;

/// Where a publish or a retract of the virtual device stands.
///
/// The device appears with the application and goes away with it, so a machine
/// with the driver installed but nothing running has no stray entry in Sound
/// settings. The property write is asynchronous on the system's side, so the
/// wait is not optional: a publish that starts while the last device is still
/// being torn down finds the old object first, and everything written to it is
/// accepted and discarded.
#[derive(Debug)]
pub enum Visibility {
    /// The plug-in is being looked up.
    Finding,
    /// It is there; the property is being written.
    Writing,
    /// Written; `looks` have not found what was asked for.
    Waiting { looks: u32 },
    /// Done, with the device where one was asked for.
    Settled { device: Option<Device> },
    /// The plug-in is not loaded, or refused, or did not publish in time.
    Refused,
}

#[derive(Debug)]
pub enum VisibilityEvent {
    Plugin { found: bool },
    Written { accepted: bool },
    Looked { device: Option<Device> },
}

impl Visibility {
    pub open spec fn awaits(self, event: VisibilityEvent) -> bool {
        match self {
            Visibility::Finding => event is Plugin,
            Visibility::Writing => event is Written,
            Visibility::Waiting { looks } => event is Looked,
            Visibility::Settled { .. } => false,
            Visibility::Refused => false,
        }
    }

    /// No more looks have been taken than the wait allows.
    pub open spec fn within(self, allowed: u32) -> bool {
        self matches Visibility::Waiting { looks } ==> looks < allowed
    }

    pub open spec fn after_publish(self, event: VisibilityEvent) -> Visibility {
        match (self, event) {
            (Visibility::Finding, VisibilityEvent::Plugin { found: true }) => Visibility::Writing,
            (Visibility::Writing, VisibilityEvent::Written { accepted: true }) => {
                Visibility::Waiting { looks: 0 }
            },
            (Visibility::Waiting { looks }, VisibilityEvent::Looked { device }) => {
                if device is Some {
                    Visibility::Settled { device }
                } else if looks + 1 < PUBLISH_LOOKS {
                    Visibility::Waiting { looks: (looks + 1) as u32 }
                } else {
                    Visibility::Refused
                }
            },
            _ => Visibility::Refused,
        }
    }

    pub open spec fn after_retract(self, event: VisibilityEvent) -> Visibility {
        match (self, event) {
            (Visibility::Finding, VisibilityEvent::Plugin { found: true }) => Visibility::Writing,
            (Visibility::Writing, VisibilityEvent::Written { accepted: true }) => {
                Visibility::Waiting { looks: 0 }
            },
            (Visibility::Waiting { looks }, VisibilityEvent::Looked { device }) => {
                if device is Some && looks + 1 < RETRACT_LOOKS {
                    Visibility::Waiting { looks: (looks + 1) as u32 }
                } else {
                    Visibility::Settled { device: None }
                }
            },
            _ => Visibility::Refused,
        }
    }

    /// One step of publishing. Ends in the device once the system can see it.
    pub fn publish(self, event: VisibilityEvent) -> (next: Visibility)
        requires
            self.awaits(event),
            self.within(PUBLISH_LOOKS),
        ensures
            next == self.after_publish(event),
            next.within(PUBLISH_LOOKS),
    {
        match (self, event) {
            (Visibility::Finding, VisibilityEvent::Plugin { found: true }) => Visibility::Writing,
            (Visibility::Writing, VisibilityEvent::Written { accepted: true }) => {
                Visibility::Waiting { looks: 0 }
            },
            (Visibility::Waiting { looks }, VisibilityEvent::Looked { device }) => {
                if device.is_some() {
                    Visibility::Settled { device }
                } else if looks + 1 < PUBLISH_LOOKS {
                    Visibility::Waiting { looks: looks + 1 }
                } else {
                    Visibility::Refused
                }
            },
            _ => Visibility::Refused,
        }
    }

    /// One step of taking the virtual device away again. A wait that finds it
    /// still there at the end has asked for as much as it can, and is settled.
    pub fn retract(self, event: VisibilityEvent) -> (next: Visibility)
        requires
            self.awaits(event),
            self.within(RETRACT_LOOKS),
        ensures
            next == self.after_retract(event),
            next.within(RETRACT_LOOKS),
    {
        match (self, event) {
            (Visibility::Finding, VisibilityEvent::Plugin { found: true }) => Visibility::Writing,
            (Visibility::Writing, VisibilityEvent::Written { accepted: true }) => {
                Visibility::Waiting { looks: 0 }
            },
            (Visibility::Waiting { looks }, VisibilityEvent::Looked { device }) => {
                if device.is_some() && looks + 1 < RETRACT_LOOKS {
                    Visibility::Waiting { looks: looks + 1 }
                } else {
                    Visibility::Settled { device: None }
                }
            },
            _ => Visibility::Refused,
        }
    }
}

/// Waiting for the device always ends: every look that does not find it is one
/// look fewer that is left.
pub proof fn law_waiting_for_the_device_ends(state: Visibility, event: VisibilityEvent)
    requires
        state is Waiting,
        state.awaits(event),
        state.within(PUBLISH_LOOKS),
    ensures
        state.after_publish(event) matches Visibility::Waiting { looks } ==> looks
            == state->looks + 1 && looks < PUBLISH_LOOKS,
        state.after_publish(event) matches Visibility::Settled { device } ==> device is Some && event
            == (VisibilityEvent::Looked { device }),
{
}

/// A device is ours by its UID alone, and virtual by how it is connected:
/// `'virt'` or `'grup'`. Only real hardware without a volume control of its own
/// needs ours.
pub proof fn law_what_a_device_is(
    device: Device,
    ours: bool,
    is_virtual: bool,
    needs: bool,
)
    requires
        call_ensures(Device::is_diseq, (&device,), ours),
        call_ensures(Device::is_virtual, (&device,), is_virtual),
        call_ensures(Device::needs_software_volume, (&device,), needs),
    ensures
        ours <==> device.uid is Some && (device.uid->0)@ == "DisEQDevice"@,
        is_virtual <==> device.transport_type == Some(0x7669_7274u32) || device.transport_type
            == Some(0x6772_7570u32),
        needs <==> device.has_output && !device.volume_is_settable && !is_virtual,
{
}

/// Each kind of connection has its own name, and what has none is another kind.
pub proof fn law_connections_are_named(device: Device, name: &'static str)
    requires
        call_ensures(Device::transport_type_name, (&device,), name),
    ensures
        device.transport_type is None ==> name@ == "unknown"@,
        device.transport_type == Some(0x7669_7274u32) ==> name@ == "virtual"@,
        device.transport_type == Some(0x6772_7570u32) ==> name@ == "aggregate"@,
        device.transport_type == Some(0x6167_6772u32) ==> name@ == "aggregate"@,
        device.transport_type == Some(0x626C_746Eu32) ==> name@ == "built-in"@,
        device.transport_type == Some(0x7573_6220u32) ==> name@ == "USB"@,
        device.transport_type == Some(0x6864_6D69u32) ==> name@ == "HDMI"@,
        device.transport_type == Some(0x6470_7274u32) ==> name@ == "DisplayPort"@,
        device.transport_type == Some(0x626C_7565u32) ==> name@ == "Bluetooth"@,
        device.transport_type == Some(0x6169_7270u32) ==> name@ == "AirPlay"@,
        device.transport_type == Some(0x3339_3135u32) ==> name@ == "Thunderbolt"@,
        device.transport_type == Some(0x7063_6920u32) ==> name@ == "PCI"@,
{
}

/// The outputs are picked one by one and stay in the system's order: a further
/// device is listed, last, exactly where it has an output and is not being
/// tried.
pub proof fn law_outputs_are_picked_one_by_one(
    devices: &[Device],
    more: &[Device],
    device: Device,
    trying: Trying,
    listed: Vec<Device>,
    then: Vec<Device>,
)
    requires
        more@ == devices@.push(device),
        call_ensures(outputs, (devices, &trying), listed),
        call_ensures(outputs, (more, &trying), then),
    ensures
        devices@.len() == 0 ==> listed@.len() == 0,
        then@ == (if device.has_output && !trying.ids().contains(device.id) {
            listed@.push(device)
        } else {
            listed@
        }),
{
    let keeps = |device: Device| device.has_output && !trying.ids().contains(device.id);
    lemma_filter_push(devices@, device, keeps);
}

/// A device found by its UID is in the list and carries that UID, none before it
/// does, and one that is not found carries it nowhere.
pub proof fn law_a_device_is_found_by_its_uid(
    devices: &[Device],
    uid: &str,
    found: Option<Device>,
)
    requires
        call_ensures(by_uid, (devices, uid), found),
    ensures
        match found {
            Some(device) => (device.uid is Some && (device.uid->0)@ == uid@) && exists|at: int|
                0 <= at < devices@.len() && #[trigger] devices@[at] == device && forall|i: int|
                    0 <= i < at ==> (#[trigger] devices@[i]).uid is None || (
                    devices@[i].uid->0)@ != uid@,
            None => forall|i: int|
                0 <= i < devices@.len() ==> (#[trigger] devices@[i]).uid is None || (
                devices@[i].uid->0)@ != uid@,
        },
{
    let wanted = |device: Device| device.has_uid(uid@);
    lemma_first(devices@, wanted);
    if found is Some {
        let at = choose|at: int|
            0 <= at < devices@.len() && #[trigger] devices@[at] == found->0 && wanted(found->0)
                && forall|i: int| 0 <= i < at ==> !wanted(#[trigger] devices@[i]);
        assert forall|i: int| 0 <= i < at implies (#[trigger] devices@[i]).uid is None || (
        devices@[i].uid->0)@ != uid@ by {
            assert(!wanted(devices@[i]));
        }
    } else {
        assert forall|i: int| 0 <= i < devices@.len() implies (#[trigger] devices@[i]).uid is None
            || (devices@[i].uid->0)@ != uid@ by {
            assert(!wanted(devices@[i]));
        }
    }
}

/// Our virtual device is the newest live one: what arrived last wins, and what
/// is on its way out is never it.
pub proof fn law_the_newest_live_driver_is_ours(
    devices: &[Listed],
    more: &[Listed],
    listed: Listed,
    found: Option<Device>,
    then: Option<Device>,
)
    requires
        more@ == devices@.push(listed),
        call_ensures(diseq, (devices,), found),
        call_ensures(diseq, (more,), then),
    ensures
        devices@.len() == 0 ==> found is None,
        then == (if listed.alive && listed.device.uid is Some && (listed.device.uid->0)@
            == "DisEQDevice"@ {
            Some(listed.device)
        } else {
            found
        }),
{
    let wanted = |listed: Listed| listed.is_live_driver();
    assert(more@.reverse().skip(1) =~= devices@.reverse());
    assert(more@.reverse()[0] == listed);
    assert(devices@.len() == 0 ==> devices@.reverse().len() == 0);
}

/// The other equaliser is in the way only where its device is among
/// those listed.
pub proof fn law_the_other_equaliser_is_found_by_its_uid(
    devices: &[Device],
    installed: bool,
    i: int,
)
    requires
        call_ensures(eqmac_is_installed, (devices,), installed),
    ensures
        installed ==> exists|i: int|
            0 <= i < devices@.len() && (#[trigger] devices@[i]).uid is Some && (
            devices@[i].uid->0)@ == "EQMDevice"@,
        !installed && 0 <= i < devices@.len() ==> !(devices@[i].uid is Some && (
        devices@[i].uid->0)@ == "EQMDevice"@),
{
    if installed {
        let i = choose|i: int|
            0 <= i < devices@.len() && (#[trigger] devices@[i]).has_uid(EQMAC_UID@);
        assert(devices@[i].uid is Some);
    } else if 0 <= i < devices@.len() {
        assert(!lists_uid(devices@, EQMAC_UID@));
        assert(!devices@[i].has_uid(EQMAC_UID@));
    }
}

/// The device is written before it is looked for and published only once it was
/// seen; a plug-in that is not there or that refuses ends the attempt; forty
/// looks in vain do too.
pub proof fn law_a_publish_ends_in_the_device_that_was_seen(
    state: Visibility,
    event: VisibilityEvent,
    next: Visibility,
)
    requires
        state.awaits(event),
        state.within(PUBLISH_LOOKS),
        call_ensures(Visibility::publish, (state, event), next),
    ensures
        next is Writing <==> state is Finding && event == (VisibilityEvent::Plugin { found: true }),
        next matches Visibility::Settled { device } ==> state is Waiting && device is Some && event
            == (VisibilityEvent::Looked { device }),
        state is Waiting && event->device is Some ==> next is Settled,
        state is Writing && event == (VisibilityEvent::Written { accepted: true }) ==> next == (
        Visibility::Waiting { looks: 0 }),
        state is Waiting && event->device is None ==> next == (if state->looks < 39 {
            Visibility::Waiting { looks: (state->looks + 1) as u32 }
        } else {
            Visibility::Refused
        }),
        event == (VisibilityEvent::Plugin { found: false }) || event == (VisibilityEvent::Written {
            accepted: false,
        }) ==> next is Refused,
{
}

/// A retract is over once the device is gone, or after twenty looks.
pub proof fn law_a_retract_waits_until_the_device_is_gone(
    state: Visibility,
    event: VisibilityEvent,
    next: Visibility,
)
    requires
        state.awaits(event),
        state.within(RETRACT_LOOKS),
        call_ensures(Visibility::retract, (state, event), next),
    ensures
        next is Writing <==> state is Finding && event == (VisibilityEvent::Plugin { found: true }),
        next matches Visibility::Settled { device } ==> state is Waiting && device is None,
        state is Writing && event == (VisibilityEvent::Written { accepted: true }) ==> next == (
        Visibility::Waiting { looks: 0 }),
        state is Waiting && event->device is None ==> next is Settled,
        state is Waiting && event->device is Some ==> (if state->looks < 19 {
            next == (Visibility::Waiting { looks: (state->looks + 1) as u32 })
        } else {
            next is Settled
        }),
        event == (VisibilityEvent::Plugin { found: false }) || event == (VisibilityEvent::Written {
            accepted: false,
        }) ==> next is Refused,
{
}

/// Our device is named after the hardware it stands in for.
pub proof fn law_the_stand_in_is_named_after_the_hardware(target: &str, name: String)
    requires
        call_ensures(proxy_name, (target,), name),
    ensures
        name@ == target@ + " (DisEQ)"@,
{
}

/// A device is shown under its name, or under its number where it has none, and
/// is known by its UID.
pub proof fn law_a_device_is_shown_under_its_name(
    device: Device,
    name: Option<String>,
    described: Device,
    number: String,
    uid: &str,
    is: bool,
)
    requires
        call_ensures(Device::describe, (device, name), described),
        call_ensures(decimal, (device.id as u64,), number),
        call_ensures(Device::is_uid, (&described, uid), is),
    ensures
        name matches Some(name) ==> described.name@ == name@,
        name is None ==> described.name@ == "device "@ + number@,
        described.id == device.id,
        described.uid == device.uid,
        described.transport_type == device.transport_type,
        described.has_output == device.has_output,
        described.volume == device.volume,
        described.volume_is_settable == device.volume_is_settable,
        described.sample_rate == device.sample_rate,
        is <==> device.uid is Some && (device.uid->0)@ == uid@,
{
}

} // verus!
