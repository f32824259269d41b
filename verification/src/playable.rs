//! Which outputs will actually play.
//!
//! An external display publishes an audio device whenever it is plugged in,
//! whether or not its link will carry audio, and nothing about the device says
//! which. One that will not looks exactly like one that will (same formats,
//! same rates, same "can be default") until I/O is started and the system
//! gives up waiting for its clock ten seconds later.
//!
//! So display audio is tried before it is offered: its I/O is started aside,
//! and the device is listed only once that has worked. Only display audio.
//! Starting I/O on an AirPlay or Bluetooth output is not a harmless check: it
//! connects to the speaker, or pulls the headphones over from another device,
//! and those outputs do not have this failure anyway.

use std::collections::HashMap;
use std::collections::HashSet;

use vstd::prelude::*;

use crate::devices::{Device, TRANSPORT_DISPLAY_PORT, TRANSPORT_HDMI};

verus! {

broadcast use vstd::std_specs::hash::group_hash_axioms;

/// Devices whose I/O is being started right now.
///
/// While the system is waiting on a device, every other request for that device
/// waits behind it: its name, its streams, all of it. Enumerating outputs
/// meanwhile would stall for the full ten seconds.
pub struct Trying {
    ids: HashSet<u32>,
}

impl Trying {
    pub closed spec fn ids(self) -> Set<u32> {
        self.ids@
    }

    pub fn new() -> (trying: Self)
        ensures
            trying.ids() == Set::<u32>::empty(),
    {
        Trying { ids: HashSet::new() }
    }

    fn begin(&mut self, id: u32)
        ensures
            final(self).ids() == old(self).ids().insert(id),
    {
        self.ids.insert(id);
    }

    fn end(&mut self, id: u32)
        ensures
            final(self).ids() == old(self).ids().remove(id),
    {
        self.ids.remove(&id);
    }
}

/// Whether `id`'s I/O is being tried at this moment, in which case asking it
/// anything waits until the attempt ends.
pub fn is_being_tried(trying: &Trying, id: u32) -> (is: bool)
    ensures
        is == trying.ids().contains(id),
{
    trying.ids.contains(&id)
}

/// How long a verdict is believed before the output is tried again, in
/// milliseconds. A link can come back, and one that worked can stop; neither
/// announces it.
pub const STALE_MS: u64 = 60_000;

#[derive(Clone, Copy, Debug)]
pub struct Entry {
    /// `None` until the first attempt finishes.
    pub plays: Option<bool>,
    /// When it was last looked at, in milliseconds.
    pub checked: Option<u64>,
    pub in_flight: bool,
}

impl Entry {
    pub open spec fn unknown() -> Entry {
        Entry { plays: None, checked: None, in_flight: false }
    }

    /// Whether the verdict is recent enough to be believed at `now`.
    pub open spec fn fresh(self, now: u64) -> bool {
        self.checked matches Some(checked) && now - checked < STALE_MS
    }
}

/// Display audio: the outputs that can be listed and not play, and that can be
/// tried without side effects.
pub open spec fn display_audio(device: Device) -> bool {
    device.transport_type == Some(TRANSPORT_HDMI) || device.transport_type == Some(
        TRANSPORT_DISPLAY_PORT,
    )
}

pub fn needs_trying(device: &Device) -> (needs: bool)
    ensures
        needs == display_audio(*device),
{
    match device.transport_type {
        Some(value) => value == TRANSPORT_HDMI || value == TRANSPORT_DISPLAY_PORT,
        None => false,
    }
}

/// A counter one further on, round the corner at its end.
pub open spec fn next_generation(generation: u32) -> u32 {
    if generation == u32::MAX {
        0
    } else {
        (generation + 1) as u32
    }
}

/// Verdicts on display-audio outputs, by device id. A monitor plugged back in
/// comes back as a new device, and is tried afresh.
pub struct Playable {
    entries: HashMap<u32, Entry>,
    /// Bumped whenever a verdict changes, so whatever is showing the list can
    /// tell it has.
    generation: u32,
}

impl Playable {
    pub closed spec fn entries(self) -> Map<u32, Entry> {
        self.entries@
    }

    pub closed spec fn version(self) -> u32 {
        self.generation
    }

    /// What is known of a device.
    pub open spec fn known(self, id: u32) -> Entry {
        if self.entries().contains_key(id) {
            self.entries()[id]
        } else {
            Entry::unknown()
        }
    }

    /// `after` knows `entry` of the device, and nothing else has changed; the
    /// generation moved exactly if the verdict did.
    pub open spec fn learned(self, id: u32, entry: Entry, after: Playable) -> bool {
        &&& after.entries() == self.entries().insert(id, entry)
        &&& after.version() == (if self.known(id).plays == entry.plays {
            self.version()
        } else {
            next_generation(self.version())
        })
    }

    pub fn new() -> (playable: Self)
        ensures
            playable.entries() == Map::<u32, Entry>::empty(),
            playable.version() == 0,
    {
        Playable { entries: HashMap::new(), generation: 0 }
    }

    /// What is known of a device.
    fn entry(&self, id: u32) -> (entry: Entry)
        ensures
            entry == self.known(id),
    {
        match self.entries.get(&id) {
            Some(entry) => *entry,
            None => Entry { plays: None, checked: None, in_flight: false },
        }
    }

    fn learn(&mut self, id: u32, entry: Entry)
        ensures
            old(self).learned(id, entry, *final(self)),
    {
        let before = self.entry(id);
        let same: bool = match (before.plays, entry.plays) {
            (None, None) => true,
            (Some(left), Some(right)) => left == right,
            _ => false,
        };
        self.entries.insert(id, entry);
        if !same {
            self.generation = self.generation.wrapping_add(1);
        }
    }

    /// Whether listing `device` depends on whether something is playing through
    /// it. Nothing else needs that asked, and asking a device that is being
    /// tried waits.
    pub fn asks_whether_running(&self, device: &Device) -> (asks: bool)
        ensures
            asks == (display_audio(*device) && self.known(device.id).plays is None),
    {
        needs_trying(device) && self.entry(device.id).plays.is_none()
    }

    /// Whether to list `device` as somewhere to play.
    ///
    /// Display audio is held back until it has been tried, rather than listed
    /// on the chance that it works: a listed output that fails costs ten
    /// seconds to find out. One that something is already playing through,
    /// which `running` says, needs no trying.
    pub fn offers(&self, device: &Device, running: bool) -> (offers: bool)
        ensures
            offers == (!display_audio(*device) || match self.known(device.id).plays {
                Some(plays) => plays,
                None => running,
            }),
    {
        if !needs_trying(device) {
            return true;
        }
        match self.entry(device.id).plays {
            Some(plays) => plays,
            None => running,
        }
    }

    /// Whether `device` is known not to play. Unlike [`Self::offers`], an
    /// output that has not been tried yet is not held against it.
    pub fn failed(&self, device: &Device) -> (failed: bool)
        ensures
            failed == (display_audio(*device) && self.known(device.id).plays == Some(false)),
    {
        if !needs_trying(device) {
            return false;
        }
        match self.entry(device.id).plays {
            Some(plays) => !plays,
            None => false,
        }
    }

    /// Whether `device` is due to be looked at: display audio that is not being
    /// tried already and has not been tried recently.
    pub fn check(&self, device: &Device, now: u64) -> (due: bool)
        ensures
            due == (display_audio(*device) && !self.known(device.id).in_flight && !self.known(
                device.id,
            ).fresh(now)),
    {
        if !needs_trying(device) {
            return false;
        }
        let entry = self.entry(device.id);
        let fresh: bool = match entry.checked {
            Some(checked) => now < checked || now - checked < STALE_MS,
            None => false,
        };
        !(entry.in_flight || fresh)
    }

    /// Looks at a device that is due. One that something is playing through
    /// plays: no need to start I/O on a device that is already running. Any
    /// other is to be tried, which the result says, and is marked as such.
    pub fn begin_check(&mut self, trying: &mut Trying, id: u32, running: bool, now: u64) -> (to_try:
        bool)
        ensures
            to_try == !running,
            running ==> {
                &&& final(trying).ids() == old(trying).ids()
                &&& old(self).learned(
                    id,
                    (Entry { plays: Some(true), checked: Some(now), ..old(self).known(id) }),
                    *final(self),
                )
            },
            !running ==> {
                &&& final(trying).ids() == old(trying).ids().insert(id)
                &&& old(self).learned(
                    id,
                    (Entry { in_flight: true, ..old(self).known(id) }),
                    *final(self),
                )
            },
    {
        let entry = self.entry(id);
        if running {
            self.learn(id, Entry { plays: Some(true), checked: Some(now), ..entry });
            false
        } else {
            self.learn(id, Entry { in_flight: true, ..entry });
            trying.begin(id);
            true
        }
    }

    /// Takes the outcome of an attempt.
    pub fn finish_check(&mut self, trying: &mut Trying, id: u32, plays: bool, now: u64)
        ensures
            final(trying).ids() == old(trying).ids().remove(id),
            old(self).learned(
                id,
                (Entry { plays: Some(plays), checked: Some(now), in_flight: false }),
                *final(self),
            ),
    {
        trying.end(id);
        self.learn(id, Entry { plays: Some(plays), checked: Some(now), in_flight: false });
    }

    /// Records an output that failed when it was actually used, so it stops
    /// being listed now rather than after its next check.
    pub fn record_failure(&mut self, device: &Device, now: u64)
        ensures
            !display_audio(*device) ==> *final(self) == *old(self),
            display_audio(*device) ==> old(self).learned(
                device.id,
                (Entry {
                    plays: Some(false),
                    checked: Some(now),
                    ..old(self).known(device.id)
                }),
                *final(self),
            ),
    {
        if !needs_trying(device) {
            return ;
        }
        let entry = self.entry(device.id);
        self.learn(device.id, Entry { plays: Some(false), checked: Some(now), ..entry });
    }

    /// Moves whenever a verdict changes. A check that confirms what was
    /// already known leaves it alone, so re-trying does not redraw anything.
    pub fn generation(&self) -> (generation: u32)
        ensures
            generation == self.version(),
    {
        self.generation
    }
}

/// A check that confirms what was already known redraws nothing; one that
/// changes the verdict always moves the generation.
pub proof fn law_the_generation_moves_exactly_with_the_verdict(
    before: Playable,
    id: u32,
    entry: Entry,
    after: Playable,
)
    requires
        before.learned(id, entry, after),
    ensures
        (after.version() != before.version()) == (after.known(id).plays
            != before.known(id).plays),
        forall|other: u32| other != id ==> #[trigger] after.known(other) == before.known(other),
{
}

/// Display audio is what comes over HDMI or DisplayPort; everything else is
/// offered untried and cannot fail.
pub proof fn law_only_display_audio_is_tried(
    playable: Playable,
    device: Device,
    needs: bool,
    running: bool,
    offers: bool,
    failed: bool,
    now: u64,
    due: bool,
)
    requires
        call_ensures(needs_trying, (&device,), needs),
        call_ensures(Playable::offers, (&playable, &device, running), offers),
        call_ensures(Playable::failed, (&playable, &device), failed),
        call_ensures(Playable::check, (&playable, &device, now), due),
    ensures
        needs <==> device.transport_type == Some(0x6864_6D69u32) || device.transport_type == Some(
            0x6470_7274u32,
        ),
        !needs ==> offers && !failed && !due,
{
}

/// An output is offered once it was tried and played, and not where it did not;
/// a verdict is believed for a minute and says nothing of other outputs.
pub proof fn law_an_output_is_offered_once_it_has_played(
    playable: &mut Playable,
    trying: &mut Trying,
    device: Device,
    plays: bool,
    then: u64,
    running: bool,
    offers: bool,
    failed: bool,
    tried: bool,
    now: u64,
    due: bool,
    other: Device,
    before: bool,
    after: bool,
)
    requires
        device.transport_type == Some(0x6864_6D69u32) || device.transport_type == Some(
            0x6470_7274u32,
        ),
        call_ensures(Playable::finish_check, (playable, trying, device.id, plays, then), ()),
        call_ensures(Playable::offers, (&*final(playable), &device, running), offers),
        call_ensures(Playable::failed, (&*final(playable), &device), failed),
        call_ensures(is_being_tried, (&*final(trying), device.id), tried),
        call_ensures(Playable::check, (&*final(playable), &device, now), due),
        other.id != device.id,
        call_ensures(Playable::offers, (&*old(playable), &other, running), before),
        call_ensures(Playable::offers, (&*final(playable), &other, running), after),
    ensures
        offers == plays,
        failed == !plays,
        !tried,
        due <==> now >= then + 60_000,
        after == before,
{
}

/// An output that nothing is known of is held back, unless something is playing
/// through it, and is not held to have failed.
pub proof fn law_an_untried_output_is_held_back(
    device: Device,
    playable: Playable,
    running: bool,
    asks: bool,
    offers: bool,
    failed: bool,
    now: u64,
    due: bool,
)
    requires
        device.transport_type == Some(0x6864_6D69u32) || device.transport_type == Some(
            0x6470_7274u32,
        ),
        call_ensures(Playable::new, (), playable),
        call_ensures(Playable::asks_whether_running, (&playable, &device), asks),
        call_ensures(Playable::offers, (&playable, &device, running), offers),
        call_ensures(Playable::failed, (&playable, &device), failed),
        call_ensures(Playable::check, (&playable, &device, now), due),
    ensures
        asks,
        offers == running,
        !failed,
        due,
{
}

/// What is running plays, and is not tried; anything else is tried, and is not
/// tried again while it is.
pub proof fn law_what_is_running_is_not_tried(
    playable: &mut Playable,
    trying: &mut Trying,
    device: Device,
    running: bool,
    now: u64,
    to_try: bool,
    later: u64,
    due: bool,
    tried: bool,
    offers: bool,
)
    requires
        device.transport_type == Some(0x6864_6D69u32) || device.transport_type == Some(
            0x6470_7274u32,
        ),
        call_ensures(
            Playable::begin_check,
            (playable, trying, device.id, running, now),
            to_try,
        ),
        call_ensures(Playable::check, (&*final(playable), &device, later), due),
        call_ensures(is_being_tried, (&*final(trying), device.id), tried),
        call_ensures(Playable::offers, (&*final(playable), &device, false), offers),
    ensures
        to_try == !running,
        running ==> offers,
        !running ==> !due && tried,
        running && later < now + 60_000 ==> !due,
{
}

/// An output that failed in use is not offered from then on, for a minute at
/// least, and whoever shows the list can tell that it changed.
pub proof fn law_what_failed_in_use_is_not_offered(
    playable: &mut Playable,
    device: Device,
    now: u64,
    before: u32,
    after: u32,
    offered: bool,
    running: bool,
    offers: bool,
    later: u64,
    due: bool,
)
    requires
        device.transport_type == Some(0x6864_6D69u32) || device.transport_type == Some(
            0x6470_7274u32,
        ),
        call_ensures(Playable::generation, (&*old(playable),), before),
        call_ensures(Playable::offers, (&*old(playable), &device, false), offered),
        call_ensures(Playable::record_failure, (playable, &device, now), ()),
        call_ensures(Playable::generation, (&*final(playable),), after),
        call_ensures(Playable::offers, (&*final(playable), &device, running), offers),
        call_ensures(Playable::check, (&*final(playable), &device, later), due),
        later < now + 60_000,
    ensures
        !offers,
        !due,
        offered ==> after != before,
{
}

/// Nothing is being tried to begin with.
pub proof fn law_nothing_is_tried_to_begin_with(trying: Trying, id: u32, tried: bool)
    requires
        call_ensures(Trying::new, (), trying),
        call_ensures(is_being_tried, (&trying, id), tried),
    ensures
        !tried,
{
}

} // verus!
