//! What survives a quit.
//!
//! Everything the Sound card can change is in here, so a relaunch comes up the
//! way the app was left: the equaliser as it was set, the switches where they
//! were, each application at the level it was given, and the volume on the
//! device it was playing to.
//!
//! Every field has a default. A settings file that cannot be parsed costs the
//! settings, not the launch.

use vstd::prelude::*;

use crate::devices::UNITY;
use crate::eq::{Settings, BAND_COUNT, FLAT, MANUAL};
use crate::text::{characters, same, text_of};

verus! {

/// Bumped when a field changes meaning rather than merely appearing. Unknown
/// versions are read anyway, but the number is what lets a future release tell
/// "old" from "wrong".
pub const VERSION: u32 = 1;

// --- names and levels -------------------------------------------------------

/// Names, none of them twice.
#[derive(Debug)]
pub struct Names {
    pub entries: Vec<String>,
}

impl Names {
    pub open spec fn holds(self, name: Seq<char>) -> bool {
        exists|i: int| 0 <= i < self.entries@.len() && (#[trigger] self.entries@[i])@ == name
    }

    pub open spec fn view(self) -> Set<Seq<char>> {
        Set::new(|name: Seq<char>| self.holds(name))
    }

    pub open spec fn wf(self) -> bool {
        forall|i: int, j: int|
            0 <= i < j < self.entries@.len() ==> (#[trigger] self.entries@[i])@ != (
            #[trigger] self.entries@[j])@
    }

    pub fn new() -> (names: Self)
        ensures
            names.wf(),
            names@ == Set::<Seq<char>>::empty(),
    {
        let names = Names { entries: Vec::new() };
        assert(names@ =~= Set::<Seq<char>>::empty());
        names
    }

    fn position(&self, name: &str) -> (found: Option<usize>)
        ensures
            match found {
                Some(i) => i < self.entries@.len() && self.entries@[i as int]@ == name@,
                None => !self.holds(name@),
            },
    {
        let mut i: usize = 0;
        while i < self.entries.len()
            invariant
                i <= self.entries@.len(),
                forall|j: int| 0 <= j < i ==> (#[trigger] self.entries@[j])@ != name@,
            decreases self.entries@.len() - i,
        {
            if same(self.entries[i].as_str(), name) {
                return Some(i);
            }
            i += 1;
        }
        None
    }

    pub fn contains(&self, name: &str) -> (contains: bool)
        ensures
            contains == self@.contains(name@),
    {
        self.position(name).is_some()
    }

    /// Adds a name. Returns false if it was there.
    pub fn insert(&mut self, name: String) -> (added: bool)
        requires
            old(self).wf(),
        ensures
            final(self).wf(),
            added == !old(self)@.contains(name@),
            final(self)@ == old(self)@.insert(name@),
    {
        if self.position(name.as_str()).is_some() {
            assert(self@ =~= old(self)@.insert(name@));
            return false;
        }
        let ghost before = *self;
        let ghost text = name@;
        self.entries.push(name);
        proof {
            assert forall|other: Seq<char>| self.holds(other) == (before.holds(other) || other
                == text) by {
                if before.holds(other) {
                    let i = choose|i: int|
                        0 <= i < before.entries@.len() && (#[trigger] before.entries@[i])@ == other;
                    assert(self.entries@[i]@ == other);
                }
                if other == text {
                    assert(self.entries@[before.entries@.len() as int]@ == other);
                }
                if self.holds(other) {
                    let i = choose|i: int|
                        0 <= i < self.entries@.len() && (#[trigger] self.entries@[i])@ == other;
                    if i < before.entries@.len() {
                        assert(before.entries@[i]@ == other);
                    }
                }
            }
            assert(self@ =~= before@.insert(text));
            assert forall|i: int, j: int| 0 <= i < j < self.entries@.len() implies (
            #[trigger] self.entries@[i])@ != (#[trigger] self.entries@[j])@ by {
                assert(before.entries@[i]@ == self.entries@[i]@);
                if j < before.entries@.len() {
                    assert(before.entries@[j]@ == self.entries@[j]@);
                }
            }
        }
        true
    }

    /// Takes a name out. Returns false if it was not there.
    pub fn remove(&mut self, name: &str) -> (removed: bool)
        requires
            old(self).wf(),
        ensures
            final(self).wf(),
            removed == old(self)@.contains(name@),
            final(self)@ == old(self)@.remove(name@),
    {
        match self.position(name) {
            None => {
                assert(self@ =~= old(self)@.remove(name@));
                false
            },
            Some(at) => {
                let ghost before = *self;
                let _ = self.entries.remove(at);
                proof {
                    assert forall|other: Seq<char>| self.holds(other) == (before.holds(other)
                        && other != name@) by {
                        if before.holds(other) && other != name@ {
                            let i = choose|i: int|
                                0 <= i < before.entries@.len() && (#[trigger] before.entries@[i])@
                                    == other;
                            if i < at {
                                assert(self.entries@[i]@ == other);
                            } else {
                                assert(self.entries@[i - 1]@ == other);
                            }
                        }
                        if self.holds(other) {
                            let i = choose|i: int|
                                0 <= i < self.entries@.len() && (#[trigger] self.entries@[i])@
                                    == other;
                            if i < at {
                                assert(before.entries@[i]@ == other);
                            } else {
                                assert(before.entries@[i + 1]@ == other);
                            }
                        }
                    }
                    assert(self@ =~= before@.remove(name@));
                    assert forall|i: int, j: int| 0 <= i < j < self.entries@.len() implies (
                    #[trigger] self.entries@[i])@ != (#[trigger] self.entries@[j])@ by {
                        let left = if i < at {
                            i
                        } else {
                            i + 1
                        };
                        let right = if j < at {
                            j
                        } else {
                            j + 1
                        };
                        assert(before.entries@[left]@ != before.entries@[right]@);
                    }
                }
                true
            },
        }
    }
}

/// The level one application was given.
#[derive(Debug)]
pub struct AppGain {
    pub bundle: String,
    /// Millionths of full level.
    pub gain: i64,
}

/// Per-application levels, one for each bundle identifier.
#[derive(Debug)]
pub struct AppGains {
    pub entries: Vec<AppGain>,
}

impl AppGains {
    pub open spec fn is_at(self, bundle: Seq<char>, index: int) -> bool {
        0 <= index < self.entries@.len() && self.entries@[index].bundle@ == bundle
    }

    pub open spec fn holds(self, bundle: Seq<char>) -> bool {
        exists|i: int| #[trigger] self.is_at(bundle, i)
    }

    pub open spec fn view(self) -> Map<Seq<char>, i64> {
        Map::new(
            |bundle: Seq<char>| self.holds(bundle),
            |bundle: Seq<char>| self.entries@[choose|i: int| #[trigger] self.is_at(bundle, i)].gain,
        )
    }

    pub open spec fn wf(self) -> bool {
        forall|bundle: Seq<char>, i: int, j: int|
            #[trigger] self.is_at(bundle, i) && #[trigger] self.is_at(bundle, j) ==> i == j
    }

    pub fn new() -> (gains: Self)
        ensures
            gains.wf(),
            gains@ == Map::<Seq<char>, i64>::empty(),
    {
        let gains = AppGains { entries: Vec::new() };
        assert(gains@ =~= Map::<Seq<char>, i64>::empty());
        gains
    }

    fn position(&self, bundle: &str) -> (found: Option<usize>)
        ensures
            match found {
                Some(i) => self.is_at(bundle@, i as int),
                None => !self.holds(bundle@),
            },
    {
        let mut i: usize = 0;
        while i < self.entries.len()
            invariant
                i <= self.entries@.len(),
                forall|j: int| 0 <= j < i ==> !#[trigger] self.is_at(bundle@, j),
            decreases self.entries@.len() - i,
        {
            if same(self.entries[i].bundle.as_str(), bundle) {
                return Some(i);
            }
            i += 1;
        }
        None
    }

    pub fn get(&self, bundle: &str) -> (gain: Option<i64>)
        requires
            self.wf(),
        ensures
            gain == (if self@.contains_key(bundle@) {
                Some(self@[bundle@])
            } else {
                None
            }),
    {
        match self.position(bundle) {
            Some(i) => {
                assert(self.holds(bundle@));
                Some(self.entries[i].gain)
            },
            None => None,
        }
    }

    /// Gives an application a level, in place of the one it had.
    pub fn insert(&mut self, bundle: String, gain: i64)
        requires
            old(self).wf(),
        ensures
            final(self).wf(),
            final(self)@ == old(self)@.insert(bundle@, gain),
    {
        let ghost before = *self;
        let ghost text = bundle@;
        match self.position(bundle.as_str()) {
            Some(at) => {
                self.entries.set(at, AppGain { bundle, gain });
                proof {
                    assert forall|other: Seq<char>, i: int| #[trigger]
                        self.is_at(other, i) == before.is_at(other, i) by {}
                    self.lemma_inserted(before, text, gain, at as int);
                }
            },
            None => {
                self.entries.push(AppGain { bundle, gain });
                proof {
                    let at = before.entries@.len() as int;
                    assert forall|other: Seq<char>, i: int| #[trigger]
                        self.is_at(other, i) == (before.is_at(other, i) || (i == at && other
                            == text)) by {}
                    assert forall|other: Seq<char>, i: int, j: int| #[trigger]
                        self.is_at(other, i) && #[trigger] self.is_at(other, j) implies i == j by {
                        if i == at && j != at {
                            assert(before.is_at(text, j));
                        }
                        if j == at && i != at {
                            assert(before.is_at(text, i));
                        }
                    }
                    self.lemma_inserted(before, text, gain, at);
                }
            },
        }
    }

    /// The entry at `at` gives `bundle` its level and every other stands as it
    /// stood.
    proof fn lemma_inserted(self, before: AppGains, bundle: Seq<char>, gain: i64, at: int)
        requires
            self.wf(),
            before.wf(),
            self.is_at(bundle, at),
            self.entries@[at].gain == gain,
            forall|other: Seq<char>, i: int| #[trigger]
                self.is_at(other, i) == (before.is_at(other, i) || (i == at && other == bundle)),
            forall|i: int|
                0 <= i < before.entries@.len() && i != at ==> self.entries@[i]
                    == #[trigger] before.entries@[i],
        ensures
            self@ == before@.insert(bundle, gain),
    {
        let after = before@.insert(bundle, gain);
        assert forall|other: Seq<char>| self@.contains_key(other) == after.contains_key(other) by {
            if before.holds(other) {
                let i = choose|i: int| #[trigger] before.is_at(other, i);
                assert(self.is_at(other, i));
            }
            if self.holds(other) {
                let i = choose|i: int| #[trigger] self.is_at(other, i);
                assert(before.is_at(other, i) || other == bundle);
            }
        }
        assert forall|other: Seq<char>| self@.contains_key(other) implies self@[other]
            == after[other] by {
            let i = choose|i: int| #[trigger] self.is_at(other, i);
            if other == bundle {
                assert(i == at);
            } else {
                assert(before.is_at(other, i));
                let k = choose|k: int| #[trigger] before.is_at(other, k);
                assert(k == i);
                assert(i != at);
            }
        }
        assert(self@ =~= after);
    }
}

// --- the equaliser ----------------------------------------------------------

#[derive(Debug)]
pub struct EqConfig {
    pub enabled: bool,
    pub auto_preamp: bool,
    pub preamp: i32,
    /// One per band. A file with the wrong number of them is padded or
    /// truncated rather than rejected, so a build with more bands can still
    /// read a file written by one with fewer.
    pub gains: Vec<i32>,
    /// The preset id, or `manual` once the bands have been moved by hand.
    pub preset: String,
}

impl EqConfig {
    /// Records `settings` under the name of a preset.
    pub open spec fn records(self, settings: Settings, preset: Seq<char>) -> bool {
        &&& self.enabled == settings.enabled
        &&& self.auto_preamp == settings.auto_preamp
        &&& self.preamp == settings.preamp
        &&& self.gains@ == settings.gains@
        &&& self.preset@ == preset
    }

    /// What `settings` holds when read from this record: the bands that are
    /// missing are flat, and those beyond the last are left out.
    pub open spec fn reads_as(self, settings: Settings) -> bool {
        &&& settings.enabled == self.enabled
        &&& settings.auto_preamp == self.auto_preamp
        &&& settings.preamp == self.preamp
        &&& forall|band: int|
            0 <= band < BAND_COUNT ==> #[trigger] settings.gains@[band] == (if band
                < self.gains@.len() {
                self.gains@[band]
            } else {
                0
            })
    }

    pub fn from(settings: &Settings, preset: &str) -> (config: Self)
        ensures
            config.records(*settings, preset@),
    {
        let mut gains: Vec<i32> = Vec::new();
        let mut band: usize = 0;
        while band < BAND_COUNT
            invariant
                band <= BAND_COUNT,
                gains@ == settings.gains@.take(band as int),
            decreases BAND_COUNT - band,
        {
            gains.push(settings.gains[band]);
            assert(gains@ =~= settings.gains@.take(band + 1));
            band += 1;
        }
        assert(gains@ =~= settings.gains@);
        EqConfig {
            enabled: settings.enabled,
            auto_preamp: settings.auto_preamp,
            preamp: settings.preamp,
            gains,
            preset: preset.to_owned(),
        }
    }

    /// The engine's view of these settings. Out-of-range values are clamped by
    /// the equaliser itself, so a hand-edited file cannot ask for a gain the
    /// unit will not take.
    pub fn settings(&self) -> (settings: Settings)
        ensures
            self.reads_as(settings),
    {
        let mut gains = FLAT;
        let mut band: usize = 0;
        while band < BAND_COUNT && band < self.gains.len()
            invariant
                band <= BAND_COUNT,
                band <= self.gains@.len(),
                forall|i: int| 0 <= i < band ==> #[trigger] gains@[i] == self.gains@[i],
                forall|i: int| band <= i < BAND_COUNT ==> #[trigger] gains@[i] == 0,
            decreases BAND_COUNT - band,
        {
            gains[band] = self.gains[band];
            band += 1;
        }
        Settings {
            enabled: self.enabled,
            gains,
            preamp: self.preamp,
            auto_preamp: self.auto_preamp,
        }
    }
}

impl Default for EqConfig {
    fn default() -> (config: Self)
        ensures
            config.enabled == Settings::starting().enabled,
            config.auto_preamp == Settings::starting().auto_preamp,
            config.preamp == Settings::starting().preamp,
            config.gains@ == Settings::starting().gains@,
            config.preset@ == MANUAL@,
    {
        EqConfig::from(&Settings::default(), MANUAL)
    }
}

/// Settings that were recorded read back as they were.
pub proof fn law_recorded_settings_read_back(
    config: EqConfig,
    settings: Settings,
    preset: Seq<char>,
    read: Settings,
)
    requires
        config.records(settings, preset),
        config.reads_as(read),
    ensures
        read.enabled == settings.enabled,
        read.auto_preamp == settings.auto_preamp,
        read.preamp == settings.preamp,
        read.gains@ == settings.gains@,
{
    assert(read.gains@ =~= settings.gains@);
}

// --- the file ---------------------------------------------------------------

#[derive(Debug)]
pub struct Config {
    pub version: u32,
    /// The hardware the route was last playing to, by UID. Object IDs are
    /// reassigned every boot and names change; the UID identifies the same
    /// physical device across both.
    pub target_uid: Option<String>,
    /// Master volume, in millionths of full level.
    pub volume: u32,
    /// Whether audio goes through the route. On unless bypassed in Settings:
    /// the route is what the equaliser and the volume control on outputs
    /// without one of their own depend on.
    pub routing: bool,
    /// Restored as it was left. It costs a process tap, and therefore the
    /// system-audio-recording prompt, but only for someone who had the mixer
    /// switched on when they quit.
    pub mixing: bool,
    pub eq: EqConfig,
    /// Display cards opened far enough to show brightness and resolution,
    /// keyed by stable hardware identity rather than the current display id.
    pub open_displays: Names,
    /// Whether the Sound card shows its volume control and advanced disclosure.
    pub sound_open: bool,
    /// Per-application gains, keyed by bundle identifier. Processes do not
    /// survive a relaunch; their bundle IDs do.
    pub app_gains: AppGains,
    /// Set when the offer to install the audio driver was declined, so the
    /// launch that follows does not ask again.
    pub driver_prompt_declined: bool,
}

impl Config {
    pub open spec fn wf(self) -> bool {
        self.open_displays.wf() && self.app_gains.wf()
    }

    /// The settings of a first launch, but for the device remembered.
    pub open spec fn untouched(self) -> bool {
        &&& self.wf()
        &&& self.version == VERSION
        &&& self.volume == UNITY
        &&& self.routing
        &&& !self.mixing
        &&& self.eq.records(Settings::starting(), MANUAL@)
        &&& self.open_displays@ == Set::<Seq<char>>::empty()
        &&& !self.sound_open
        &&& self.app_gains@ == Map::<Seq<char>, i64>::empty()
        &&& !self.driver_prompt_declined
    }
}

impl Default for Config {
    fn default() -> (config: Self)
        ensures
            config.untouched(),
            config.target_uid is None,
    {
        Config {
            version: VERSION,
            target_uid: None,
            volume: UNITY,
            routing: true,
            mixing: false,
            eq: EqConfig::default(),
            open_displays: Names::new(),
            sound_open: false,
            app_gains: AppGains::new(),
            driver_prompt_declined: false,
        }
    }
}

/// The characters with the Unicode property `White_Space`.
pub open spec fn white_space(ch: char) -> bool {
    let code = ch as u32;
    ||| 0x09 <= code <= 0x0D
    ||| code == 0x20
    ||| code == 0x85
    ||| code == 0xA0
    ||| code == 0x1680
    ||| 0x2000 <= code <= 0x200A
    ||| code == 0x2028
    ||| code == 0x2029
    ||| code == 0x202F
    ||| code == 0x205F
    ||| code == 0x3000
}

fn is_white_space(ch: char) -> (is: bool)
    ensures
        is == white_space(ch),
{
    let code: u32 = ch as u32;
    (0x09 <= code && code <= 0x0D) || code == 0x20 || code == 0x85 || code == 0xA0 || code == 0x1680
        || (0x2000 <= code && code <= 0x200A) || code == 0x2028 || code == 0x2029 || code == 0x202F
        || code == 0x205F || code == 0x3000
}

/// `text` without the white space at its ends.
pub open spec fn trimmed(text: Seq<char>) -> Seq<char>
    decreases text.len(),
{
    if text.len() == 0 {
        text
    } else if white_space(text.last()) {
        trimmed(text.drop_last())
    } else if white_space(text.first()) {
        trimmed(text.drop_first())
    } else {
        text
    }
}

/// `text` without the white space at its ends.
pub fn trim(text: &str) -> (bare: Vec<char>)
    ensures
        bare@ == trimmed(text@),
{
    let chars = characters(text);
    let mut from: usize = 0;
    let mut to: usize = chars.len();
    assert(chars@.subrange(0, to as int) =~= chars@);
    while from < to && (is_white_space(chars[to - 1]) || is_white_space(chars[from]))
        invariant
            from <= to <= chars@.len(),
            trimmed(chars@.subrange(from as int, to as int)) == trimmed(chars@),
        decreases to - from,
    {
        let ghost rest = chars@.subrange(from as int, to as int);
        if is_white_space(chars[to - 1]) {
            to -= 1;
            assert(rest.drop_last() =~= chars@.subrange(from as int, to as int));
        } else {
            from += 1;
            assert(rest.drop_first() =~= chars@.subrange(from as int, to as int));
        }
    }
    let ghost rest = chars@.subrange(from as int, to as int);
    assert(trimmed(rest) == rest);
    let mut kept: Vec<char> = Vec::new();
    let mut i: usize = from;
    while i < to
        invariant
            from <= i <= to <= chars@.len(),
            kept@ == chars@.subrange(from as int, i as int),
        decreases to - i,
    {
        kept.push(chars[i]);
        assert(kept@ =~= chars@.subrange(from as int, i + 1));
        i += 1;
    }
    kept
}

impl Config {
    /// The first build that persisted anything wrote a bare UID to a file of
    /// its own. Reading it here means an upgrade keeps the device it was using.
    pub fn migrated(uid: Option<&str>) -> (config: Self)
        ensures
            config.untouched(),
            match uid {
                Some(uid) => if trimmed(uid@).len() == 0 {
                    config.target_uid is None
                } else {
                    config.target_uid matches Some(kept) && kept@ == trimmed(uid@)
                },
                None => config.target_uid is None,
            },
    {
        let mut config = Config::default();
        match uid {
            Some(uid) => {
                let bare = trim(uid);
                if bare.len() > 0 {
                    config.target_uid = Some(text_of(bare.as_slice()));
                }
            },
            None => {},
        }
        config
    }

    /// The settings of a launch: what was read, or what an older build left
    /// behind where nothing could be. `reachable` is whether there is a place to
    /// read them from at all.
    pub fn load(reachable: bool, read: Option<Config>, legacy_uid: Option<&str>) -> (config: Self)
        requires
            read matches Some(config) ==> config.wf(),
        ensures
            config.wf(),
            !reachable ==> config.untouched() && config.target_uid is None,
            reachable ==> match read {
                Some(read) => config == read,
                None => {
                    &&& config.untouched()
                    &&& match legacy_uid {
                        Some(uid) => if trimmed(uid@).len() == 0 {
                            config.target_uid is None
                        } else {
                            config.target_uid matches Some(kept) && kept@ == trimmed(uid@)
                        },
                        None => config.target_uid is None,
                    }
                },
            },
    {
        if !reachable {
            return Config::default();
        }
        match read {
            Some(config) => config,
            None => Config::migrated(legacy_uid),
        }
    }
}

// --- what holds of what is kept ---------------------------------------------

/// A name that was put in is there until it is taken out; others are not
/// touched.
pub proof fn law_a_name_stays_until_it_is_taken_out(
    fresh: Names,
    nothing: bool,
    names: &mut Names,
    name: String,
    added: bool,
    other: &str,
    before: bool,
    after: bool,
    then: &mut Names,
    text: &str,
    removed: bool,
    last: bool,
    was: bool,
)
    requires
        call_ensures(Names::new, (), fresh),
        call_ensures(Names::contains, (&fresh, other), nothing),
        old(names).wf(),
        text@ == name@,
        call_ensures(Names::contains, (&*old(names), text), was),
        call_ensures(Names::contains, (&*old(names), other), before),
        call_ensures(Names::insert, (names, name), added),
        call_ensures(Names::contains, (&*final(names), other), after),
        *old(then) == *final(names),
        call_ensures(Names::remove, (then, text), removed),
        call_ensures(Names::contains, (&*final(then), other), last),
    ensures
        !nothing,
        added == !was,
        after <==> before || other@ == name@,
        removed,
        last <==> before && other@ != name@,
{
}

/// A level that was put in is there until another is; other bundles keep theirs.
pub proof fn law_a_level_stays_until_another_is_set(
    fresh: AppGains,
    nothing: Option<i64>,
    gains: &mut AppGains,
    bundle: String,
    gain: i64,
    other: &str,
    before: Option<i64>,
    after: Option<i64>,
)
    requires
        call_ensures(AppGains::new, (), fresh),
        call_ensures(AppGains::get, (&fresh, other), nothing),
        old(gains).wf(),
        call_ensures(AppGains::get, (&*old(gains), other), before),
        call_ensures(AppGains::insert, (gains, bundle, gain), ()),
        call_ensures(AppGains::get, (&*final(gains), other), after),
    ensures
        nothing is None,
        after == (if other@ == bundle@ {
            Some(gain)
        } else {
            before
        }),
{
}

/// Settings that were recorded are read as they were; a band that is not on
/// record is flat.
pub proof fn law_recorded_settings_are_read_as_they_were(
    settings: Settings,
    preset: &str,
    record: EqConfig,
    read: Settings,
    short: EqConfig,
    filled: Settings,
    band: int,
)
    requires
        call_ensures(EqConfig::from, (&settings, preset), record),
        call_ensures(EqConfig::settings, (&record,), read),
        call_ensures(EqConfig::settings, (&short,), filled),
        0 <= band < 10,
    ensures
        read.enabled == settings.enabled,
        read.auto_preamp == settings.auto_preamp,
        read.preamp == settings.preamp,
        read.gains@[band] == settings.gains@[band],
        record.preset@ == preset@,
        record.gains@.len() == 10,
        band < short.gains@.len() ==> filled.gains@[band] == short.gains@[band],
        band >= short.gains@.len() ==> filled.gains@[band] == 0,
        filled.enabled == short.enabled && filled.auto_preamp == short.auto_preamp
            && filled.preamp == short.preamp,
{
    assert(read.gains@[band] == read.gains@[band]);
    assert(filled.gains@[band] == filled.gains@[band]);
}

/// What counts as blank around a name.
pub open spec fn blank(ch: char) -> bool {
    let code = ch as int;
    ||| ch == '\t' || ch == '\n' || ch == '\r' || ch == ' '
    ||| code == 11 || code == 12 || code == 133 || code == 160
    ||| code == 5_760 || 8_192 <= code <= 8_202
    ||| code == 8_232 || code == 8_233 || code == 8_239 || code == 8_287 || code == 12_288
}

proof fn lemma_blank(ch: char)
    ensures
        white_space(ch) == blank(ch),
{
}

proof fn lemma_trimmed(text: Seq<char>, from: int, to: int)
    requires
        0 <= from <= to <= text.len(),
        forall|i: int| 0 <= i < from ==> blank(#[trigger] text[i]),
        forall|i: int| to <= i < text.len() ==> blank(#[trigger] text[i]),
        from < to ==> !blank(text[from]) && !blank(text[to - 1]),
    ensures
        trimmed(text) == text.subrange(from, to),
    decreases text.len(),
{
    if text.len() > 0 {
        lemma_blank(text[0]);
        lemma_blank(text[text.len() - 1]);
    }
    if text.len() == 0 {
        assert(text.subrange(from, to) =~= text);
    } else if white_space(text.last()) {
        let rest = text.drop_last();
        assert(to < text.len() || from == to) by {
            if to == text.len() && from < to {
                assert(!blank(text[to - 1]));
            }
        }
        let from2 = if from > rest.len() {
            rest.len() as int
        } else {
            from
        };
        let to2 = if to > rest.len() {
            rest.len() as int
        } else {
            to
        };
        assert(forall|i: int| 0 <= i < rest.len() ==> rest[i] == #[trigger] text[i]);
        lemma_trimmed(rest, from2, to2);
        assert(text.subrange(from, to) =~= rest.subrange(from2, to2));
    } else if white_space(text.first()) {
        assert(blank(text[0]));
        assert(to == text.len()) by {
            if to < text.len() {
                assert(blank(text[text.len() - 1]));
            }
        }
        let rest = text.drop_first();
        assert(from > 0) by {
            if from == 0 && from < to {
                assert(!blank(text[from]));
            }
        }
        assert(forall|i: int| 0 <= i < rest.len() ==> #[trigger] rest[i] == text[i + 1]);
        lemma_trimmed(rest, from - 1, to - 1);
        assert(text.subrange(from, to) =~= rest.subrange(from - 1, to - 1));
    } else {
        assert(from == 0) by {
            if from > 0 {
                assert(blank(text[0]));
            }
        }
        assert(to == text.len()) by {
            if to < text.len() {
                assert(blank(text[text.len() - 1]));
            }
        }
        assert(text.subrange(from, to) =~= text);
    }
}

/// Trimming takes the blanks off both ends, and nothing else.
pub proof fn law_trimming_takes_off_the_blanks(text: &str, bare: Vec<char>, from: int, to: int)
    requires
        call_ensures(trim, (text,), bare),
        0 <= from <= to <= text@.len(),
        forall|i: int| 0 <= i < from ==> blank(#[trigger] text@[i]),
        forall|i: int| to <= i < text@.len() ==> blank(#[trigger] text@[i]),
        from < to ==> !blank(text@[from]) && !blank(text@[to - 1]),
    ensures
        bare@ == text@.subrange(from, to),
{
    lemma_trimmed(text@, from, to);
}

/// Untouched settings: the equaliser on and flat, the route on, the mixer off, a
/// whole volume, nothing opened, remembered or turned down.
pub open spec fn is_untouched(config: Config) -> bool {
    &&& config.version == 1
    &&& config.volume == 1_000_000
    &&& config.routing && !config.mixing
    &&& config.eq.enabled && config.eq.auto_preamp
    &&& config.eq.preamp == 0
    &&& config.eq.gains@ == seq![0i32, 0, 0, 0, 0, 0, 0, 0, 0, 0]
    &&& config.eq.preset@ == "manual"@
    &&& forall|name: Seq<char>| !#[trigger] config.open_displays@.contains(name)
    &&& forall|bundle: Seq<char>| !#[trigger] config.app_gains@.contains_key(bundle)
    &&& !config.sound_open && !config.driver_prompt_declined
}

proof fn lemma_untouched(config: Config)
    requires
        config.untouched(),
    ensures
        is_untouched(config),
{
    assert(config.eq.gains@ =~= seq![0i32, 0, 0, 0, 0, 0, 0, 0, 0, 0]);
}

/// A settings file is taken as it was read. Where there is none, the settings
/// are untouched but for the output an earlier release remembered; where none
/// can be reached, they are untouched.
pub proof fn law_settings_are_loaded_or_untouched(
    reachable: bool,
    read: Option<Config>,
    legacy: Option<&str>,
    loaded: Config,
    bare: Vec<char>,
)
    requires
        read matches Some(config) ==> config.wf(),
        call_ensures(Config::load, (reachable, read, legacy), loaded),
        legacy matches Some(uid) ==> call_ensures(trim, (uid,), bare),
    ensures
        reachable && read is Some ==> loaded == read->0,
        !reachable || read is None ==> is_untouched(loaded),
        !reachable ==> loaded.target_uid is None,
        reachable && read is None && (legacy is None || bare@.len() == 0)
            ==> loaded.target_uid is None,
        reachable && read is None && legacy is Some && bare@.len() > 0 ==> loaded.target_uid is Some
            && (loaded.target_uid->0)@ == bare@,
{
    if !reachable || read is None {
        lemma_untouched(loaded);
    }
}

/// An output remembered by an earlier release is the only thing a migration
/// takes over.
pub proof fn law_a_migration_takes_over_the_output(uid: Option<&str>, config: Config, bare: Vec<char>)
    requires
        call_ensures(Config::migrated, (uid,), config),
        uid matches Some(uid) ==> call_ensures(trim, (uid,), bare),
    ensures
        is_untouched(config),
        uid is None || bare@.len() == 0 ==> config.target_uid is None,
        uid is Some && bare@.len() > 0 ==> config.target_uid is Some && (config.target_uid->0)@
            == bare@,
{
    lemma_untouched(config);
}

/// Settings that nobody touched.
pub proof fn law_fresh_settings_are_untouched(config: Config, eq: EqConfig)
    requires
        call_ensures(Config::default, (), config),
        call_ensures(EqConfig::default, (), eq),
    ensures
        is_untouched(config),
        config.target_uid is None,
        eq.enabled && eq.auto_preamp && eq.preamp == 0,
        eq.gains@ == seq![0i32, 0, 0, 0, 0, 0, 0, 0, 0, 0],
        eq.preset@ == "manual"@,
{
    lemma_untouched(config);
    assert(eq.gains@ =~= seq![0i32, 0, 0, 0, 0, 0, 0, 0, 0, 0]);
}

} // verus!
