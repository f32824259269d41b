//! Ten-band equaliser model: gains, presets, and the ramp that stops preset
//! changes from clicking.
//!
//! Pure state: nothing here talks to an audio unit. Levels are whole
//! micro-decibels, a millionth of a decibel each.

use vstd::prelude::*;

use crate::text::same;

verus! {

pub const BAND_COUNT: usize = 10;

/// The centre of each band, in hertz.
pub const FREQUENCIES: [u32; 10] = [
    32,
    64,
    125,
    250,
    500,
    1_000,
    2_000,
    4_000,
    8_000,
    16_000,
];

/// One decibel.
pub const DECIBEL: i32 = 1_000_000;

/// The audio unit accepts less than -24 dB. The faders stop at 24 dB either way
/// so a fader's travel means the same thing in both directions.
pub const GAIN_LOWEST: i32 = -24_000_000;

pub const GAIN_HIGHEST: i32 = 24_000_000;

/// The preamp reaches much further down than up.
///
/// Down, because auto-preamp subtracts from it: a bank of +24 dB boosts has to
/// be able to pull the level back below unity. Up is capped at +5 dB
/// deliberately: the preamp lifts every band at once, so it runs out of
/// headroom far faster than a single band does, and a boost applied to a signal
/// that is already near full scale is what drives an amplifier into clipping.
pub const PREAMP_LOWEST: i32 = -96_000_000;

pub const PREAMP_HIGHEST: i32 = 5_000_000;

pub type Gains = [i32; 10];

pub const FLAT: Gains = [0, 0, 0, 0, 0, 0, 0, 0, 0, 0];

// --- settings ---------------------------------------------------------------

/// Everything the EQ needs to be reconstructed.
#[derive(Clone, Copy, Debug)]
pub struct Settings {
    pub enabled: bool,
    pub gains: Gains,
    pub preamp: i32,
    /// Pull the preamp down by the loudest band, so boosting cannot clip.
    pub auto_preamp: bool,
}

pub open spec fn clamp(value: int, lowest: int, highest: int) -> int {
    if value < lowest {
        lowest
    } else if value > highest {
        highest
    } else {
        value
    }
}

fn clamped_level(value: i64, lowest: i32, highest: i32) -> (level: i32)
    requires
        lowest <= highest,
    ensures
        level == clamp(value as int, lowest as int, highest as int),
{
    if value < lowest as i64 {
        lowest
    } else if value > highest as i64 {
        highest
    } else {
        value as i32
    }
}

/// The loudest boost among some gains; zero when nothing is boosted.
pub open spec fn loudest(gains: Seq<i32>) -> int
    decreases gains.len(),
{
    if gains.len() == 0 {
        0
    } else {
        let before = loudest(gains.drop_last());
        if before < gains.last() {
            gains.last() as int
        } else {
            before
        }
    }
}

proof fn lemma_loudest(gains: Seq<i32>)
    ensures
        0 <= loudest(gains) <= i32::MAX,
        forall|i: int| 0 <= i < gains.len() ==> (#[trigger] gains[i]) <= loudest(gains),
        loudest(gains) == 0 || exists|i: int|
            0 <= i < gains.len() && (#[trigger] gains[i]) == loudest(gains),
    decreases gains.len(),
{
    if gains.len() > 0 {
        let rest = gains.drop_last();
        lemma_loudest(rest);
        assert forall|i: int| 0 <= i < gains.len() implies (#[trigger] gains[i]) <= loudest(
            gains,
        ) by {
            if i < rest.len() {
                assert(rest[i] == gains[i]);
            }
        }
        if loudest(gains) != 0 && loudest(gains) != gains.last() {
            let i = choose|i: int| 0 <= i < rest.len() && (#[trigger] rest[i]) == loudest(rest);
            assert(gains[i] == loudest(gains));
        } else if loudest(gains) != 0 {
            assert(gains[gains.len() - 1] == loudest(gains));
        }
    }
}

impl Settings {
    /// Every level is one that the faders can show.
    pub open spec fn in_range(self) -> bool {
        &&& PREAMP_LOWEST <= self.preamp <= PREAMP_HIGHEST
        &&& forall|band: int|
            0 <= band < BAND_COUNT ==> GAIN_LOWEST <= #[trigger] self.gains@[band] <= GAIN_HIGHEST
    }

    /// The gain that actually reaches the audio unit, auto-preamp included.
    pub open spec fn overall(self) -> int {
        clamp(
            if self.auto_preamp {
                self.preamp - loudest(self.gains@)
            } else {
                self.preamp as int
            },
            PREAMP_LOWEST as int,
            PREAMP_HIGHEST as int,
        )
    }

    pub fn global_gain(&self) -> (gain: i32)
        ensures
            gain == self.overall(),
    {
        let mut gain: i64 = self.preamp as i64;
        if self.auto_preamp {
            let mut peak: i32 = 0;
            let mut band: usize = 0;
            while band < BAND_COUNT
                invariant
                    band <= BAND_COUNT,
                    peak == loudest(self.gains@.take(band as int)),
                decreases BAND_COUNT - band,
            {
                proof {
                    lemma_loudest(self.gains@.take(band as int));
                    assert(self.gains@.take(band + 1).drop_last() == self.gains@.take(
                        band as int,
                    ));
                }
                if self.gains[band] > peak {
                    peak = self.gains[band];
                }
                band += 1;
            }
            assert(self.gains@.take(BAND_COUNT as int) == self.gains@);
            proof {
                lemma_loudest(self.gains@);
            }
            gain = gain - peak as i64;
        }
        clamped_level(gain, PREAMP_LOWEST, PREAMP_HIGHEST)
    }

    /// `to` is these settings with every level brought into range.
    pub open spec fn brought_into_range(self, to: Settings) -> bool {
        &&& to.enabled == self.enabled
        &&& to.auto_preamp == self.auto_preamp
        &&& to.preamp == clamp(self.preamp as int, PREAMP_LOWEST as int, PREAMP_HIGHEST as int)
        &&& forall|band: int|
            0 <= band < BAND_COUNT ==> (#[trigger] to.gains@[band]) == clamp(
                self.gains@[band] as int,
                GAIN_LOWEST as int,
                GAIN_HIGHEST as int,
            )
    }

    pub fn clamped(self) -> (settings: Settings)
        ensures
            self.brought_into_range(settings),
            settings.in_range(),
    {
        let mut gains: Gains = self.gains;
        let mut band: usize = 0;
        while band < BAND_COUNT
            invariant
                band <= BAND_COUNT,
                forall|i: int|
                    0 <= i < BAND_COUNT ==> (#[trigger] gains@[i]) == (if i < band {
                        clamp(self.gains@[i] as int, GAIN_LOWEST as int, GAIN_HIGHEST as int)
                    } else {
                        self.gains@[i] as int
                    }),
            decreases BAND_COUNT - band,
        {
            gains[band] = clamped_level(gains[band] as i64, GAIN_LOWEST, GAIN_HIGHEST);
            band += 1;
        }
        Settings {
            enabled: self.enabled,
            gains,
            preamp: clamped_level(self.preamp as i64, PREAMP_LOWEST, PREAMP_HIGHEST),
            auto_preamp: self.auto_preamp,
        }
    }
}

impl Settings {
    /// The settings of a first launch.
    pub open spec fn starting() -> Settings {
        Settings { enabled: true, gains: FLAT, preamp: 0, auto_preamp: true }
    }
}

impl Default for Settings {
    fn default() -> (settings: Self)
        ensures
            settings == Settings::starting(),
    {
        Settings { enabled: true, gains: FLAT, preamp: 0, auto_preamp: true }
    }
}

/// With auto-preamp on and no boost asked of the preamp itself, no band is
/// lifted above unity, whatever the faders say: boosting cannot clip.
pub proof fn law_auto_preamp_cancels_every_boost(settings: Settings, band: int)
    requires
        settings.in_range(),
        settings.auto_preamp,
        settings.preamp <= 0,
        0 <= band < BAND_COUNT,
    ensures
        settings.overall() + settings.gains@[band] <= 0,
{
    lemma_loudest(settings.gains@);
}

/// Auto-preamp leaves a bank of cuts alone.
pub proof fn law_auto_preamp_leaves_cuts_alone(settings: Settings)
    requires
        settings.in_range(),
        forall|band: int| 0 <= band < BAND_COUNT ==> (#[trigger] settings.gains@[band]) <= 0,
    ensures
        settings.overall() == settings.preamp,
{
    lemma_loudest(settings.gains@);
}

// --- presets ----------------------------------------------------------------

#[derive(Clone, Copy, Debug)]
pub struct Preset {
    pub id: &'static str,
    pub name: &'static str,
    pub gains: Gains,
}

pub const PRESET_COUNT: usize = 23;

pub const ACOUSTIC: Gains = [
    -8_300_000,
    9_800_000,
    -15_680_000,
    2_100_000,
    18_220_000,
    3_500_000,
    7_000_000,
    8_200_000,
    7_100_000,
    4_300_000,
];

pub const BASS_BOOSTER: Gains = [
    11_000_000,
    8_500_000,
    7_000_000,
    5_000_000,
    2_500_000,
    0,
    0,
    0,
    0,
    0,
];

pub const BASS_REDUCER: Gains = [
    -11_000_000,
    -8_500_000,
    -7_000_000,
    -5_000_000,
    -2_500_000,
    0,
    0,
    0,
    0,
    0,
];

pub const CLASSIC: Gains = [
    9_500_000,
    7_500_000,
    6_000_000,
    5_000_000,
    -3_000_000,
    -3_000_000,
    0,
    4_500_000,
    6_500_000,
    7_500_000,
];

pub const DANCE: Gains = [
    7_140_000,
    13_100_000,
    9_980_000,
    0,
    3_840_000,
    7_300_000,
    10_300_000,
    9_080_000,
    7_180_000,
    0,
];

pub const DEEP: Gains = [
    9_900_000,
    7_100_000,
    3_500_000,
    2_000_000,
    5_700_000,
    5_000_000,
    2_900_000,
    -4_300_000,
    -7_100_000,
    -9_200_000,
];

pub const ELECTRONIC: Gains = [
    8_500_000,
    7_600_000,
    2_400_000,
    0,
    -4_300_000,
    4_500_000,
    1_700_000,
    2_500_000,
    7_900_000,
    9_600_000,
];

pub const HIP_HOP: Gains = [
    10_000_000,
    8_500_000,
    3_000_000,
    6_000_000,
    -2_000_000,
    -2_000_000,
    3_000_000,
    -1_000_000,
    4_000_000,
    6_000_000,
];

pub const JAZZ: Gains = [
    8_000_000,
    6_000_000,
    3_000_000,
    4_500_000,
    -3_000_000,
    -3_000_000,
    0,
    3_000_000,
    6_000_000,
    7_500_000,
];

pub const LATIN: Gains = [
    9_000_000,
    6_000_000,
    0,
    0,
    -3_000_000,
    -3_000_000,
    -3_000_000,
    0,
    6_000_000,
    9_000_000,
];

pub const LOUDNESS: Gains = [
    12_000_000,
    8_000_000,
    0,
    0,
    -4_000_000,
    0,
    -2_000_000,
    -10_000_000,
    10_000_000,
    2_000_000,
];

pub const LOUNGE: Gains = [
    -6_000_000,
    -3_000_000,
    -1_000_000,
    3_000_000,
    8_000_000,
    5_000_000,
    0,
    -3_000_000,
    4_000_000,
    2_000_000,
];

pub const PIANO: Gains = [
    6_000_000,
    4_000_000,
    0,
    5_000_000,
    6_000_000,
    3_000_000,
    7_000_000,
    9_000_000,
    6_000_000,
    7_000_000,
];

pub const POP: Gains = [
    -3_000_000,
    -2_000_000,
    0,
    4_000_000,
    8_000_000,
    8_000_000,
    4_000_000,
    0,
    -2_000_000,
    -3_000_000,
];

pub const RNB: Gains = [
    5_240_000,
    13_840_000,
    11_300_000,
    2_660_000,
    -4_380_000,
    -3_000_000,
    4_640_000,
    5_300_000,
    6_000_000,
    7_500_000,
];

pub const ROCK: Gains = [
    10_000_000,
    8_000_000,
    6_000_000,
    3_000_000,
    -1_000_000,
    -2_000_000,
    1_000_000,
    5_000_000,
    7_000_000,
    9_000_000,
];

pub const SMALL_SPEAKERS: Gains = [
    11_000_000,
    8_500_000,
    7_000_000,
    5_000_000,
    2_500_000,
    0,
    -2_500_000,
    -5_000_000,
    -7_000_000,
    -8_500_000,
];

pub const SPOKEN_WORD: Gains = [
    -6_920_000,
    -940_000,
    0,
    1_380_000,
    6_920_000,
    9_220_000,
    9_680_000,
    8_560_000,
    5_080_000,
    0,
];

pub const TREBLE_BOOSTER: Gains = [
    0,
    0,
    0,
    0,
    0,
    2_500_000,
    5_000_000,
    7_000_000,
    8_500_000,
    11_000_000,
];

pub const TREBLE_REDUCER: Gains = [
    0,
    0,
    0,
    0,
    0,
    -2_500_000,
    -5_000_000,
    -7_000_000,
    -8_500_000,
    -11_000_000,
];

pub const VOCAL_BOOSTER: Gains = [
    -3_000_000,
    -6_000_000,
    -6_000_000,
    3_000_000,
    7_500_000,
    7_500_000,
    6_000_000,
    3_000_000,
    0,
    -3_000_000,
];

/// The preset table. Ordered flat-first, then alphabetically, which is how the
/// picker shows them; the label for faders that match none comes last.
pub open spec fn preset_row(index: int) -> Preset {
    if index == 0 {
        Preset { id: "flat", name: "Flat", gains: FLAT }
    } else if index == 1 {
        Preset { id: "acoustic", name: "Acoustic", gains: ACOUSTIC }
    } else if index == 2 {
        Preset { id: "bass-booster", name: "Bass Booster", gains: BASS_BOOSTER }
    } else if index == 3 {
        Preset { id: "bass-reducer", name: "Bass Reducer", gains: BASS_REDUCER }
    } else if index == 4 {
        Preset { id: "classic", name: "Classic", gains: CLASSIC }
    } else if index == 5 {
        Preset { id: "dance", name: "Dance", gains: DANCE }
    } else if index == 6 {
        Preset { id: "deep", name: "Deep", gains: DEEP }
    } else if index == 7 {
        Preset { id: "electronic", name: "Electronic", gains: ELECTRONIC }
    } else if index == 8 {
        Preset { id: "hip-hop", name: "Hip-Hop", gains: HIP_HOP }
    } else if index == 9 {
        Preset { id: "jazz", name: "Jazz", gains: JAZZ }
    } else if index == 10 {
        Preset { id: "latin", name: "Latin", gains: LATIN }
    } else if index == 11 {
        Preset { id: "loudness", name: "Loudness", gains: LOUDNESS }
    } else if index == 12 {
        Preset { id: "lounge", name: "Lounge", gains: LOUNGE }
    } else if index == 13 {
        Preset { id: "piano", name: "Piano", gains: PIANO }
    } else if index == 14 {
        Preset { id: "pop", name: "Pop", gains: POP }
    } else if index == 15 {
        Preset { id: "rnb", name: "RnB", gains: RNB }
    } else if index == 16 {
        Preset { id: "rock", name: "Rock", gains: ROCK }
    } else if index == 17 {
        Preset { id: "small-speakers", name: "Small Speakers", gains: SMALL_SPEAKERS }
    } else if index == 18 {
        Preset { id: "spoken-word", name: "Spoken Word", gains: SPOKEN_WORD }
    } else if index == 19 {
        Preset { id: "treble-booster", name: "Treble Booster", gains: TREBLE_BOOSTER }
    } else if index == 20 {
        Preset { id: "treble-reducer", name: "Treble Reducer", gains: TREBLE_REDUCER }
    } else if index == 21 {
        Preset { id: "vocal-booster", name: "Vocal Booster", gains: VOCAL_BOOSTER }
    } else {
        Preset { id: "manual", name: "Manual", gains: FLAT }
    }
}

/// The id the picker falls back to once a fader has been dragged.
pub const MANUAL: &'static str = "manual";

/// Where [`MANUAL`] stands in the table.
pub const MANUAL_INDEX: usize = 22;

pub fn preset_at(index: usize) -> (preset: Preset)
    requires
        index < PRESET_COUNT,
    ensures
        preset == preset_row(index as int),
{
    match index {
        0 => Preset { id: "flat", name: "Flat", gains: FLAT },
        1 => Preset { id: "acoustic", name: "Acoustic", gains: ACOUSTIC },
        2 => Preset { id: "bass-booster", name: "Bass Booster", gains: BASS_BOOSTER },
        3 => Preset { id: "bass-reducer", name: "Bass Reducer", gains: BASS_REDUCER },
        4 => Preset { id: "classic", name: "Classic", gains: CLASSIC },
        5 => Preset { id: "dance", name: "Dance", gains: DANCE },
        6 => Preset { id: "deep", name: "Deep", gains: DEEP },
        7 => Preset { id: "electronic", name: "Electronic", gains: ELECTRONIC },
        8 => Preset { id: "hip-hop", name: "Hip-Hop", gains: HIP_HOP },
        9 => Preset { id: "jazz", name: "Jazz", gains: JAZZ },
        10 => Preset { id: "latin", name: "Latin", gains: LATIN },
        11 => Preset { id: "loudness", name: "Loudness", gains: LOUDNESS },
        12 => Preset { id: "lounge", name: "Lounge", gains: LOUNGE },
        13 => Preset { id: "piano", name: "Piano", gains: PIANO },
        14 => Preset { id: "pop", name: "Pop", gains: POP },
        15 => Preset { id: "rnb", name: "RnB", gains: RNB },
        16 => Preset { id: "rock", name: "Rock", gains: ROCK },
        17 => Preset { id: "small-speakers", name: "Small Speakers", gains: SMALL_SPEAKERS },
        18 => Preset { id: "spoken-word", name: "Spoken Word", gains: SPOKEN_WORD },
        19 => Preset { id: "treble-booster", name: "Treble Booster", gains: TREBLE_BOOSTER },
        20 => Preset { id: "treble-reducer", name: "Treble Reducer", gains: TREBLE_REDUCER },
        21 => Preset { id: "vocal-booster", name: "Vocal Booster", gains: VOCAL_BOOSTER },
        _ => Preset { id: "manual", name: "Manual", gains: FLAT },
    }
}

/// The whole table, in the order the picker shows it.
pub fn presets() -> (table: Vec<Preset>)
    ensures
        table@ == Seq::new(PRESET_COUNT as nat, |index: int| preset_row(index)),
{
    let mut table: Vec<Preset> = Vec::new();
    while table.len() < PRESET_COUNT
        invariant
            table@.len() <= PRESET_COUNT,
            forall|i: int| 0 <= i < table@.len() ==> (#[trigger] table@[i]) == preset_row(i),
        decreases PRESET_COUNT - table@.len(),
    {
        let preset = preset_at(table.len());
        table.push(preset);
    }
    table
}

/// The length of each id, its first character, and one more where two ids share
/// both.
spec fn id_key(index: int) -> (int, char, char) {
    let id = preset_row(index).id@;
    (
        id.len() as int,
        id[0],
        if id.len() == 12 {
            id[5]
        } else if id.len() == 14 {
            id[7]
        } else {
            id[0]
        },
    )
}

proof fn lemma_id_key(index: int)
    requires
        0 <= index < PRESET_COUNT,
    ensures
        id_key(index) == (
            if index == 0 {
                (4int, 'f', 'f')
            } else if index == 1 {
                (8int, 'a', 'a')
            } else if index == 2 {
                (12int, 'b', 'b')
            } else if index == 3 {
                (12int, 'b', 'r')
            } else if index == 4 {
                (7int, 'c', 'c')
            } else if index == 5 {
                (5int, 'd', 'd')
            } else if index == 6 {
                (4int, 'd', 'd')
            } else if index == 7 {
                (10int, 'e', 'e')
            } else if index == 8 {
                (7int, 'h', 'h')
            } else if index == 9 {
                (4int, 'j', 'j')
            } else if index == 10 {
                (5int, 'l', 'l')
            } else if index == 11 {
                (8int, 'l', 'l')
            } else if index == 12 {
                (6int, 'l', 'l')
            } else if index == 13 {
                (5int, 'p', 'p')
            } else if index == 14 {
                (3int, 'p', 'p')
            } else if index == 15 {
                (3int, 'r', 'r')
            } else if index == 16 {
                (4int, 'r', 'r')
            } else if index == 17 {
                (14int, 's', 'p')
            } else if index == 18 {
                (11int, 's', 's')
            } else if index == 19 {
                (14int, 't', 'b')
            } else if index == 20 {
                (14int, 't', 'r')
            } else if index == 21 {
                (13int, 'v', 'v')
            } else {
                (6int, 'm', 'm')
            }
        ),
{
    reveal_strlit("flat");
    reveal_strlit("acoustic");
    reveal_strlit("bass-booster");
    reveal_strlit("bass-reducer");
    reveal_strlit("classic");
    reveal_strlit("dance");
    reveal_strlit("deep");
    reveal_strlit("electronic");
    reveal_strlit("hip-hop");
    reveal_strlit("jazz");
    reveal_strlit("latin");
    reveal_strlit("loudness");
    reveal_strlit("lounge");
    reveal_strlit("piano");
    reveal_strlit("pop");
    reveal_strlit("rnb");
    reveal_strlit("rock");
    reveal_strlit("small-speakers");
    reveal_strlit("spoken-word");
    reveal_strlit("treble-booster");
    reveal_strlit("treble-reducer");
    reveal_strlit("vocal-booster");
    reveal_strlit("manual");
}

/// No two presets share an id.
pub proof fn law_presets_have_unique_ids(left: int, right: int)
    requires
        0 <= left < right < PRESET_COUNT,
    ensures
        preset_row(left).id@ != preset_row(right).id@,
{
    lemma_id_key(left);
    lemma_id_key(right);
}

/// Every preset's gains are ones that the faders can show.
pub proof fn law_preset_gains_are_within_range(index: int, band: int)
    requires
        0 <= index < PRESET_COUNT,
        0 <= band < BAND_COUNT,
    ensures
        GAIN_LOWEST <= preset_row(index).gains@[band] <= GAIN_HIGHEST,
{
    lemma_preset_range(index);
}

proof fn lemma_preset_range(index: int)
    requires
        0 <= index < PRESET_COUNT,
    ensures
        forall|band: int|
            0 <= band < BAND_COUNT ==> GAIN_LOWEST <= #[trigger] preset_row(index).gains@[band]
                <= GAIN_HIGHEST,
{
}

/// Whether two banks of faders stand alike.
fn same_gains(left: &Gains, right: &Gains) -> (equal: bool)
    ensures
        equal == (left@ == right@),
{
    let mut band: usize = 0;
    while band < BAND_COUNT
        invariant
            band <= BAND_COUNT,
            forall|i: int| 0 <= i < band ==> (#[trigger] left@[i]) == right@[i],
        decreases BAND_COUNT - band,
    {
        if left[band] != right[band] {
            assert(left@[band as int] != right@[band as int]);
            return false;
        }
        band += 1;
    }
    assert(left@ =~= right@);
    true
}

/// Whether no preset has an id.
pub open spec fn names_no_preset(id: Seq<char>) -> bool {
    forall|i: int| 0 <= i < PRESET_COUNT ==> (#[trigger] preset_row(i)).id@ != id
}

/// Where the preset called `id` stands in the table.
pub fn preset_index(id: &str) -> (index: Option<usize>)
    ensures
        match index {
            Some(index) => index < PRESET_COUNT && preset_row(index as int).id@ == id@,
            None => forall|i: int|
                0 <= i < PRESET_COUNT ==> (#[trigger] preset_row(i)).id@ != id@,
        },
        index is None ==> names_no_preset(id@),
{
    let mut index: usize = 0;
    while index < PRESET_COUNT
        invariant
            index <= PRESET_COUNT,
            forall|i: int| 0 <= i < index ==> (#[trigger] preset_row(i)).id@ != id@,
        decreases PRESET_COUNT - index,
    {
        if same(preset_at(index).id, id) {
            return Some(index);
        }
        index += 1;
    }
    None
}

pub fn preset(id: &str) -> (preset: Option<Preset>)
    ensures
        match preset {
            Some(preset) => preset.id@ == id@ && exists|i: int|
                0 <= i < PRESET_COUNT && preset == #[trigger] preset_row(i),
            None => forall|i: int|
                0 <= i < PRESET_COUNT ==> (#[trigger] preset_row(i)).id@ != id@,
        },
{
    match preset_index(id) {
        Some(index) => Some(preset_at(index)),
        None => None,
    }
}

/// The picker shows row `index` for these gains: the first preset that has
/// them, or the manual label when none does.
pub open spec fn selects(gains: Seq<i32>, index: int) -> bool {
    &&& 0 <= index <= MANUAL_INDEX
    &&& forall|i: int| 0 <= i < index ==> (#[trigger] preset_row(i)).gains@ != gains
    &&& index < MANUAL_INDEX ==> preset_row(index).gains@ == gains
}

fn selected_for(gains: &Gains) -> (index: usize)
    ensures
        selects(gains@, index as int),
{
    let mut index: usize = 0;
    while index < MANUAL_INDEX
        invariant
            index <= MANUAL_INDEX,
            forall|i: int| 0 <= i < index ==> (#[trigger] preset_row(i)).gains@ != gains@,
        decreases MANUAL_INDEX - index,
    {
        if same_gains(&preset_at(index).gains, gains) {
            return index;
        }
        index += 1;
    }
    index
}

/// The preset whose gains these are, if any. Lets the picker re-select itself
/// after a restore without storing the id separately.
pub fn matching_preset(gains: &Gains) -> (preset: Option<Preset>)
    ensures
        match preset {
            Some(preset) => exists|i: int|
                selects(gains@, i) && i < MANUAL_INDEX && preset == #[trigger] preset_row(i),
            None => selects(gains@, MANUAL_INDEX as int),
        },
{
    let index: usize = selected_for(gains);
    if index < MANUAL_INDEX {
        Some(preset_at(index))
    } else {
        None
    }
}

// --- ramping ----------------------------------------------------------------

/// A transition: 500 ms at 30 frames a second, that is fifteen linear steps.
pub const RAMP_DURATION_MS: u32 = 500;

pub const RAMP_FPS: u32 = 30;

pub const RAMP_FRAMES: u32 = 15;

pub const RAMP_FRAME_MS: u32 = 33;

/// The level `frame` steps along the way from `from` to `to`, rounded towards
/// where it came from.
pub open spec fn glide(from: int, to: int, frame: int) -> int {
    if from <= to {
        from + (to - from) * frame / RAMP_FRAMES as int
    } else {
        from - (from - to) * frame / RAMP_FRAMES as int
    }
}

/// A glide never leaves the span between its ends, starts at one and stops at
/// the other, and only ever moves towards where it is headed.
pub proof fn law_a_ramp_moves_only_towards_its_target(from: int, to: int, frame: int, later: int)
    requires
        0 <= frame <= later <= RAMP_FRAMES,
    ensures
        glide(from, to, 0) == from,
        glide(from, to, RAMP_FRAMES as int) == to,
        from <= to ==> from <= glide(from, to, frame) <= glide(from, to, later) <= to,
        to <= from ==> to <= glide(from, to, later) <= glide(from, to, frame) <= from,
{
    let span = if from <= to {
        to - from
    } else {
        from - to
    };
    assert(0 <= span * frame <= span * later <= span * 15) by (nonlinear_arith)
        requires
            0 <= span,
            0 <= frame <= later <= 15,
    ;
    assert(span * 0 == 0);
}

fn glided(from: i32, to: i32, frame: u32) -> (level: i32)
    requires
        frame <= RAMP_FRAMES,
    ensures
        level == glide(from as int, to as int, frame as int),
{
    proof {
        law_a_ramp_moves_only_towards_its_target(
            from as int,
            to as int,
            frame as int,
            RAMP_FRAMES as int,
        );
    }
    let span: i64 = if from <= to {
        to as i64 - from as i64
    } else {
        from as i64 - to as i64
    };
    assert(0 <= span * frame <= span * 15) by (nonlinear_arith)
        requires
            0 <= span,
            0 <= frame <= 15,
    ;
    let travelled: u64 = (span as u64 * frame as u64) / RAMP_FRAMES as u64;
    if from <= to {
        (from as i64 + travelled as i64) as i32
    } else {
        (from as i64 - travelled as i64) as i32
    }
}

/// A linear interpolation between two settings, pulled one frame at a time.
///
/// Pulling means the caller owns the timer, so a ramp can be replaced
/// mid-flight without leaving anything behind that writes stale gains.
#[derive(Clone, Copy, Debug)]
pub struct Ramp {
    pub from: Gains,
    pub to: Gains,
    pub from_preamp: i32,
    pub to_preamp: i32,
    pub frame: u32,
}

impl Ramp {
    /// Where the ramp sits at its frame: on the way, and exactly on the target
    /// at the last one.
    pub open spec fn sits_at(self, gains: Seq<i32>, preamp: int) -> bool {
        &&& gains.len() == BAND_COUNT
        &&& preamp == glide(self.from_preamp as int, self.to_preamp as int, self.frame as int)
        &&& forall|band: int|
            0 <= band < BAND_COUNT ==> (#[trigger] gains[band]) == glide(
                self.from@[band] as int,
                self.to@[band] as int,
                self.frame as int,
            )
    }

    fn new(from: &Settings, to: &Settings) -> (ramp: Self)
        ensures
            ramp == (Ramp {
                from: from.gains,
                to: to.gains,
                from_preamp: from.preamp,
                to_preamp: to.preamp,
                frame: 0,
            }),
    {
        Ramp {
            from: from.gains,
            to: to.gains,
            from_preamp: from.preamp,
            to_preamp: to.preamp,
            frame: 0,
        }
    }

    /// Advances one frame and reports where the ramp now sits.
    fn advance(&mut self) -> (at: (Gains, i32))
        requires
            old(self).frame < RAMP_FRAMES,
        ensures
            *final(self) == (Ramp { frame: (old(self).frame + 1) as u32, ..*old(self) }),
            final(self).sits_at(at.0@, at.1 as int),
            final(self).frame == RAMP_FRAMES ==> at == (old(self).to, old(self).to_preamp),
    {
        self.frame = self.frame + 1;
        if self.finished() {
            proof {
                assert forall|from: int, to: int| #[trigger] glide(
                    from,
                    to,
                    RAMP_FRAMES as int,
                ) == to by {
                    law_a_ramp_moves_only_towards_its_target(
                        from,
                        to,
                        RAMP_FRAMES as int,
                        RAMP_FRAMES as int,
                    );
                }
            }
            return (self.to, self.to_preamp);
        }
        let mut gains: Gains = FLAT;
        let mut band: usize = 0;
        while band < BAND_COUNT
            invariant
                band <= BAND_COUNT,
                self.frame <= RAMP_FRAMES,
                forall|i: int|
                    0 <= i < band ==> (#[trigger] gains@[i]) == glide(
                        self.from@[i] as int,
                        self.to@[i] as int,
                        self.frame as int,
                    ),
            decreases BAND_COUNT - band,
        {
            gains[band] = glided(self.from[band], self.to[band], self.frame);
            band += 1;
        }
        (gains, glided(self.from_preamp, self.to_preamp, self.frame))
    }

    fn finished(&self) -> (finished: bool)
        ensures
            finished == (self.frame >= RAMP_FRAMES),
    {
        self.frame >= RAMP_FRAMES
    }
}

// --- the model ---------------------------------------------------------------

/// The equaliser's state, including any ramp in flight.
///
/// Callers read [`Equalizer::settings`] after every mutation and after every
/// [`Equalizer::tick`] that returns `true`, and push the result at whatever
/// holds the audio unit.
#[derive(Clone, Copy, Debug)]
pub struct Equalizer {
    settings: Settings,
    ramp: Option<Ramp>,
    /// What the ramp is heading for. `settings` lags it while ramping.
    target: Settings,
    /// The row of the table that the picker shows.
    selected: usize,
}

impl Equalizer {
    /// Every level is in range, a ramp in flight is headed for the target and
    /// has not arrived, and without one the settings are the target.
    pub closed spec fn wf(self) -> bool {
        &&& self.settings.in_range()
        &&& self.target.in_range()
        &&& self.selected < PRESET_COUNT
        &&& match self.ramp {
            Some(ramp) => {
                &&& ramp.frame < RAMP_FRAMES
                &&& ramp.to@ == self.target.gains@
                &&& ramp.to_preamp == self.target.preamp
                &&& PREAMP_LOWEST <= ramp.from_preamp <= PREAMP_HIGHEST
                &&& forall|band: int|
                    0 <= band < BAND_COUNT ==> GAIN_LOWEST <= #[trigger] ramp.from@[band]
                        <= GAIN_HIGHEST
            },
            None => self.settings == self.target,
        }
    }

    /// What to send to the audio unit now.
    pub closed spec fn current(self) -> Settings {
        self.settings
    }

    /// Where a running ramp is headed.
    pub closed spec fn goal(self) -> Settings {
        self.target
    }

    pub closed spec fn ramping(self) -> Option<Ramp> {
        self.ramp
    }

    /// The row of the preset table that the picker shows.
    pub closed spec fn choice(self) -> int {
        self.selected as int
    }

    /// What every equaliser keeps to, in terms of what can be seen of it.
    pub proof fn lemma_wf(self)
        requires
            self.wf(),
        ensures
            self.current().in_range(),
            self.goal().in_range(),
            0 <= self.choice() < PRESET_COUNT,
            self.ramping() is None ==> self.current() == self.goal(),
            self.ramping() matches Some(ramp) ==> ramp.frame < RAMP_FRAMES && ramp.to@
                == self.goal().gains@ && ramp.to_preamp == self.goal().preamp,
    {
    }

    /// `after` is this equaliser headed for `target`: at once, or gliding where
    /// a glide was asked for and there is any way to go.
    pub open spec fn moved(self, target: Settings, ramp: bool, after: Self) -> bool {
        &&& after.goal() == target
        &&& if ramp && target.gains@ != self.current().gains@ {
            &&& after.current() == self.current()
            &&& after.ramping() == Some(
                Ramp {
                    from: self.current().gains,
                    to: target.gains,
                    from_preamp: self.current().preamp,
                    to_preamp: target.preamp,
                    frame: 0,
                },
            )
        } else {
            after.current() == target && after.ramping() is None
        }
    }

    /// `after` is this equaliser one frame later.
    pub open spec fn ticked(self, after: Self) -> bool {
        &&& after.goal() == self.goal()
        &&& after.choice() == self.choice()
        &&& match self.ramping() {
            None => after == self,
            Some(ramp) => if ramp.frame + 1 < RAMP_FRAMES {
                let next = Ramp { frame: (ramp.frame + 1) as u32, ..ramp };
                &&& after.ramping() == Some(next)
                &&& next.sits_at(after.current().gains@, after.current().preamp as int)
                &&& after.current().enabled == self.current().enabled
                &&& after.current().auto_preamp == self.current().auto_preamp
            } else {
                after.ramping() is None && after.current() == self.goal()
            },
        }
    }

    /// `after` is this equaliser once the preset called `id` was chosen; `known`
    /// says whether there is one.
    pub open spec fn preset_chosen(
        self,
        id: Seq<char>,
        ramp: bool,
        known: bool,
        after: Self,
    ) -> bool {
        &&& known == exists|i: int| 0 <= i < PRESET_COUNT && (#[trigger] preset_row(i)).id@ == id
        &&& !known ==> after == self
        &&& known ==> preset_row(after.choice()).id@ == id
        // "Manual" is a label for whatever the faders happen to say, not a set
        // of gains to move to.
        &&& known && after.choice() == MANUAL_INDEX ==> {
            &&& after.current() == self.current()
            &&& after.goal() == self.goal()
            &&& after.ramping() == self.ramping()
        }
        &&& known && after.choice() != MANUAL_INDEX ==> self.moved(
            (Settings { gains: preset_row(after.choice()).gains, ..self.goal() }),
            ramp,
            after,
        )
    }

    /// `after` is this equaliser with one fader dragged.
    pub open spec fn band_moved(self, band: usize, gain: i32, after: Self) -> bool {
        if band >= BAND_COUNT {
            after == self
        } else {
            &&& after.ramping() is None
            &&& after.goal() == after.current()
            &&& after.current().gains@ == self.current().gains@.update(
                band as int,
                clamp(gain as int, GAIN_LOWEST as int, GAIN_HIGHEST as int) as i32,
            )
            &&& after.current().preamp == self.current().preamp
            &&& after.current().enabled == self.current().enabled
            &&& after.current().auto_preamp == self.current().auto_preamp
            &&& selects(after.current().gains@, after.choice())
        }
    }

    /// `after` is this equaliser with its preamp moved.
    pub open spec fn preamp_moved(self, preamp: i32, after: Self) -> bool {
        &&& after.ramping() is None
        &&& after.choice() == self.choice()
        &&& after.goal() == after.current()
        &&& after.current() == (Settings {
            preamp: clamp(preamp as int, PREAMP_LOWEST as int, PREAMP_HIGHEST as int) as i32,
            ..self.current()
        })
    }

    /// `after` is this equaliser with auto-preamp switched.
    pub open spec fn auto_preamp_switched(self, on: bool, after: Self) -> bool {
        &&& after.ramping() == self.ramping()
        &&& after.choice() == self.choice()
        &&& after.current() == (Settings { auto_preamp: on, ..self.current() })
        &&& after.goal() == (Settings { auto_preamp: on, ..self.goal() })
    }

    /// `after` is this equaliser switched on or off.
    pub open spec fn switched(self, on: bool, after: Self) -> bool {
        &&& after.ramping() == self.ramping()
        &&& after.choice() == self.choice()
        &&& after.current() == (Settings { enabled: on, ..self.current() })
        &&& after.goal() == (Settings { enabled: on, ..self.goal() })
    }

    pub fn new(settings: Settings) -> (equalizer: Self)
        ensures
            equalizer.wf(),
            settings.brought_into_range(equalizer.current()),
            equalizer.goal() == equalizer.current(),
            equalizer.ramping() is None,
            selects(equalizer.current().gains@, equalizer.choice()),
    {
        let settings = settings.clamped();
        let selected: usize = selected_for(&settings.gains);
        Equalizer { settings, ramp: None, target: settings, selected }
    }

    /// The gains to send to the audio unit right now: mid-ramp values while a
    /// transition is running.
    pub fn settings(&self) -> (settings: &Settings)
        ensures
            *settings == self.current(),
    {
        &self.settings
    }

    /// Where a running ramp is headed. Equals [`Self::settings`] when idle, and
    /// is what should be persisted: saving a mid-ramp value would restore a
    /// half-applied preset.
    pub fn target(&self) -> (settings: &Settings)
        ensures
            *settings == self.goal(),
    {
        &self.target
    }

    pub fn selected_preset(&self) -> (id: &'static str)
        requires
            self.wf(),
        ensures
            id == preset_row(self.choice()).id,
    {
        preset_at(self.selected).id
    }

    /// What the picker calls the preset it shows.
    pub fn selected_name(&self) -> (name: &'static str)
        requires
            self.wf(),
        ensures
            name == preset_row(self.choice()).name,
    {
        preset_at(self.selected).name
    }

    pub fn is_ramping(&self) -> (ramping: bool)
        ensures
            ramping == (self.ramping() is Some),
    {
        self.ramp.is_some()
    }

    /// Selects a preset. `ramp` glides over [`RAMP_DURATION_MS`]; without it the
    /// change lands at once, which is what a restore at launch wants.
    ///
    /// Returns false for an unknown id.
    pub fn set_preset(&mut self, id: &str, ramp: bool) -> (known: bool)
        requires
            old(self).wf(),
        ensures
            final(self).wf(),
            old(self).preset_chosen(id@, ramp, known, *final(self)),
    {
        match preset_index(id) {
            None => false,
            Some(index) => {
                self.selected = index;
                assert(preset_row(index as int).id@ == id@);
                if index != MANUAL_INDEX {
                    let mut target = self.target;
                    target.gains = preset_at(index).gains;
                    proof {
                        lemma_preset_range(index as int);
                    }
                    self.move_to(target, ramp);
                }
                true
            },
        }
    }

    /// Drags one fader. Cancels any ramp, since the user is now the authority,
    /// and drops the picker to Manual unless the result happens to be a preset.
    pub fn set_gain(&mut self, band: usize, gain: i32)
        requires
            old(self).wf(),
        ensures
            final(self).wf(),
            old(self).band_moved(band, gain, *final(self)),
    {
        if band >= BAND_COUNT {
            return ;
        }
        self.ramp = None;
        self.settings.gains[band] = clamped_level(gain as i64, GAIN_LOWEST, GAIN_HIGHEST);
        self.target = self.settings;
        self.selected = selected_for(&self.settings.gains);
    }

    pub fn set_preamp(&mut self, preamp: i32)
        requires
            old(self).wf(),
        ensures
            final(self).wf(),
            old(self).preamp_moved(preamp, *final(self)),
    {
        self.ramp = None;
        self.settings.preamp = clamped_level(preamp as i64, PREAMP_LOWEST, PREAMP_HIGHEST);
        self.target = self.settings;
    }

    pub fn set_auto_preamp(&mut self, on: bool)
        requires
            old(self).wf(),
        ensures
            final(self).wf(),
            old(self).auto_preamp_switched(on, *final(self)),
    {
        self.settings.auto_preamp = on;
        self.target.auto_preamp = on;
    }

    pub fn set_enabled(&mut self, on: bool)
        requires
            old(self).wf(),
        ensures
            final(self).wf(),
            old(self).switched(on, *final(self)),
    {
        self.settings.enabled = on;
        self.target.enabled = on;
    }

    /// Sets everything at once, e.g. restoring from disk.
    pub fn reset(&mut self, settings: Settings, ramp: bool)
        requires
            old(self).wf(),
        ensures
            final(self).wf(),
            settings.brought_into_range(final(self).goal()),
            old(self).moved(final(self).goal(), ramp, *final(self)),
            selects(final(self).goal().gains@, final(self).choice()),
    {
        self.move_to(settings.clamped(), ramp);
        self.selected = selected_for(&self.target.gains);
    }

    fn move_to(&mut self, target: Settings, ramp: bool)
        requires
            old(self).settings.in_range(),
            target.in_range(),
            old(self).selected < PRESET_COUNT,
        ensures
            final(self).wf(),
            final(self).selected == old(self).selected,
            old(self).moved(target, ramp, *final(self)),
    {
        self.target = target;
        if ramp && !same_gains(&target.gains, &self.settings.gains) {
            self.ramp = Some(Ramp::new(&self.settings, &target));
        } else {
            self.ramp = None;
            self.settings = target;
        }
    }

    /// Advances a running ramp by one frame. Call every [`RAMP_FRAME_MS`] while
    /// [`Self::is_ramping`]. Returns true when the settings changed.
    pub fn tick(&mut self) -> (changed: bool)
        requires
            old(self).wf(),
        ensures
            final(self).wf(),
            changed == (old(self).ramping() is Some),
            old(self).ticked(*final(self)),
    {
        let mut ramp: Ramp = match self.ramp {
            None => {
                return false;
            },
            Some(ramp) => ramp,
        };
        let (gains, preamp) = ramp.advance();
        proof {
            assert forall|from: int, to: int| #[trigger] glide(from, to, ramp.frame as int)
                <= (if from <= to {
                to
            } else {
                from
            }) && (if from <= to {
                from
            } else {
                to
            }) <= glide(from, to, ramp.frame as int) by {
                law_a_ramp_moves_only_towards_its_target(
                    from,
                    to,
                    ramp.frame as int,
                    ramp.frame as int,
                );
            }
        }
        self.settings.gains = gains;
        self.settings.preamp = preamp;
        if ramp.finished() {
            self.ramp = None;
            self.settings = self.target;
        } else {
            self.ramp = Some(ramp);
        }
        true
    }

    /// Jumps a running ramp to its end. For quitting, or for a second preset
    /// click that should not queue behind the first.
    pub fn finish_ramp(&mut self)
        requires
            old(self).wf(),
        ensures
            final(self).wf(),
            final(self).ramping() is None,
            final(self).current() == old(self).goal(),
            final(self).goal() == old(self).goal(),
            final(self).choice() == old(self).choice(),
    {
        if self.ramp.is_some() {
            self.ramp = None;
            self.settings = self.target;
        }
    }
}

impl Default for Equalizer {
    fn default() -> (equalizer: Self)
        ensures
            equalizer.wf(),
            equalizer.ramping() is None,
            equalizer.goal() == equalizer.current(),
            equalizer.current().gains@ == FLAT@,
            equalizer.current().preamp == 0,
            equalizer.current().enabled,
            equalizer.current().auto_preamp,
            equalizer.choice() == 0,
    {
        let equalizer = Equalizer::new(Settings::default());
        proof {
            assert(equalizer.current().gains@ =~= FLAT@);
            assert(preset_row(0).gains@ == equalizer.current().gains@);
        }
        equalizer
    }
}

/// A ramp lands exactly on its target: whoever ticks a gliding equaliser for
/// the frames that remain finds it idle there, and not before.
pub proof fn law_a_ramp_lands_exactly_on_its_target(states: Seq<Equalizer>, ramp: Ramp)
    requires
        states.len() > 0,
        states[0].wf(),
        states[0].ramping() == Some(ramp),
        states.len() == RAMP_FRAMES - ramp.frame + 1,
        forall|i: int|
            0 <= i < states.len() - 1 ==> #[trigger] states[i].ticked(states[i + 1]),
    ensures
        states.last().ramping() is None,
        states.last().current() == states[0].goal(),
        forall|i: int|
            0 <= i < states.len() - 1 ==> (#[trigger] states[i]).ramping() is Some,
{
    lemma_ramp_frames(states, ramp, states.len() - 2);
    let i = states.len() - 2;
    assert(states[i].ticked(states[i + 1]));
    assert forall|i: int| 0 <= i < states.len() - 1 implies (#[trigger] states[i]).ramping() is Some by {
        lemma_ramp_frames(states, ramp, i);
    }
}

proof fn lemma_ramp_frames(states: Seq<Equalizer>, ramp: Ramp, i: int)
    requires
        states.len() > 0,
        states[0].wf(),
        states[0].ramping() == Some(ramp),
        states.len() == RAMP_FRAMES - ramp.frame + 1,
        forall|i: int|
            0 <= i < states.len() - 1 ==> #[trigger] states[i].ticked(states[i + 1]),
        0 <= i < states.len() - 1,
    ensures
        states[i].ramping() == Some(Ramp { frame: (ramp.frame + i) as u32, ..ramp }),
        states[i].goal() == states[0].goal(),
    decreases i,
{
    if i > 0 {
        lemma_ramp_frames(states, ramp, i - 1);
        assert(states[i - 1].ticked(states[i - 1 + 1]));
    }
}

// --- what the presets are ---------------------------------------------------

/// The name and the curve that a preset is published with, band by band from the
/// lowest, in micro-decibels.
pub open spec fn published(id: Seq<char>) -> Option<(Seq<char>, Seq<int>)> {
    if id == "flat"@ {
        Some(
            (
                "Flat"@,
                seq![
                    0int,
                    0,
                    0,
                    0,
                    0,
                    0,
                    0,
                    0,
                    0,
                    0,
                ],
            ),
        )
    } else if id == "acoustic"@ {
        Some(
            (
                "Acoustic"@,
                seq![
                    -8_300_000,
                    9_800_000,
                    -15_680_000,
                    2_100_000,
                    18_220_000,
                    3_500_000,
                    7_000_000,
                    8_200_000,
                    7_100_000,
                    4_300_000,
                ],
            ),
        )
    } else if id == "bass-booster"@ {
        Some(
            (
                "Bass Booster"@,
                seq![
                    11_000_000int,
                    8_500_000,
                    7_000_000,
                    5_000_000,
                    2_500_000,
                    0,
                    0,
                    0,
                    0,
                    0,
                ],
            ),
        )
    } else if id == "bass-reducer"@ {
        Some(
            (
                "Bass Reducer"@,
                seq![
                    -11_000_000,
                    -8_500_000,
                    -7_000_000,
                    -5_000_000,
                    -2_500_000,
                    0,
                    0,
                    0,
                    0,
                    0,
                ],
            ),
        )
    } else if id == "classic"@ {
        Some(
            (
                "Classic"@,
                seq![
                    9_500_000int,
                    7_500_000,
                    6_000_000,
                    5_000_000,
                    -3_000_000,
                    -3_000_000,
                    0,
                    4_500_000,
                    6_500_000,
                    7_500_000,
                ],
            ),
        )
    } else if id == "dance"@ {
        Some(
            (
                "Dance"@,
                seq![
                    7_140_000int,
                    13_100_000,
                    9_980_000,
                    0,
                    3_840_000,
                    7_300_000,
                    10_300_000,
                    9_080_000,
                    7_180_000,
                    0,
                ],
            ),
        )
    } else if id == "deep"@ {
        Some(
            (
                "Deep"@,
                seq![
                    9_900_000int,
                    7_100_000,
                    3_500_000,
                    2_000_000,
                    5_700_000,
                    5_000_000,
                    2_900_000,
                    -4_300_000,
                    -7_100_000,
                    -9_200_000,
                ],
            ),
        )
    } else if id == "electronic"@ {
        Some(
            (
                "Electronic"@,
                seq![
                    8_500_000int,
                    7_600_000,
                    2_400_000,
                    0,
                    -4_300_000,
                    4_500_000,
                    1_700_000,
                    2_500_000,
                    7_900_000,
                    9_600_000,
                ],
            ),
        )
    } else if id == "hip-hop"@ {
        Some(
            (
                "Hip-Hop"@,
                seq![
                    10_000_000int,
                    8_500_000,
                    3_000_000,
                    6_000_000,
                    -2_000_000,
                    -2_000_000,
                    3_000_000,
                    -1_000_000,
                    4_000_000,
                    6_000_000,
                ],
            ),
        )
    } else if id == "jazz"@ {
        Some(
            (
                "Jazz"@,
                seq![
                    8_000_000int,
                    6_000_000,
                    3_000_000,
                    4_500_000,
                    -3_000_000,
                    -3_000_000,
                    0,
                    3_000_000,
                    6_000_000,
                    7_500_000,
                ],
            ),
        )
    } else if id == "latin"@ {
        Some(
            (
                "Latin"@,
                seq![
                    9_000_000int,
                    6_000_000,
                    0,
                    0,
                    -3_000_000,
                    -3_000_000,
                    -3_000_000,
                    0,
                    6_000_000,
                    9_000_000,
                ],
            ),
        )
    } else if id == "loudness"@ {
        Some(
            (
                "Loudness"@,
                seq![
                    12_000_000int,
                    8_000_000,
                    0,
                    0,
                    -4_000_000,
                    0,
                    -2_000_000,
                    -10_000_000,
                    10_000_000,
                    2_000_000,
                ],
            ),
        )
    } else if id == "lounge"@ {
        Some(
            (
                "Lounge"@,
                seq![
                    -6_000_000,
                    -3_000_000,
                    -1_000_000,
                    3_000_000,
                    8_000_000,
                    5_000_000,
                    0,
                    -3_000_000,
                    4_000_000,
                    2_000_000,
                ],
            ),
        )
    } else if id == "piano"@ {
        Some(
            (
                "Piano"@,
                seq![
                    6_000_000int,
                    4_000_000,
                    0,
                    5_000_000,
                    6_000_000,
                    3_000_000,
                    7_000_000,
                    9_000_000,
                    6_000_000,
                    7_000_000,
                ],
            ),
        )
    } else if id == "pop"@ {
        Some(
            (
                "Pop"@,
                seq![
                    -3_000_000,
                    -2_000_000,
                    0,
                    4_000_000,
                    8_000_000,
                    8_000_000,
                    4_000_000,
                    0,
                    -2_000_000,
                    -3_000_000,
                ],
            ),
        )
    } else if id == "rnb"@ {
        Some(
            (
                "RnB"@,
                seq![
                    5_240_000int,
                    13_840_000,
                    11_300_000,
                    2_660_000,
                    -4_380_000,
                    -3_000_000,
                    4_640_000,
                    5_300_000,
                    6_000_000,
                    7_500_000,
                ],
            ),
        )
    } else if id == "rock"@ {
        Some(
            (
                "Rock"@,
                seq![
                    10_000_000int,
                    8_000_000,
                    6_000_000,
                    3_000_000,
                    -1_000_000,
                    -2_000_000,
                    1_000_000,
                    5_000_000,
                    7_000_000,
                    9_000_000,
                ],
            ),
        )
    } else if id == "small-speakers"@ {
        Some(
            (
                "Small Speakers"@,
                seq![
                    11_000_000int,
                    8_500_000,
                    7_000_000,
                    5_000_000,
                    2_500_000,
                    0,
                    -2_500_000,
                    -5_000_000,
                    -7_000_000,
                    -8_500_000,
                ],
            ),
        )
    } else if id == "spoken-word"@ {
        Some(
            (
                "Spoken Word"@,
                seq![
                    -6_920_000,
                    -940_000,
                    0,
                    1_380_000,
                    6_920_000,
                    9_220_000,
                    9_680_000,
                    8_560_000,
                    5_080_000,
                    0,
                ],
            ),
        )
    } else if id == "treble-booster"@ {
        Some(
            (
                "Treble Booster"@,
                seq![
                    0int,
                    0,
                    0,
                    0,
                    0,
                    2_500_000,
                    5_000_000,
                    7_000_000,
                    8_500_000,
                    11_000_000,
                ],
            ),
        )
    } else if id == "treble-reducer"@ {
        Some(
            (
                "Treble Reducer"@,
                seq![
                    0int,
                    0,
                    0,
                    0,
                    0,
                    -2_500_000,
                    -5_000_000,
                    -7_000_000,
                    -8_500_000,
                    -11_000_000,
                ],
            ),
        )
    } else if id == "vocal-booster"@ {
        Some(
            (
                "Vocal Booster"@,
                seq![
                    -3_000_000,
                    -6_000_000,
                    -6_000_000,
                    3_000_000,
                    7_500_000,
                    7_500_000,
                    6_000_000,
                    3_000_000,
                    0,
                    -3_000_000,
                ],
            ),
        )
    } else if id == "manual"@ {
        Some(
            (
                "Manual"@,
                seq![
                    0int,
                    0,
                    0,
                    0,
                    0,
                    0,
                    0,
                    0,
                    0,
                    0,
                ],
            ),
        )
    } else {
        None
    }
}

/// Levels as numbers.
pub open spec fn levels(gains: Seq<i32>) -> Seq<int> {
    gains.map_values(|gain: i32| gain as int)
}

proof fn lemma_levels(left: Seq<i32>, right: Seq<i32>)
    ensures
        levels(left) == levels(right) ==> left == right,
{
    if levels(left) == levels(right) {
        assert(levels(left).len() == levels(right).len());
        assert forall|band: int| 0 <= band < left.len() implies left[band] == right[band] by {
            assert(levels(left)[band] == levels(right)[band]);
        }
        assert(left =~= right);
    }
}

proof fn lemma_published(index: int)
    requires
        0 <= index < PRESET_COUNT,
    ensures
        published(preset_row(index).id@) == Some(
            (preset_row(index).name@, levels(preset_row(index).gains@)),
        ),
        preset_row(index).id@ == "manual"@ <==> index == MANUAL_INDEX,
{
    assert forall|other: int| 0 <= other < index implies (#[trigger] preset_row(other)).id@
        != preset_row(index).id@ by {
        law_presets_have_unique_ids(other, index);
    }
    if index != MANUAL_INDEX {
        law_presets_have_unique_ids(index, MANUAL_INDEX as int);
        assert(preset_row(MANUAL_INDEX as int).id@ == "manual"@);
    }
    assert(preset_row(0).id@ == "flat"@);
    assert(preset_row(1).id@ == "acoustic"@);
    assert(preset_row(2).id@ == "bass-booster"@);
    assert(preset_row(3).id@ == "bass-reducer"@);
    assert(preset_row(4).id@ == "classic"@);
    assert(preset_row(5).id@ == "dance"@);
    assert(preset_row(6).id@ == "deep"@);
    assert(preset_row(7).id@ == "electronic"@);
    assert(preset_row(8).id@ == "hip-hop"@);
    assert(preset_row(9).id@ == "jazz"@);
    assert(preset_row(10).id@ == "latin"@);
    assert(preset_row(11).id@ == "loudness"@);
    assert(preset_row(12).id@ == "lounge"@);
    assert(preset_row(13).id@ == "piano"@);
    assert(preset_row(14).id@ == "pop"@);
    assert(preset_row(15).id@ == "rnb"@);
    assert(preset_row(16).id@ == "rock"@);
    assert(preset_row(17).id@ == "small-speakers"@);
    assert(preset_row(18).id@ == "spoken-word"@);
    assert(preset_row(19).id@ == "treble-booster"@);
    assert(preset_row(20).id@ == "treble-reducer"@);
    assert(preset_row(21).id@ == "vocal-booster"@);
    assert(preset_row(22).id@ == "manual"@);
    if index == 0 {
        assert(levels(preset_row(0).gains@) =~= (published(preset_row(0).id@)->0).1);
    }
    if index == 1 {
        assert(levels(preset_row(1).gains@) =~= (published(preset_row(1).id@)->0).1);
    }
    if index == 2 {
        assert(levels(preset_row(2).gains@) =~= (published(preset_row(2).id@)->0).1);
    }
    if index == 3 {
        assert(levels(preset_row(3).gains@) =~= (published(preset_row(3).id@)->0).1);
    }
    if index == 4 {
        assert(levels(preset_row(4).gains@) =~= (published(preset_row(4).id@)->0).1);
    }
    if index == 5 {
        assert(levels(preset_row(5).gains@) =~= (published(preset_row(5).id@)->0).1);
    }
    if index == 6 {
        assert(levels(preset_row(6).gains@) =~= (published(preset_row(6).id@)->0).1);
    }
    if index == 7 {
        assert(levels(preset_row(7).gains@) =~= (published(preset_row(7).id@)->0).1);
    }
    if index == 8 {
        assert(levels(preset_row(8).gains@) =~= (published(preset_row(8).id@)->0).1);
    }
    if index == 9 {
        assert(levels(preset_row(9).gains@) =~= (published(preset_row(9).id@)->0).1);
    }
    if index == 10 {
        assert(levels(preset_row(10).gains@) =~= (published(preset_row(10).id@)->0).1);
    }
    if index == 11 {
        assert(levels(preset_row(11).gains@) =~= (published(preset_row(11).id@)->0).1);
    }
    if index == 12 {
        assert(levels(preset_row(12).gains@) =~= (published(preset_row(12).id@)->0).1);
    }
    if index == 13 {
        assert(levels(preset_row(13).gains@) =~= (published(preset_row(13).id@)->0).1);
    }
    if index == 14 {
        assert(levels(preset_row(14).gains@) =~= (published(preset_row(14).id@)->0).1);
    }
    if index == 15 {
        assert(levels(preset_row(15).gains@) =~= (published(preset_row(15).id@)->0).1);
    }
    if index == 16 {
        assert(levels(preset_row(16).gains@) =~= (published(preset_row(16).id@)->0).1);
    }
    if index == 17 {
        assert(levels(preset_row(17).gains@) =~= (published(preset_row(17).id@)->0).1);
    }
    if index == 18 {
        assert(levels(preset_row(18).gains@) =~= (published(preset_row(18).id@)->0).1);
    }
    if index == 19 {
        assert(levels(preset_row(19).gains@) =~= (published(preset_row(19).id@)->0).1);
    }
    if index == 20 {
        assert(levels(preset_row(20).gains@) =~= (published(preset_row(20).id@)->0).1);
    }
    if index == 21 {
        assert(levels(preset_row(21).gains@) =~= (published(preset_row(21).id@)->0).1);
    }
    if index == 22 {
        assert(levels(preset_row(22).gains@) =~= (published(preset_row(22).id@)->0).1);
    }
}

proof fn lemma_published_row(id: Seq<char>)
    requires
        published(id) is Some,
    ensures
        exists|index: int| 0 <= index < PRESET_COUNT && (#[trigger] preset_row(index)).id@ == id,
{
    assert(preset_row(0).id@ == "flat"@);
    assert(preset_row(1).id@ == "acoustic"@);
    assert(preset_row(2).id@ == "bass-booster"@);
    assert(preset_row(3).id@ == "bass-reducer"@);
    assert(preset_row(4).id@ == "classic"@);
    assert(preset_row(5).id@ == "dance"@);
    assert(preset_row(6).id@ == "deep"@);
    assert(preset_row(7).id@ == "electronic"@);
    assert(preset_row(8).id@ == "hip-hop"@);
    assert(preset_row(9).id@ == "jazz"@);
    assert(preset_row(10).id@ == "latin"@);
    assert(preset_row(11).id@ == "loudness"@);
    assert(preset_row(12).id@ == "lounge"@);
    assert(preset_row(13).id@ == "piano"@);
    assert(preset_row(14).id@ == "pop"@);
    assert(preset_row(15).id@ == "rnb"@);
    assert(preset_row(16).id@ == "rock"@);
    assert(preset_row(17).id@ == "small-speakers"@);
    assert(preset_row(18).id@ == "spoken-word"@);
    assert(preset_row(19).id@ == "treble-booster"@);
    assert(preset_row(20).id@ == "treble-reducer"@);
    assert(preset_row(21).id@ == "vocal-booster"@);
    assert(preset_row(22).id@ == "manual"@);
}

/// Each preset goes by its id with the name and the curve published for that id,
/// and no other id names one.
pub proof fn law_a_preset_is_the_curve_published_for_it(id: &str, found: Option<Preset>)
    requires
        call_ensures(preset, (id,), found),
    ensures
        match published(id@) {
            Some((name, curve)) => found is Some && found->0.id@ == id@ && found->0.name@ == name
                && levels(found->0.gains@) == curve,
            None => found is None,
        },
{
    if published(id@) is Some {
        lemma_published_row(id@);
    }
    if let Some(preset) = found {
        let index = choose|i: int|
            0 <= i < PRESET_COUNT && preset == #[trigger] preset_row(i);
        lemma_published(index);
    }
}

/// The picker lists every preset with what is published for it, flat first and
/// the manual label last.
pub proof fn law_the_picker_lists_what_is_published(table: Vec<Preset>, index: int)
    requires
        call_ensures(presets, (), table),
        0 <= index < table@.len(),
    ensures
        table@.len() == 23,
        published(table@[index].id@) == Some((table@[index].name@, levels(table@[index].gains@))),
        table@[0].id@ == "flat"@,
        table@[22].id@ == "manual"@,
        forall|other: int| 0 <= other < index ==> (#[trigger] table@[other]).id@
            != table@[index].id@,
{
    lemma_published(index);
    assert forall|other: int| 0 <= other < index implies (#[trigger] table@[other]).id@
        != table@[index].id@ by {
        law_presets_have_unique_ids(other, index);
    }
}

/// The gains that a row of the table has are recognised as its own, and gains
/// that no preset but the manual label has are no preset's.
pub proof fn law_a_preset_is_recognised_by_its_curve(gains: Gains, found: Option<Preset>)
    requires
        call_ensures(matching_preset, (&gains,), found),
    ensures
        found matches Some(preset) ==> preset.gains@ == gains@ && preset.id@ != "manual"@
            && published(preset.id@) == Some((preset.name@, levels(gains@))),
        found is None ==> forall|id: Seq<char>|
            #![trigger published(id)]
            published(id) is Some && id != "manual"@ ==> (published(id)->0).1 != levels(gains@),
{
    if let Some(preset) = found {
        let index = choose|i: int|
            selects(gains@, i) && i < MANUAL_INDEX && preset == #[trigger] preset_row(i);
        lemma_published(index);
    } else {
        assert forall|id: Seq<char>|
            #![trigger published(id)]
            published(id) is Some
                && id != "manual"@ implies (published(id)->0).1 != levels(gains@) by {
            lemma_published_row(id);
            let index = choose|i: int|
                0 <= i < PRESET_COUNT && (#[trigger] preset_row(i)).id@ == id;
            lemma_published(index);
            lemma_levels(preset_row(index).gains@, gains@);
        }
    }
}

/// Choosing a preset without a glide plays its published curve at once, and the
/// picker says so; nothing but the curve changes. The manual label moves no
/// fader, and an id that nothing is published for changes nothing.
pub proof fn law_a_chosen_preset_is_what_plays(
    equalizer: &mut Equalizer,
    id: &str,
    known: bool,
    settings: &Settings,
    target: &Settings,
    shown: &'static str,
)
    requires
        old(equalizer).wf(),
        call_ensures(Equalizer::set_preset, (equalizer, id, false), known),
        call_ensures(Equalizer::settings, (&*final(equalizer),), settings),
        call_ensures(Equalizer::target, (&*final(equalizer),), target),
        call_ensures(Equalizer::selected_preset, (&*final(equalizer),), shown),
    ensures
        known <==> published(id@) is Some,
        known ==> shown@ == id@,
        known && id@ != "manual"@ ==> {
            &&& levels(settings.gains@) == (published(id@)->0).1
            &&& settings.preamp == old(equalizer).goal().preamp
            &&& settings.enabled == old(equalizer).goal().enabled
            &&& settings.auto_preamp == old(equalizer).goal().auto_preamp
            &&& *target == *settings
        },
        known && id@ == "manual"@ ==> *settings == old(equalizer).current()
            && *target == old(equalizer).goal(),
        !known ==> *final(equalizer) == *old(equalizer),
{
    if published(id@) is Some {
        lemma_published_row(id@);
    }
    if known {
        final(equalizer).lemma_wf();
        lemma_published(final(equalizer).choice());
    }
}

/// Choosing a preset with a glide heads for its published curve from where the
/// faders stand, without a jump; where they already stand there, it is over at
/// once.
pub proof fn law_a_glide_heads_for_the_chosen_preset(
    equalizer: &mut Equalizer,
    id: &str,
    known: bool,
    settings: &Settings,
    target: &Settings,
    gliding: bool,
)
    requires
        old(equalizer).wf(),
        call_ensures(Equalizer::set_preset, (equalizer, id, true), known),
        call_ensures(Equalizer::settings, (&*final(equalizer),), settings),
        call_ensures(Equalizer::target, (&*final(equalizer),), target),
        call_ensures(Equalizer::is_ramping, (&*final(equalizer),), gliding),
    ensures
        known <==> published(id@) is Some,
        known && id@ != "manual"@ ==> {
            let curve = (published(id@)->0).1;
            &&& levels(target.gains@) == curve
            &&& target.preamp == old(equalizer).goal().preamp
            &&& gliding <==> levels(old(equalizer).current().gains@) != curve
            &&& settings.gains@ == old(equalizer).current().gains@
            &&& gliding ==> *settings == old(equalizer).current()
            &&& gliding ==> (final(equalizer).ramping() matches Some(ramp) && ramp.frame == 0
                && ramp.from@ == old(equalizer).current().gains@ && levels(ramp.to@) == curve)
        },
{
    if published(id@) is Some {
        lemma_published_row(id@);
    }
    if known {
        final(equalizer).lemma_wf();
        lemma_published(final(equalizer).choice());
        lemma_levels(
            old(equalizer).current().gains@,
            preset_row(final(equalizer).choice()).gains@,
        );
    }
}

/// A glide takes fifteen steps of one size: after a step every level lies on the
/// straight line between its ends, to the whole micro-decibel, and the fifteenth
/// lands on the target.
pub proof fn law_a_glide_is_straight(
    equalizer: &mut Equalizer,
    changed: bool,
    settings: &Settings,
    band: int,
)
    requires
        old(equalizer).wf(),
        call_ensures(Equalizer::tick, (equalizer,), changed),
        call_ensures(Equalizer::settings, (&*final(equalizer),), settings),
        0 <= band < 10,
    ensures
        changed <==> old(equalizer).ramping() is Some,
        !changed ==> *final(equalizer) == *old(equalizer),
        old(equalizer).ramping() matches Some(ramp) ==> {
            let step = ramp.frame + 1;
            let from = ramp.from@[band] as int;
            let to = ramp.to@[band] as int;
            let level = settings.gains@[band] as int;
            &&& step >= 15 ==> *settings == old(equalizer).goal()
                && final(equalizer).ramping() is None
            &&& step < 15 ==> final(equalizer).ramping() == Some(
                Ramp { frame: step as u32, ..ramp },
            )
            &&& step < 15 && from <= to ==> 15 * (level - from) <= (to - from) * step < 15 * (level
                - from) + 15
            &&& step < 15 && to < from ==> 15 * (from - level) <= (from - to) * step < 15 * (from
                - level) + 15
        },
        final(equalizer).goal() == old(equalizer).goal(),
{
    if let Some(ramp) = old(equalizer).ramping() {
        let step = ramp.frame + 1;
        let from = ramp.from@[band] as int;
        let to = ramp.to@[band] as int;
        if step < 15 {
            let next = Ramp { frame: step as u32, ..ramp };
            assert(next.sits_at(settings.gains@, settings.preamp as int));
            assert(settings.gains@[band] == glide(from, to, step));
            let travelled = if from <= to {
                (to - from) * step
            } else {
                (from - to) * step
            };
            assert(15 * (travelled / 15) <= travelled < 15 * (travelled / 15) + 15);
        }
    }
}

/// A dragged fader stands where it was dragged to, within 24 dB either way, and
/// stops any glide; the other faders, the preamp and the switches stay. The
/// picker shows the preset whose curve this is, or the manual label where it is
/// none's.
pub proof fn law_a_dragged_fader_stays_where_it_was_put(
    equalizer: &mut Equalizer,
    band: usize,
    gain: i32,
    settings: &Settings,
    target: &Settings,
    shown: &'static str,
    other: int,
)
    requires
        old(equalizer).wf(),
        band < 10,
        call_ensures(Equalizer::set_gain, (equalizer, band, gain), ()),
        call_ensures(Equalizer::settings, (&*final(equalizer),), settings),
        call_ensures(Equalizer::target, (&*final(equalizer),), target),
        call_ensures(Equalizer::selected_preset, (&*final(equalizer),), shown),
        0 <= other < 10,
    ensures
        settings.gains@[band as int] == (if gain < -24_000_000 {
            -24_000_000
        } else if gain > 24_000_000 {
            24_000_000
        } else {
            gain as int
        }),
        other != band ==> settings.gains@[other] == old(equalizer).current().gains@[other],
        settings.preamp == old(equalizer).current().preamp,
        settings.enabled == old(equalizer).current().enabled,
        settings.auto_preamp == old(equalizer).current().auto_preamp,
        *target == *settings,
        final(equalizer).ramping() is None,
        shown@ == "manual"@ || published(shown@) is Some && (published(shown@)->0).1
            == levels(settings.gains@),
        shown@ == "manual"@ ==> forall|id: Seq<char>|
            #![trigger published(id)]
            published(id) is Some && id != "manual"@
                ==> (published(id)->0).1 != levels(settings.gains@),
{
    final(equalizer).lemma_wf();
    lemma_published(final(equalizer).choice());
    if shown@ == "manual"@ {
        assert forall|id: Seq<char>|
            #![trigger published(id)]
            published(id) is Some && id != "manual"@ implies (published(id)->0).1
            != levels(settings.gains@) by {
            lemma_published_row(id);
            let index = choose|i: int|
                0 <= i < PRESET_COUNT && (#[trigger] preset_row(i)).id@ == id;
            lemma_published(index);
            lemma_levels(preset_row(index).gains@, settings.gains@);
        }
    }
}

/// The preamp stands where it was put, between -96 and 5 dB, and stops any glide;
/// the switches do what they say. None of them moves a fader.
pub proof fn law_the_preamp_and_the_switches_move_no_fader(
    equalizer: &mut Equalizer,
    preamp: i32,
    amplified: &Settings,
    switching: &mut Equalizer,
    auto_preamp: bool,
    automatic: &Settings,
    then: &mut Equalizer,
    enabled: bool,
    last: &Settings,
)
    requires
        old(equalizer).wf(),
        call_ensures(Equalizer::set_preamp, (equalizer, preamp), ()),
        call_ensures(Equalizer::settings, (&*final(equalizer),), amplified),
        *old(switching) == *final(equalizer),
        call_ensures(Equalizer::set_auto_preamp, (switching, auto_preamp), ()),
        call_ensures(Equalizer::settings, (&*final(switching),), automatic),
        *old(then) == *final(switching),
        call_ensures(Equalizer::set_enabled, (then, enabled), ()),
        call_ensures(Equalizer::settings, (&*final(then),), last),
    ensures
        amplified.preamp == (if preamp < -96_000_000 {
            -96_000_000
        } else if preamp > 5_000_000 {
            5_000_000
        } else {
            preamp as int
        }),
        amplified.gains == old(equalizer).current().gains,
        amplified.enabled == old(equalizer).current().enabled,
        amplified.auto_preamp == old(equalizer).current().auto_preamp,
        final(equalizer).ramping() is None,
        final(equalizer).goal() == *amplified,
        *automatic == (Settings { auto_preamp, ..*amplified }),
        *last == (Settings { enabled, ..*automatic }),
        final(then).goal() == *last,
        final(then).choice() == old(equalizer).choice(),
{
}

/// What reaches the audio unit is the preamp, pulled down by the loudest boost
/// where auto-preamp is on, between -96 and 5 dB.
pub proof fn law_the_preamp_gives_way_to_the_loudest_boost(
    settings: Settings,
    gain: i32,
    peak: int,
)
    requires
        call_ensures(Settings::global_gain, (&settings,), gain),
        0 <= peak,
        forall|band: int| 0 <= band < 10 ==> (#[trigger] settings.gains@[band]) <= peak,
        peak == 0 || exists|band: int| 0 <= band < 10 && (#[trigger] settings.gains@[band]) == peak,
    ensures
        ({
            let wanted = if settings.auto_preamp {
                settings.preamp - peak
            } else {
                settings.preamp as int
            };
            gain == (if wanted < -96_000_000 {
                -96_000_000
            } else if wanted > 5_000_000 {
                5_000_000
            } else {
                wanted
            })
        }),
{
    lemma_loudest(settings.gains@);
}

/// An equaliser that starts from some settings has them, each brought into its
/// range, and is idle.
pub proof fn law_an_equaliser_starts_from_its_settings(
    settings: Settings,
    equalizer: Equalizer,
    current: &Settings,
    target: &Settings,
    gliding: bool,
    band: int,
)
    requires
        call_ensures(Equalizer::new, (settings,), equalizer),
        call_ensures(Equalizer::settings, (&equalizer,), current),
        call_ensures(Equalizer::target, (&equalizer,), target),
        call_ensures(Equalizer::is_ramping, (&equalizer,), gliding),
        0 <= band < 10,
    ensures
        !gliding,
        *target == *current,
        current.enabled == settings.enabled,
        current.auto_preamp == settings.auto_preamp,
        -96_000_000 <= settings.preamp <= 5_000_000 ==> current.preamp == settings.preamp,
        settings.preamp < -96_000_000 ==> current.preamp == -96_000_000,
        settings.preamp > 5_000_000 ==> current.preamp == 5_000_000,
        -24_000_000 <= settings.gains@[band] <= 24_000_000 ==> current.gains@[band]
            == settings.gains@[band],
        settings.gains@[band] < -24_000_000 ==> current.gains@[band] == -24_000_000,
        settings.gains@[band] > 24_000_000 ==> current.gains@[band] == 24_000_000,
{
}

/// Everything set at once becomes the target; without a glide it is in force at
/// once, and a glide that is cut short is in force at once too.
pub proof fn law_a_reset_and_a_cut_glide_land_on_the_target(
    equalizer: &mut Equalizer,
    settings: Settings,
    ramp: bool,
    target: &Settings,
    then: &mut Equalizer,
    last: &Settings,
    band: int,
)
    requires
        old(equalizer).wf(),
        settings.in_range(),
        call_ensures(Equalizer::reset, (equalizer, settings, ramp), ()),
        call_ensures(Equalizer::target, (&*final(equalizer),), target),
        *old(then) == *final(equalizer),
        call_ensures(Equalizer::finish_ramp, (then,), ()),
        call_ensures(Equalizer::settings, (&*final(then),), last),
        0 <= band < 10,
    ensures
        target.gains@[band] == settings.gains@[band],
        target.preamp == settings.preamp,
        target.enabled == settings.enabled,
        target.auto_preamp == settings.auto_preamp,
        !ramp ==> final(equalizer).current() == *target && final(equalizer).ramping() is None,
        *last == *target,
        final(then).goal() == *target,
        final(then).ramping() is None,
{
}

/// A preset is the same by its place, by its id and by what is shown of it.
pub proof fn law_a_preset_is_found_by_place_and_id(
    table: Vec<Preset>,
    at: usize,
    preset: Preset,
    id: &str,
    index: Option<usize>,
    equalizer: Equalizer,
    shown: &'static str,
    name: &'static str,
)
    requires
        call_ensures(presets, (), table),
        at < 23,
        call_ensures(preset_at, (at,), preset),
        id@ == preset.id@,
        call_ensures(preset_index, (id,), index),
        equalizer.wf(),
        call_ensures(Equalizer::selected_preset, (&equalizer,), shown),
        call_ensures(Equalizer::selected_name, (&equalizer,), name),
    ensures
        preset == table@[at as int],
        index == Some(at),
        published(shown@) is Some && (published(shown@)->0).0 == name@,
{
    equalizer.lemma_wf();
    lemma_published(equalizer.choice());
    assert(preset == preset_row(at as int));
    assert(!names_no_preset(id@));
    if let Some(index) = index {
        if index < at {
            law_presets_have_unique_ids(index as int, at as int);
        }
        if at < index {
            law_presets_have_unique_ids(at as int, index as int);
        }
    }
}

/// Settings are brought into range where they are out of it, and nowhere else.
pub proof fn law_settings_are_brought_into_range(
    settings: Settings,
    clamped: Settings,
    band: int,
    fresh: Settings,
)
    requires
        call_ensures(Settings::clamped, (settings,), clamped),
        call_ensures(Settings::default, (), fresh),
        0 <= band < 10,
    ensures
        clamped.enabled == settings.enabled && clamped.auto_preamp == settings.auto_preamp,
        clamped.preamp == (if settings.preamp < -96_000_000 {
            -96_000_000
        } else if settings.preamp > 5_000_000 {
            5_000_000
        } else {
            settings.preamp as int
        }),
        clamped.gains@[band] == (if settings.gains@[band] < -24_000_000 {
            -24_000_000
        } else if settings.gains@[band] > 24_000_000 {
            24_000_000
        } else {
            settings.gains@[band] as int
        }),
        fresh.enabled && fresh.auto_preamp && fresh.preamp == 0 && fresh.gains@[band] == 0,
{
    assert(clamped.gains@[band] == clamped.gains@[band]);
}

} // verus!
