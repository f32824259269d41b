//! What the panel shows: its cards, their rows, and the tags that carry a row's
//! identity.
//!
//! Nothing here draws. A row says what is on it; numbers stay numbers where the
//! drawing decides how many digits of them to write.

use vstd::prelude::*;
use vstd::string::StrSliceExecFns;

use crate::devices::Device;
use crate::display::{Display, DisplayMode};
use crate::eq::{
    preset_at, preset_row, Equalizer, Gains, Preset, Settings, BAND_COUNT, FREQUENCIES,
    PRESET_COUNT,
};
use crate::mixer::MAX_FADERS;
use crate::names::{fader_name, AppFader};
use crate::service::{backend_caption, BrightnessBackend, Level};
use crate::sound::SoundService;
use crate::state::{
    can_move, rates_round, shown_rows, CardAction, CardFacts, Context, Entry, Route, Shown,
    SoundAction, Submenu, SubmenuRow, ViewState, AUTO_PREAMP,
};
use crate::text::{decimal, digits, rounded, same, whole_units};

verus! {

// --- tags -------------------------------------------------------------------

/// Tags carry a row's identity to the action that handles it, so no row needs a
/// controller of its own: the display's index times the stride, plus the item.
pub const TAG_STRIDE: isize = 100;

/// Sound rows carry their identity in the same field as display rows, but there
/// is no display index to encode. Everything at or above this base belongs to
/// the sound card; below it, to a display.
pub const SOUND_TAG_BASE: isize = 100_000;

/// Where each kind of sound control starts inside the sound namespace. Bands
/// and app faders are ranges, so they cannot share the switch numbering.
pub const BAND_TAG_BASE: isize = 100;

pub const APP_TAG_BASE: isize = 200;

pub const PREAMP_TAG: isize = 50;

pub const MASTER_VOLUME_TAG: isize = 51;

/// The tag of an item on a display's card.
pub open spec fn display_tag(display_index: usize, item: isize) -> int {
    display_index * TAG_STRIDE + item
}

pub fn tag(display_index: usize, item: isize) -> (tag: isize)
    requires
        display_index * TAG_STRIDE <= isize::MAX,
        isize::MIN <= display_tag(display_index, item) <= isize::MAX,
    ensures
        tag == display_tag(display_index, item),
{
    display_index as isize * TAG_STRIDE + item
}

/// A quotient rounded towards zero.
pub open spec fn quotient(tag: int) -> int {
    if tag >= 0 {
        tag / 100
    } else {
        -((-tag) / 100)
    }
}

/// What a negative number comes to in an index.
pub open spec fn as_index(value: int) -> int {
    if value >= 0 {
        value
    } else {
        value + usize::MAX + 1
    }
}

/// The display's index and the item of a tag. A tag that no display row has (a
/// negative one) gives an index that no display has either.
pub fn decode_tag(tag: isize) -> (decoded: (usize, isize))
    ensures
        decoded.0 == as_index(quotient(tag as int)),
        decoded.1 == tag - quotient(tag as int) * 100,
{
    if tag >= 0 {
        let whole: usize = tag as usize;
        ((whole / 100) as usize, (whole % 100) as isize)
    } else {
        // The magnitude is one more than what fits, so it is counted from one
        // below.
        let below: usize = (-(tag + 1)) as usize;
        let count: usize = if below % 100 == 99 {
            below / 100 + 1
        } else {
            below / 100
        };
        let rest: isize = if below % 100 == 99 {
            0
        } else {
            (below % 100) as isize + 1
        };
        let index: usize = if count == 0 {
            0
        } else {
            usize::MAX - (count - 1)
        };
        (index, -rest)
    }
}

pub fn sound_tag(item: isize) -> (tag: isize)
    requires
        SOUND_TAG_BASE + item <= isize::MAX,
    ensures
        tag == SOUND_TAG_BASE + item,
{
    SOUND_TAG_BASE + item
}

pub open spec fn sound_item(tag: isize) -> Option<isize> {
    if tag >= SOUND_TAG_BASE {
        Some((tag - SOUND_TAG_BASE) as isize)
    } else {
        None
    }
}

pub fn decode_sound_tag(tag: isize) -> (item: Option<isize>)
    ensures
        item == sound_item(tag),
{
    if tag >= SOUND_TAG_BASE {
        Some(tag - SOUND_TAG_BASE)
    } else {
        None
    }
}

pub fn band_tag(band: usize) -> (tag: isize)
    requires
        SOUND_TAG_BASE + BAND_TAG_BASE + band <= isize::MAX,
    ensures
        tag == SOUND_TAG_BASE + BAND_TAG_BASE + band,
{
    sound_tag(BAND_TAG_BASE + band as isize)
}

pub open spec fn band_of(tag: isize) -> Option<usize> {
    match sound_item(tag) {
        Some(item) if BAND_TAG_BASE <= item < APP_TAG_BASE => Some(
            (item - BAND_TAG_BASE) as usize,
        ),
        _ => None,
    }
}

/// The band a tag refers to, if it refers to one.
pub fn decode_band(tag: isize) -> (band: Option<usize>)
    ensures
        band == band_of(tag),
{
    match decode_sound_tag(tag) {
        Some(item) => {
            if BAND_TAG_BASE <= item && item < APP_TAG_BASE {
                Some((item - BAND_TAG_BASE) as usize)
            } else {
                None
            }
        },
        None => None,
    }
}

pub fn app_tag(index: usize) -> (tag: isize)
    requires
        SOUND_TAG_BASE + APP_TAG_BASE + index <= isize::MAX,
    ensures
        tag == SOUND_TAG_BASE + APP_TAG_BASE + index,
{
    sound_tag(APP_TAG_BASE + index as isize)
}

pub open spec fn app_of(tag: isize) -> Option<usize> {
    match sound_item(tag) {
        Some(item) if item >= APP_TAG_BASE => Some((item - APP_TAG_BASE) as usize),
        _ => None,
    }
}

/// The application fader a tag refers to, if it refers to one.
pub fn decode_app(tag: isize) -> (index: Option<usize>)
    ensures
        index == app_of(tag),
{
    match decode_sound_tag(tag) {
        Some(item) => {
            if item >= APP_TAG_BASE {
                Some((item - APP_TAG_BASE) as usize)
            } else {
                None
            }
        },
        None => None,
    }
}

pub fn preamp_tag() -> (tag: isize)
    ensures
        tag == SOUND_TAG_BASE + PREAMP_TAG,
{
    sound_tag(PREAMP_TAG)
}

pub fn master_volume_tag() -> (tag: isize)
    ensures
        tag == SOUND_TAG_BASE + MASTER_VOLUME_TAG,
{
    sound_tag(MASTER_VOLUME_TAG)
}

/// A display row's tag gives back the display and the item it was made of, and
/// for the first thousand displays it is never taken for a sound row's.
pub proof fn law_a_display_tag_reads_back(display_index: usize, item: isize, tag: isize)
    requires
        0 <= item < TAG_STRIDE,
        tag == display_tag(display_index, item),
    ensures
        as_index(quotient(tag as int)) == display_index,
        tag - quotient(tag as int) * 100 == item,
        display_index < 1_000 ==> sound_item(tag) is None,
{
}

/// A sound row's tag gives back what it was made of, and nothing else: switches,
/// the preamp, the volume, bands and faders never share one.
pub proof fn law_sound_tags_are_told_apart(
    action: SoundAction,
    band: usize,
    fader: usize,
    tag: isize,
)
    requires
        band < APP_TAG_BASE - BAND_TAG_BASE,
    ensures
        tag == SOUND_TAG_BASE + action.number() ==> {
            &&& sound_item(tag) == Some(action.number())
            &&& band_of(tag) is None
            &&& app_of(tag) is None
            &&& tag != SOUND_TAG_BASE + PREAMP_TAG
            &&& tag != SOUND_TAG_BASE + MASTER_VOLUME_TAG
        },
        tag == SOUND_TAG_BASE + PREAMP_TAG || tag == SOUND_TAG_BASE + MASTER_VOLUME_TAG ==> {
            &&& band_of(tag) is None
            &&& app_of(tag) is None
            &&& PREAMP_TAG != MASTER_VOLUME_TAG
        },
        tag == SOUND_TAG_BASE + BAND_TAG_BASE + band ==> band_of(tag) == Some(band) && app_of(
            tag,
        ) is None,
        tag == SOUND_TAG_BASE + APP_TAG_BASE + fader ==> app_of(tag) == Some(fader) && band_of(
            tag,
        ) is None,
{
}

// --- rows -------------------------------------------------------------------

/// What a switch row switches.
#[derive(Clone, Copy, Debug, PartialEq, Eq, Structural)]
pub enum Switch {
    LaunchAtLogin,
    Sound(SoundAction),
}

/// What a plain row of the settings card does.
#[derive(Clone, Copy, Debug, PartialEq, Eq, Structural)]
pub enum Command {
    OpenLoginItemsSettings,
    ReconnectDisplays,
    RestartApp,
    QuitApp,
}

/// One row of a card. `T` is the type of its texts.
#[derive(Debug)]
pub enum Row<T> {
    /// A display's identity and power switch.
    Header { symbol: &'static str, name: T, is_main: bool, connected: bool, tag: isize },
    /// The brightness slider: what drives it, and where it stands.
    Brightness { caption: &'static str, level: Option<Level>, enabled: bool, tag: isize },
    /// The resolution slider with nothing to slide over.
    NoResolution,
    /// The resolution slider: the size in force, the part that is of the widest
    /// one, the stop it stands at, the last stop and the number of stops.
    Resolution {
        caption: &'static str,
        size: T,
        scale: Option<(u32, u32)>,
        stop: usize,
        last_stop: usize,
        stops: usize,
        enabled: bool,
        tag: isize,
    },
    /// A row that opens a submenu.
    Disclosure { label: &'static str, symbol: &'static str, tag: isize },
    /// A row that toggles something, and says how it stands.
    Toggle { label: &'static str, symbol: &'static str, on: bool, available: bool, tag: isize },
    Note { text: T },
    /// The caret that shows or hides a card's advanced rows.
    Caret { expanded: bool, tag: isize },
    Back { title: &'static str },
    /// A submenu's row; it can be activated where it has a tag.
    Choice { line: T, detail: T, action_tag: Option<isize> },
    Switch {
        label: &'static str,
        symbol: &'static str,
        on: bool,
        available: bool,
        switch: Switch,
        tag: isize,
    },
    Plain { label: &'static str, symbol: &'static str, command: Command },
    /// The sound card's identity, and the output it plays to.
    SoundHeader { output: T, tag: isize },
    /// The master volume, in millionths.
    Volume { volume: u32, settable: bool, tag: isize },
    Preset { preset: &'static str, tag: isize },
    /// Ten vertical faders side by side ([`band_bank`]).
    Bank { gains: Gains },
    /// Whether the equaliser pulls its preamp down by the loudest band.
    AutoPreamp { label: &'static str, on: bool, tag: isize },
    /// The preamp's fader, and the level written beside it.
    Preamp { preamp: i32, shown: i32, tag: isize },
    /// An application's fader, in millionths.
    Fader { name: T, gain: u32, tag: isize },
    PresetChoice { preset: &'static str, current: bool, tag: isize },
    Output { name: T, current: bool, tag: isize },
}

impl Row<String> {
    pub open spec fn view(self) -> Row<Seq<char>> {
        match self {
            Row::Header { symbol, name, is_main, connected, tag } => Row::Header {
                symbol,
                name: name@,
                is_main,
                connected,
                tag,
            },
            Row::Brightness { caption, level, enabled, tag } => Row::Brightness {
                caption,
                level,
                enabled,
                tag,
            },
            Row::NoResolution => Row::NoResolution,
            Row::Resolution { caption, size, scale, stop, last_stop, stops, enabled, tag } =>
                Row::Resolution {
                caption,
                size: size@,
                scale,
                stop,
                last_stop,
                stops,
                enabled,
                tag,
            },
            Row::Disclosure { label, symbol, tag } => Row::Disclosure { label, symbol, tag },
            Row::Toggle { label, symbol, on, available, tag } => Row::Toggle {
                label,
                symbol,
                on,
                available,
                tag,
            },
            Row::Note { text } => Row::Note { text: text@ },
            Row::Caret { expanded, tag } => Row::Caret { expanded, tag },
            Row::Back { title } => Row::Back { title },
            Row::Choice { line, detail, action_tag } => Row::Choice {
                line: line@,
                detail: detail@,
                action_tag,
            },
            Row::Switch { label, symbol, on, available, switch, tag } => Row::Switch {
                label,
                symbol,
                on,
                available,
                switch,
                tag,
            },
            Row::Plain { label, symbol, command } => Row::Plain { label, symbol, command },
            Row::SoundHeader { output, tag } => Row::SoundHeader { output: output@, tag },
            Row::Volume { volume, settable, tag } => Row::Volume { volume, settable, tag },
            Row::Preset { preset, tag } => Row::Preset { preset, tag },
            Row::Bank { gains } => Row::Bank { gains },
            Row::AutoPreamp { label, on, tag } => Row::AutoPreamp { label, on, tag },
            Row::Preamp { preamp, shown, tag } => Row::Preamp { preamp, shown, tag },
            Row::Fader { name, gain, tag } => Row::Fader { name: name@, gain, tag },
            Row::PresetChoice { preset, current, tag } => Row::PresetChoice {
                preset,
                current,
                tag,
            },
            Row::Output { name, current, tag } => Row::Output { name: name@, current, tag },
        }
    }
}

pub open spec fn seen(rows: Seq<Row<String>>) -> Seq<Row<Seq<char>>> {
    rows.map_values(|row: Row<String>| row@)
}

/// A card that can be clicked as a whole.
#[derive(Clone, Copy, Debug, PartialEq, Eq, Structural)]
pub enum Surface {
    /// Only the rows answer to clicks.
    Inert,
    /// A click opens or closes a display's card.
    Display { tag: isize, highlight: bool },
    /// A click opens or closes the sound card.
    Sound { tag: isize, highlight: bool },
}

#[derive(Debug)]
pub struct Card {
    pub rows: Vec<Row<String>>,
    pub surface: Surface,
}

impl Card {
    pub open spec fn shows(self, rows: Seq<Row<Seq<char>>>, surface: Surface) -> bool {
        seen(self.rows@) == rows && self.surface == surface
    }
}

/// Pushing a row shows it after the others.
proof fn lemma_pushed(rows: Seq<Row<String>>, row: Row<String>)
    ensures
        seen(rows.push(row)) == seen(rows).push(row@),
{
    assert(seen(rows.push(row)) =~= seen(rows).push(row@));
}

fn put(rows: &mut Vec<Row<String>>, row: Row<String>)
    ensures
        seen(final(rows)@) == seen(old(rows)@).push(row@),
{
    proof {
        lemma_pushed(rows@, row);
    }
    rows.push(row);
}

// --- display card -----------------------------------------------------------

/// What is known of a display besides its own description.
#[derive(Clone, Copy, Debug)]
pub struct DisplayFacts {
    pub connected: bool,
    /// Its card is open far enough to show its primary controls.
    pub open: bool,
    pub backend: BrightnessBackend,
    pub level: Option<Level>,
    pub card: CardFacts,
}

/// The display's index leaves room for its items.
pub open spec fn has_tags(index: usize) -> bool {
    index * TAG_STRIDE + TAG_STRIDE <= isize::MAX
}

pub open spec fn header(display: Display, index: usize, connected: bool) -> Row<Seq<char>> {
    Row::Header {
        symbol: if display.snapshot.is_builtin {
            "laptopcomputer"
        } else {
            "display"
        },
        name: display.snapshot.name@,
        is_main: display.snapshot.is_main,
        connected,
        tag: display_tag(index, 0) as isize,
    }
}

fn header_row(display: &Display, index: usize, connected: bool) -> (row: Row<String>)
    requires
        has_tags(index),
    ensures
        row@ == header(*display, index, connected),
{
    Row::Header {
        symbol: if display.snapshot.is_builtin {
            "laptopcomputer"
        } else {
            "display"
        },
        name: display.name().to_owned(),
        is_main: display.snapshot.is_main,
        connected,
        tag: tag(index, 0),
    }
}

pub open spec fn brightness(index: usize, facts: DisplayFacts) -> Row<Seq<char>> {
    Row::Brightness {
        caption: backend_caption(facts.backend),
        level: facts.level,
        enabled: facts.backend != BrightnessBackend::Unavailable,
        tag: display_tag(index, 0) as isize,
    }
}

fn brightness_row(index: usize, facts: &DisplayFacts) -> (row: Row<String>)
    requires
        has_tags(index),
    ensures
        row@ == brightness(index, *facts),
{
    Row::Brightness {
        caption: facts.backend.caption(),
        level: facts.level,
        enabled: facts.backend.is_available(),
        tag: tag(index, 0),
    }
}

/// A size as it is written.
pub open spec fn size_text(mode: DisplayMode) -> Seq<char> {
    digits(mode.width as nat) + "x"@ + digits(mode.height as nat)
}

pub fn size_of(mode: &DisplayMode) -> (text: String)
    ensures
        text@ == size_text(*mode),
{
    let mut text = decimal(mode.width as u64);
    text.append("x");
    text.append(decimal(mode.height as u64).as_str());
    text
}

pub open spec fn resolution_caption(mode: DisplayMode) -> &'static str {
    if mode.hidpi {
        "Resolution (HiDPI)"
    } else {
        "Resolution"
    }
}

pub fn caption_of(mode: &DisplayMode) -> (caption: &'static str)
    ensures
        caption == resolution_caption(*mode),
{
    if mode.is_hidpi() {
        "Resolution (HiDPI)"
    } else {
        "Resolution"
    }
}

/// The resolution slider of a display: it stands at the stop of the mode in
/// force, or at the first one where that is none of them.
pub open spec fn resolution(display: Display, index: usize) -> Row<Seq<char>> {
    match display.snapshot.current_mode {
        None => Row::NoResolution,
        Some(mode) => {
            let stops = display.selectable().len();
            Row::Resolution {
                caption: resolution_caption(mode),
                size: size_text(mode),
                scale: display.scale(),
                stop: match display.position() {
                    Some(stop) => stop,
                    None => 0,
                },
                last_stop: if stops <= 1 {
                    1
                } else {
                    (stops - 1) as usize
                },
                stops: stops as usize,
                enabled: stops > 1,
                tag: display_tag(index, 0) as isize,
            }
        },
    }
}

fn resolution_row(display: &Display, index: usize) -> (row: Row<String>)
    requires
        has_tags(index),
    ensures
        row@ == resolution(*display, index),
{
    match &display.snapshot.current_mode {
        None => Row::NoResolution,
        Some(mode) => {
            let stops: usize = display.selectable_modes().len();
            Row::Resolution {
                caption: caption_of(mode),
                size: size_of(mode),
                scale: display.resolution_scale(),
                stop: match display.current_mode_index() {
                    Some(stop) => stop,
                    None => 0,
                },
                last_stop: if stops <= 1 {
                    1
                } else {
                    stops - 1
                },
                stops,
                enabled: stops > 1,
                tag: tag(index, 0),
            }
        },
    }
}

/// The disclosure rows of a display's card.
pub open spec fn disclosures(index: usize) -> Seq<Row<Seq<char>>> {
    Submenu::listed().map_values(
        |entry: Entry<Submenu>|
            Row::Disclosure {
                label: entry.label,
                symbol: entry.symbol,
                tag: display_tag(index, entry.item.number()) as isize,
            },
    )
}

/// The toggle of a display's card.
pub open spec fn toggle(
    entry: Entry<CardAction>,
    display: Display,
    index: usize,
    facts: CardFacts,
) -> Row<Seq<char>> {
    Row::Toggle {
        label: entry.label,
        symbol: entry.symbol,
        on: entry.item.stands(display, facts).0,
        available: entry.item.stands(display, facts).1,
        tag: display_tag(index, entry.item.number()) as isize,
    }
}

/// The toggles of a display's card, of the first `count` there are.
pub open spec fn toggles(
    display: Display,
    index: usize,
    facts: CardFacts,
    count: int,
) -> Seq<Row<Seq<char>>>
    decreases count,
{
    if count <= 0 {
        Seq::empty()
    } else {
        let before = toggles(display, index, facts, count - 1);
        let entry = CardAction::listed()[count - 1];
        if entry.item.shows_on(display) {
            before.push(toggle(entry, display, index, facts))
        } else {
            before
        }
    }
}

/// The advanced rows of a display's card.
pub open spec fn advanced(display: Display, index: usize, facts: CardFacts) -> Seq<
    Row<Seq<char>>,
> {
    disclosures(index) + toggles(display, index, facts, CardAction::listed().len() as int)
}

fn put_advanced(
    rows: &mut Vec<Row<String>>,
    display: &Display,
    index: usize,
    facts: CardFacts,
)
    requires
        has_tags(index),
    ensures
        seen(final(rows)@) == seen(old(rows)@) + advanced(*display, index, facts),
{
    let ghost start = seen(rows@);
    let submenus = Submenu::all();
    let mut i: usize = 0;
    assert(start + disclosures(index).take(0) =~= start);
    while i < submenus.len()
        invariant
            has_tags(index),
            i <= submenus@.len(),
            submenus@ == Submenu::listed(),
            seen(rows@) == start + disclosures(index).take(i as int),
        decreases submenus@.len() - i,
    {
        let entry = &submenus[i];
        let item: isize = entry.item.index();
        put(
            rows,
            Row::Disclosure { label: entry.label, symbol: entry.symbol, tag: tag(index, item) },
        );
        assert(disclosures(index).take(i + 1) =~= disclosures(index).take(i as int).push(
            disclosures(index)[i as int],
        ));
        assert(seen(rows@) =~= start + disclosures(index).take(i + 1));
        i += 1;
    }
    assert(disclosures(index).take(i as int) =~= disclosures(index));
    let ghost middle = seen(rows@);
    let actions = CardAction::all();
    let mut j: usize = 0;
    assert(middle + toggles(*display, index, facts, 0) =~= middle);
    while j < actions.len()
        invariant
            has_tags(index),
            j <= actions@.len(),
            actions@ == CardAction::listed(),
            seen(rows@) == middle + toggles(*display, index, facts, j as int),
        decreases actions@.len() - j,
    {
        let entry = &actions[j];
        if entry.item.is_visible(display) {
            let (on, available): (bool, bool) = entry.item.state(display, facts);
            let item: isize = entry.item.index();
            put(
                rows,
                Row::Toggle {
                    label: entry.label,
                    symbol: entry.symbol,
                    on,
                    available,
                    tag: tag(index, item),
                },
            );
        }
        assert(seen(rows@) =~= middle + toggles(*display, index, facts, j + 1));
        j += 1;
    }
    assert(seen(rows@) =~= start + advanced(*display, index, facts));
}

pub open spec fn notes(notice: Option<String>) -> Seq<Row<Seq<char>>> {
    match notice {
        Some(text) => seq![Row::Note { text: text@ }],
        None => Seq::empty(),
    }
}

fn put_notice(rows: &mut Vec<Row<String>>, notice: &Option<String>)
    ensures
        seen(final(rows)@) == seen(old(rows)@) + notes(*notice),
{
    match notice {
        Some(text) => {
            put(rows, Row::Note { text: text.clone() });
        },
        None => {},
    }
    assert(seen(rows@) =~= seen(old(rows)@) + notes(*notice));
}

/// The rows of a display's card.
///
/// An offline display is only an identity plus the control that can bring it
/// back; with no live display behind it there is nothing meaningful to
/// disclose. A closed card is deliberately only its identity and power switch.
pub open spec fn display_rows(
    display: Display,
    index: usize,
    facts: DisplayFacts,
    state: ViewState,
) -> Seq<Row<Seq<char>>> {
    let identity = seq![header(display, index, facts.connected)];
    let expanded = state.open_cards().contains(index);
    if !facts.connected || !facts.open {
        identity
    } else {
        identity + seq![brightness(index, facts), resolution(display, index)] + (if expanded {
            advanced(display, index, facts.card)
        } else {
            Seq::empty()
        }) + notes(state.notice) + seq![
            Row::Caret { expanded, tag: display_tag(index, 0) as isize },
        ]
    }
}

/// Clicking a display's card opens or closes it; wrapping an offline one in a
/// click surface would make the empty card look interactive.
pub open spec fn display_surface(index: usize, facts: DisplayFacts) -> Surface {
    if !facts.connected {
        Surface::Inert
    } else {
        Surface::Display { tag: display_tag(index, 0) as isize, highlight: !facts.open }
    }
}

pub fn display_card(
    display: &Display,
    index: usize,
    facts: &DisplayFacts,
    state: &ViewState,
) -> (card: Card)
    requires
        has_tags(index),
    ensures
        card.shows(
            display_rows(*display, index, *facts, *state),
            display_surface(index, *facts),
        ),
{
    let mut rows: Vec<Row<String>> = Vec::new();
    assert(seen(rows@) =~= Seq::empty());
    put(&mut rows, header_row(display, index, facts.connected));
    if !facts.connected {
        assert(seen(rows@) =~= display_rows(*display, index, *facts, *state));
        return Card { rows, surface: Surface::Inert };
    }
    if !facts.open {
        assert(seen(rows@) =~= display_rows(*display, index, *facts, *state));
        return Card { rows, surface: Surface::Display { tag: tag(index, 0), highlight: true } };
    }
    put(&mut rows, brightness_row(index, facts));
    put(&mut rows, resolution_row(display, index));
    let expanded: bool = state.is_expanded(index);
    if expanded {
        put_advanced(&mut rows, display, index, facts.card);
    }
    put_notice(&mut rows, &state.notice);
    put(&mut rows, Row::Caret { expanded, tag: tag(index, 0) });
    assert(seen(rows@) =~= display_rows(*display, index, *facts, *state));
    Card { rows, surface: Surface::Display { tag: tag(index, 0), highlight: false } }
}

// --- submenus ---------------------------------------------------------------

/// A submenu's row as the card shows it. A row that is selected and says nothing
/// else says that it is current.
pub open spec fn choice(row: Shown, index: usize, row_index: int) -> Row<Seq<char>> {
    Row::Choice {
        line: row.label,
        detail: if row.selected && row.detail.len() == 0 {
            "Current"@
        } else {
            row.detail
        },
        action_tag: if row.action is Some {
            Some((index * TAG_STRIDE + row_index) as isize)
        } else {
            None
        },
    }
}

pub open spec fn choices(rows: Seq<Shown>, index: usize) -> Seq<Row<Seq<char>>> {
    rows.map(|row_index: int, row: Shown| choice(row, index, row_index))
}

pub open spec fn submenu_rows(
    display: Display,
    index: usize,
    submenu: Submenu,
    catalog: Seq<Display>,
    context: Context,
) -> Seq<Row<Seq<char>>> {
    seq![Row::Back { title: submenu.entry().label }] + choices(
        submenu.rows_shown(display, catalog, context),
        index,
    )
}

/// The rows of the submenu can be worked out and tagged.
pub open spec fn can_open(
    display: Display,
    index: usize,
    submenu: Submenu,
    catalog: Seq<Display>,
    context: Context,
) -> bool {
    &&& submenu == Submenu::MoveDisplay ==> can_move(display)
    &&& submenu == Submenu::RefreshRate ==> rates_round(display.modes@)
    &&& index * TAG_STRIDE + submenu.rows_shown(display, catalog, context).len() <= isize::MAX
}

pub fn submenu_card(
    display: &Display,
    index: usize,
    submenu: Submenu,
    catalog: &[Display],
    context: &Context<'_>,
) -> (card: Card)
    requires
        can_open(*display, index, submenu, catalog@, *context),
    ensures
        card.shows(
            submenu_rows(*display, index, submenu, catalog@, *context),
            Surface::Inert,
        ),
{
    let mut rows: Vec<Row<String>> = Vec::new();
    assert(seen(rows@) =~= Seq::empty());
    put(&mut rows, Row::Back { title: submenu.label() });
    let ghost head = seen(rows@);
    assert(head =~= seq![Row::Back { title: submenu.entry().label }]);
    let listed: Vec<SubmenuRow> = submenu.rows(display, catalog, context);
    let ghost all = shown_rows(listed@);
    let mut i: usize = 0;
    assert(head + choices(all, index).take(0) =~= head);
    while i < listed.len()
        invariant
            i <= listed@.len(),
            all == shown_rows(listed@),
            index * TAG_STRIDE + listed@.len() <= isize::MAX,
            seen(rows@) == head + choices(all, index).take(i as int),
        decreases listed@.len() - i,
    {
        let row: &SubmenuRow = &listed[i];
        let detail = if row.selected && row.detail.as_str().unicode_len() == 0 {
            "Current".to_owned()
        } else {
            row.detail.clone()
        };
        let action_tag: Option<isize> = if row.action.is_some() {
            Some(tag(index, i as isize))
        } else {
            None
        };
        put(&mut rows, Row::Choice { line: row.label.clone(), detail, action_tag });
        proof {
            assert(all[i as int] == row.shown());
            assert(choices(all, index).take(i + 1) =~= choices(all, index).take(i as int).push(
                choices(all, index)[i as int],
            ));
            assert(seen(rows@) =~= head + choices(all, index).take(i + 1));
        }
        i += 1;
    }
    assert(choices(all, index).take(i as int) =~= choices(all, index));
    Card { rows, surface: Surface::Inert }
}

// --- settings ---------------------------------------------------------------

/// Whether the app is launched at login, as the system says.
#[derive(Clone, Copy, Debug, PartialEq, Eq, Structural)]
pub enum LoginStatus {
    Enabled,
    Disabled,
    RequiresApproval,
    Unavailable,
}

pub open spec fn approval(status: LoginStatus) -> Seq<Row<Seq<char>>> {
    if status == LoginStatus::RequiresApproval {
        seq![
            Row::Note { text: "Approval is required in System Settings"@ },
            Row::Plain {
                label: "Open Login Items Settings",
                symbol: "gearshape",
                command: Command::OpenLoginItemsSettings,
            },
        ]
    } else {
        Seq::empty()
    }
}

pub open spec fn settings_rows(status: LoginStatus, notice: Option<String>) -> Seq<
    Row<Seq<char>>,
> {
    seq![
        Row::Back { title: "Settings" },
        Row::Switch {
            label: "Launch at Login",
            symbol: "power",
            on: status == LoginStatus::Enabled,
            available: status != LoginStatus::Unavailable,
            switch: Switch::LaunchAtLogin,
            tag: 0,
        },
    ] + approval(status) + seq![
        Row::Plain {
            label: "Reconnect Displays",
            symbol: "arrow.clockwise",
            command: Command::ReconnectDisplays,
        },
        Row::Plain {
            label: "Restart DisEQ",
            symbol: "arrow.clockwise.circle",
            command: Command::RestartApp,
        },
        Row::Plain { label: "Quit DisEQ", symbol: "power", command: Command::QuitApp },
    ] + notes(notice)
}

pub fn settings_card(status: LoginStatus, notice: &Option<String>) -> (card: Card)
    ensures
        card.shows(settings_rows(status, *notice), Surface::Inert),
{
    let mut rows: Vec<Row<String>> = Vec::new();
    assert(seen(rows@) =~= Seq::empty());
    put(&mut rows, Row::Back { title: "Settings" });
    put(
        &mut rows,
        Row::Switch {
            label: "Launch at Login",
            symbol: "power",
            on: status == LoginStatus::Enabled,
            available: status != LoginStatus::Unavailable,
            switch: Switch::LaunchAtLogin,
            tag: 0,
        },
    );
    if status == LoginStatus::RequiresApproval {
        put(
            &mut rows,
            Row::Note { text: "Approval is required in System Settings".to_owned() },
        );
        put(
            &mut rows,
            Row::Plain {
                label: "Open Login Items Settings",
                symbol: "gearshape",
                command: Command::OpenLoginItemsSettings,
            },
        );
    }
    put(
        &mut rows,
        Row::Plain {
            label: "Reconnect Displays",
            symbol: "arrow.clockwise",
            command: Command::ReconnectDisplays,
        },
    );
    put(
        &mut rows,
        Row::Plain {
            label: "Restart DisEQ",
            symbol: "arrow.clockwise.circle",
            command: Command::RestartApp,
        },
    );
    put(
        &mut rows,
        Row::Plain { label: "Quit DisEQ", symbol: "power", command: Command::QuitApp },
    );
    put_notice(&mut rows, notice);
    assert(seen(rows@) =~= settings_rows(status, *notice));
    Card { rows, surface: Surface::Inert }
}

// --- sound card -------------------------------------------------------------

/// The label of a band: "16k" fits where "16kHz" does not, and the unit is
/// obvious from the company it keeps.
pub open spec fn frequency_text(frequency: u32) -> Seq<char> {
    if frequency >= 1_000 {
        digits(whole_units(frequency as nat)) + "k"@
    } else {
        digits(frequency as nat)
    }
}

pub fn frequency_label(frequency: u32) -> (label: String)
    ensures
        label@ == frequency_text(frequency),
{
    if frequency >= 1_000 {
        let mut label = decimal(rounded(frequency as u64));
        label.append("k");
        label
    } else {
        decimal(frequency as u64)
    }
}

/// One vertical fader of the bank.
#[derive(Debug)]
pub struct BandColumn {
    pub gain: i32,
    pub label: String,
    pub tag: isize,
}

/// The faders side by side: the shape every graphic equaliser has.
pub fn band_bank(gains: &Gains) -> (columns: Vec<BandColumn>)
    ensures
        columns@.len() == BAND_COUNT,
        forall|band: int|
            #![trigger columns@[band]]
            0 <= band < BAND_COUNT ==> {
                &&& columns@[band].gain == gains@[band]
                &&& columns@[band].label@ == frequency_text(FREQUENCIES@[band])
                &&& columns@[band].tag == SOUND_TAG_BASE + BAND_TAG_BASE + band
            },
{
    let mut columns: Vec<BandColumn> = Vec::new();
    let mut band: usize = 0;
    while band < BAND_COUNT
        invariant
            band <= BAND_COUNT,
            columns@.len() == band,
            forall|i: int|
                #![trigger columns@[i]]
                0 <= i < band ==> {
                    &&& columns@[i].gain == gains@[i]
                    &&& columns@[i].label@ == frequency_text(FREQUENCIES@[i])
                    &&& columns@[i].tag == SOUND_TAG_BASE + BAND_TAG_BASE + i
                },
        decreases BAND_COUNT - band,
    {
        columns.push(
            BandColumn {
                gain: gains[band],
                label: frequency_label(FREQUENCIES[band]),
                tag: band_tag(band),
            },
        );
        band += 1;
    }
    columns
}

/// A switch of the sound card.
pub open spec fn sound_switch(entry: Entry<SoundAction>, on: bool, available: bool) -> Row<
    Seq<char>,
> {
    Row::Switch {
        label: entry.label,
        symbol: entry.symbol,
        on,
        available,
        switch: Switch::Sound(entry.item),
        tag: (SOUND_TAG_BASE + entry.item.number()) as isize,
    }
}

/// The equaliser's own section. Auto-preamp owns the headroom while it is on,
/// and a manual offset on top of it can only add gain to a signal that has
/// already been measured as needing less: the preamp's fader is hidden rather
/// than disabled, because a control that cannot be used is better absent.
pub open spec fn eq_section(sound: SoundService) -> Seq<Row<Seq<char>>> {
    let settings = sound.equalizer.current();
    seq![
        Row::Preset {
            preset: preset_row(sound.equalizer.choice()).name,
            tag: SOUND_TAG_BASE,
        },
        Row::Bank { gains: settings.gains },
        Row::AutoPreamp {
            label: AUTO_PREAMP,
            on: settings.auto_preamp,
            tag: (SOUND_TAG_BASE + SoundAction::AutoPreamp.number()) as isize,
        },
    ] + (if settings.auto_preamp {
        Seq::empty()
    } else {
        seq![
            Row::Preamp {
                preamp: settings.preamp,
                shown: settings.overall() as i32,
                tag: (SOUND_TAG_BASE + PREAMP_TAG) as isize,
            },
        ]
    })
}

/// The application faders.
pub open spec fn fader_rows(faders: Seq<AppFader>) -> Seq<Row<Seq<char>>> {
    faders.map(
        |index: int, fader: AppFader|
            Row::Fader {
                name: fader_name(fader.process),
                gain: fader.gain,
                tag: (SOUND_TAG_BASE + APP_TAG_BASE + index) as isize,
            },
    )
}

/// The applications with a fader.
pub open spec fn faders(sound: SoundService) -> Seq<AppFader> {
    match sound.mixer {
        Some(mixer) => Seq::new(
            mixer.taps@.len(),
            |i: int|
                AppFader {
                    process: mixer.taps@[i].process,
                    gain: mixer.faders.slots@[i].gain,
                },
        ),
        None => Seq::empty(),
    }
}

/// The switches, the fader bank and the app strip: everything behind the caret.
///
/// A switch that is on shows what it turns on, directly beneath itself; one that
/// cannot be used says why.
pub open spec fn sound_section(sound: SoundService) -> Seq<Row<Seq<char>>> {
    let enabled = sound.equalizer.current().enabled;
    let driver = sound.availability.driver;
    seq![sound_switch(SoundAction::listed()[0], enabled, driver)] + (if !driver {
        seq![Row::Note { text: "Driver not installed — run 'make driver-install'"@ }]
    } else if enabled {
        eq_section(sound)
    } else {
        Seq::empty()
    }) + seq![sound_switch(SoundAction::listed()[1], sound.mixer is Some, true)] + fader_rows(
        faders(sound),
    )
}

fn put_eq_section(rows: &mut Vec<Row<String>>, sound: &SoundService)
    requires
        sound.wf(),
    ensures
        seen(final(rows)@) == seen(old(rows)@) + eq_section(*sound),
{
    proof {
        sound.equalizer.lemma_wf();
    }
    let settings = *sound.settings();
    put(rows, preset_line(sound));
    put(rows, Row::Bank { gains: settings.gains });
    put(
        rows,
        Row::AutoPreamp {
            label: AUTO_PREAMP,
            on: settings.auto_preamp,
            tag: sound_tag(SoundAction::AutoPreamp.index()),
        },
    );
    if !settings.auto_preamp {
        // Only ever shown with auto-preamp off, so the readout and the slider
        // are the same number.
        put(
            rows,
            Row::Preamp {
                preamp: settings.preamp,
                shown: settings.global_gain(),
                tag: preamp_tag(),
            },
        );
    }
    assert(seen(rows@) =~= seen(old(rows)@) + eq_section(*sound));
}

/// The row that names the preset in force and opens the list of them.
fn preset_line(sound: &SoundService) -> (row: Row<String>)
    requires
        sound.wf(),
    ensures
        row@ == (Row::<Seq<char>>::Preset {
            preset: preset_row(sound.equalizer.choice()).name,
            tag: SOUND_TAG_BASE,
        }),
{
    Row::Preset { preset: sound.equalizer.selected_name(), tag: sound_tag(0) }
}

fn put_faders(rows: &mut Vec<Row<String>>, sound: &SoundService)
    requires
        sound.wf(),
    ensures
        seen(final(rows)@) == seen(old(rows)@) + fader_rows(faders(*sound)),
{
    let ghost start = seen(rows@);
    let listed = sound.app_faders();
    let ghost all = fader_rows(listed@);
    assert(listed@ =~= faders(*sound));
    assert(start + all.take(0) =~= start);
    let mut i: usize = 0;
    while i < listed.len()
        invariant
            i <= listed@.len(),
            listed@.len() <= MAX_FADERS,
            all == fader_rows(listed@),
            seen(rows@) == start + all.take(i as int),
        decreases listed@.len() - i,
    {
        put(
            rows,
            Row::Fader { name: listed[i].name(), gain: listed[i].gain, tag: app_tag(i) },
        );
        assert(all.take(i + 1) =~= all.take(i as int).push(all[i as int]));
        assert(seen(rows@) =~= start + all.take(i + 1));
        i += 1;
    }
    assert(all.take(i as int) =~= all);
}

fn put_sound_section(rows: &mut Vec<Row<String>>, sound: &SoundService)
    requires
        sound.wf(),
    ensures
        seen(final(rows)@) == seen(old(rows)@) + sound_section(*sound),
{
    let ghost start = seen(rows@);
    let entries = SoundAction::card();
    let on: bool = sound.settings().enabled;
    let blocked = sound.availability().eq_blocked();
    put(
        rows,
        Row::Switch {
            label: entries[0].label,
            symbol: entries[0].symbol,
            on,
            available: blocked.is_none(),
            switch: Switch::Sound(entries[0].item),
            tag: sound_tag(entries[0].item.index()),
        },
    );
    match blocked {
        Some(reason) => {
            put(rows, Row::Note { text: reason });
        },
        None => {
            if on {
                put_eq_section(rows, sound);
            }
        },
    }
    let mixing: bool = sound.is_mixing();
    put(
        rows,
        Row::Switch {
            label: entries[1].label,
            symbol: entries[1].symbol,
            on: mixing,
            available: true,
            switch: Switch::Sound(entries[1].item),
            tag: sound_tag(entries[1].item.index()),
        },
    );
    if mixing {
        put_faders(rows, sound);
    } else {
        assert(fader_rows(faders(*sound)) =~= Seq::empty());
    }
    assert(seen(rows@) =~= start + sound_section(*sound));
}

/// The rows of the sound card. Closed, it is only its identity and output.
pub open spec fn sound_rows(sound: SoundService, state: ViewState) -> Seq<Row<Seq<char>>> {
    let identity = seq![
        Row::SoundHeader {
            output: match sound.heard() {
                Some(device) => device.name@,
                None => "No output"@,
            },
            tag: SOUND_TAG_BASE,
        },
    ];
    if !sound.config.sound_open {
        identity
    } else {
        identity + seq![
            Row::Volume {
                volume: sound.volume,
                settable: sound.route is Some || (sound.target matches Some(target)
                    && target.volume_is_settable),
                tag: (SOUND_TAG_BASE + MASTER_VOLUME_TAG) as isize,
            },
        ] + (if state.sound_expanded {
            sound_section(sound)
        } else {
            Seq::empty()
        }) + notes(state.sound_notice) + seq![
            Row::Caret { expanded: state.sound_expanded, tag: SOUND_TAG_BASE },
        ]
    }
}

pub fn sound_card(sound: &SoundService, state: &ViewState) -> (card: Card)
    requires
        sound.wf(),
    ensures
        card.shows(
            sound_rows(*sound, *state),
            Surface::Sound { tag: SOUND_TAG_BASE, highlight: !sound.config.sound_open },
        ),
{
    let mut rows: Vec<Row<String>> = Vec::new();
    assert(seen(rows@) =~= Seq::empty());
    put(&mut rows, Row::SoundHeader { output: sound.output_name(), tag: sound_tag(0) });
    if !sound.sound_card_is_open() {
        assert(seen(rows@) =~= sound_rows(*sound, *state));
        return Card { rows, surface: Surface::Sound { tag: sound_tag(0), highlight: true } };
    }
    put(
        &mut rows,
        Row::Volume {
            volume: sound.volume(),
            settable: sound.volume_is_settable(),
            tag: master_volume_tag(),
        },
    );
    if state.sound_expanded {
        put_sound_section(&mut rows, sound);
    }
    put_notice(&mut rows, &state.sound_notice);
    put(&mut rows, Row::Caret { expanded: state.sound_expanded, tag: sound_tag(0) });
    assert(seen(rows@) =~= sound_rows(*sound, *state));
    Card { rows, surface: Surface::Sound { tag: sound_tag(0), highlight: false } }
}

// --- lists behind the sound card --------------------------------------------

pub open spec fn preset_choice(index: int, selected: Seq<char>) -> Row<Seq<char>> {
    Row::PresetChoice {
        preset: preset_row(index).name,
        current: preset_row(index).id@ == selected,
        tag: (SOUND_TAG_BASE + index) as isize,
    }
}

pub open spec fn preset_rows(selected: Seq<char>) -> Seq<Row<Seq<char>>> {
    seq![Row::Back { title: "Preset" }] + Seq::new(
        PRESET_COUNT as nat,
        |index: int| preset_choice(index, selected),
    )
}

/// The equaliser's preset list, as a card of its own.
pub fn presets_card(selected: &str) -> (card: Card)
    ensures
        card.shows(preset_rows(selected@), Surface::Inert),
{
    let mut rows: Vec<Row<String>> = Vec::new();
    assert(seen(rows@) =~= Seq::empty());
    put(&mut rows, Row::Back { title: "Preset" });
    let mut i: usize = 0;
    assert(seen(rows@) =~= preset_rows(selected@).take(1));
    while i < PRESET_COUNT
        invariant
            i <= PRESET_COUNT,
            seen(rows@) == preset_rows(selected@).take(i + 1),
        decreases PRESET_COUNT - i,
    {
        let preset = preset_at(i);
        put(
            &mut rows,
            Row::PresetChoice {
                preset: preset.name,
                current: same(preset.id, selected),
                tag: sound_tag(i as isize),
            },
        );
        assert(preset_rows(selected@)[i + 1] == preset_choice(i as int, selected@));
        assert(seen(rows@) =~= preset_rows(selected@).take(i + 2));
        i += 1;
    }
    assert(preset_rows(selected@).take(i + 1) =~= preset_rows(selected@));
    Card { rows, surface: Surface::Inert }
}

pub open spec fn output_choice(output: Device, sound: SoundService) -> Row<Seq<char>> {
    Row::Output {
        name: output.name@,
        current: sound.has_selected(output.id),
        tag: (SOUND_TAG_BASE + output.id) as isize,
    }
}

pub open spec fn output_rows(outputs: Seq<Device>, sound: SoundService) -> Seq<Row<Seq<char>>> {
    seq![Row::Back { title: "Output" }] + (if outputs.len() == 0 {
        seq![Row::Note { text: "No hardware outputs are available"@ }]
    } else {
        outputs.map_values(|output: Device| output_choice(output, sound))
    })
}

/// Every output can be told by its tag.
pub open spec fn outputs_have_tags(outputs: Seq<Device>) -> bool {
    forall|i: int|
        0 <= i < outputs.len() ==> SOUND_TAG_BASE + (#[trigger] outputs[i]).id <= isize::MAX
}

/// The physical destination picker opened from the Sound header.
pub fn outputs_card(outputs: &[Device], sound: &SoundService) -> (card: Card)
    requires
        outputs_have_tags(outputs@),
    ensures
        card.shows(output_rows(outputs@, *sound), Surface::Inert),
{
    let mut rows: Vec<Row<String>> = Vec::new();
    assert(seen(rows@) =~= Seq::empty());
    put(&mut rows, Row::Back { title: "Output" });
    if outputs.len() == 0 {
        put(&mut rows, Row::Note { text: "No hardware outputs are available".to_owned() });
        assert(seen(rows@) =~= output_rows(outputs@, *sound));
        return Card { rows, surface: Surface::Inert };
    }
    let mut i: usize = 0;
    assert(seen(rows@) =~= output_rows(outputs@, *sound).take(1));
    while i < outputs.len()
        invariant
            i <= outputs@.len(),
            outputs@.len() > 0,
            outputs_have_tags(outputs@),
            seen(rows@) == output_rows(outputs@, *sound).take(i + 1),
        decreases outputs@.len() - i,
    {
        let output = &outputs[i];
        put(
            &mut rows,
            Row::Output {
                name: output.name.clone(),
                current: sound.output_is_selected(output),
                tag: sound_tag(output.id as isize),
            },
        );
        assert(output_rows(outputs@, *sound)[i + 1] == output_choice(outputs@[i as int], *sound));
        assert(seen(rows@) =~= output_rows(outputs@, *sound).take(i + 2));
        i += 1;
    }
    assert(output_rows(outputs@, *sound).take(i + 1) =~= output_rows(outputs@, *sound));
    Card { rows, surface: Surface::Inert }
}

// --- the panel --------------------------------------------------------------

/// A part of the panel, from top to bottom.
#[derive(Debug)]
pub enum Piece<C> {
    Card { card: C },
    /// The buttons that open the settings and close the panel.
    Footer,
}

/// What a card shows.
pub struct CardShown {
    pub rows: Seq<Row<Seq<char>>>,
    pub surface: Surface,
}

impl Piece<Card> {
    pub open spec fn view(self) -> Piece<CardShown> {
        match self {
            Piece::Card { card } => Piece::Card {
                card: CardShown { rows: seen(card.rows@), surface: card.surface },
            },
            Piece::Footer => Piece::Footer,
        }
    }
}

pub open spec fn pieces_seen(pieces: Seq<Piece<Card>>) -> Seq<Piece<CardShown>> {
    pieces.map_values(|piece: Piece<Card>| piece@)
}

/// What the panel is drawn from.
pub struct Scene<'a> {
    pub displays: &'a [Display],
    /// What is known of each of the displays.
    pub facts: &'a [DisplayFacts],
    /// What the open submenu shows besides.
    pub context: &'a Context<'a>,
    pub sound: &'a SoundService,
    pub outputs: &'a [Device],
    pub login: LoginStatus,
}

pub open spec fn card_shown(rows: Seq<Row<Seq<char>>>, surface: Surface) -> Piece<CardShown> {
    Piece::Card { card: CardShown { rows, surface } }
}

pub open spec fn display_piece(scene: Scene, state: ViewState, index: int) -> Piece<CardShown> {
    card_shown(
        display_rows(scene.displays@[index], index as usize, scene.facts@[index], state),
        display_surface(index as usize, scene.facts@[index]),
    )
}

/// The parts of the panel.
pub open spec fn panel(scene: Scene, state: ViewState) -> Seq<Piece<CardShown>> {
    match state.route {
        Route::Submenu { display, submenu } => if display < scene.displays@.len() {
            seq![
                card_shown(
                    submenu_rows(
                        scene.displays@[display as int],
                        display,
                        submenu,
                        scene.displays@,
                        *scene.context,
                    ),
                    Surface::Inert,
                ),
            ]
        } else {
            Seq::empty()
        },
        Route::Presets => seq![
            card_shown(
                preset_rows(preset_row(scene.sound.equalizer.choice()).id@),
                Surface::Inert,
            ),
        ],
        Route::Outputs => seq![
            card_shown(output_rows(scene.outputs@, *scene.sound), Surface::Inert),
        ],
        Route::Settings => seq![
            card_shown(settings_rows(scene.login, state.settings_notice), Surface::Inert),
        ],
        Route::Root => Seq::new(
            scene.displays@.len(),
            |index: int| display_piece(scene, state, index),
        ) + seq![
            card_shown(
                sound_rows(*scene.sound, state),
                Surface::Sound {
                    tag: SOUND_TAG_BASE,
                    highlight: !scene.sound.config.sound_open,
                },
            ),
            Piece::Footer,
        ],
    }
}

fn place(pieces: &mut Vec<Piece<Card>>, card: Card)
    ensures
        pieces_seen(final(pieces)@) == pieces_seen(old(pieces)@).push(
            card_shown(seen(card.rows@), card.surface),
        ),
{
    pieces.push(Piece::Card { card });
    assert(pieces_seen(pieces@) =~= pieces_seen(old(pieces)@).push(
        card_shown(seen(card.rows@), card.surface),
    ));
}

/// Lays the panel out.
pub fn root(scene: &Scene<'_>, state: &ViewState) -> (pieces: Vec<Piece<Card>>)
    requires
        scene.sound.wf(),
        scene.facts@.len() == scene.displays@.len(),
        scene.displays@.len() * TAG_STRIDE + TAG_STRIDE <= isize::MAX,
        outputs_have_tags(scene.outputs@),
        state.route matches Route::Submenu { display, submenu } ==> (display
            < scene.displays@.len() ==> can_open(
            scene.displays@[display as int],
            display,
            submenu,
            scene.displays@,
            *scene.context,
        )),
    ensures
        pieces_seen(pieces@) == panel(*scene, *state),
{
    let mut pieces: Vec<Piece<Card>> = Vec::new();
    assert(pieces_seen(pieces@) =~= Seq::empty());
    match state.route {
        Route::Submenu { display, submenu } => {
            if display < scene.displays.len() {
                place(
                    &mut pieces,
                    submenu_card(
                        &scene.displays[display],
                        display,
                        submenu,
                        scene.displays,
                        scene.context,
                    ),
                );
            }
        },
        Route::Presets => {
            place(&mut pieces, presets_card(scene.sound.selected_preset()));
        },
        Route::Outputs => {
            place(&mut pieces, outputs_card(scene.outputs, scene.sound));
        },
        Route::Settings => {
            place(&mut pieces, settings_card(scene.login, &state.settings_notice));
        },
        Route::Root => {
            let mut i: usize = 0;
            while i < scene.displays.len()
                invariant
                    i <= scene.displays@.len(),
                    state.route == Route::Root,
                    scene.facts@.len() == scene.displays@.len(),
                    scene.displays@.len() * TAG_STRIDE + TAG_STRIDE <= isize::MAX,
                    pieces_seen(pieces@) == panel(*scene, *state).take(i as int),
                decreases scene.displays@.len() - i,
            {
                place(
                    &mut pieces,
                    display_card(&scene.displays[i], i, &scene.facts[i], state),
                );
                assert(panel(*scene, *state)[i as int] == display_piece(
                    *scene,
                    *state,
                    i as int,
                ));
                assert(pieces_seen(pieces@) =~= panel(*scene, *state).take(i + 1));
                i += 1;
            }
            place(&mut pieces, sound_card(scene.sound, state));
            let ghost before = pieces_seen(pieces@);
            pieces.push(Piece::Footer);
            assert(pieces_seen(pieces@) =~= before.push(Piece::Footer));
        },
    }
    assert(pieces_seen(pieces@) =~= panel(*scene, *state));
    pieces
}

// --- what holds of tags -----------------------------------------------------

/// A display's tag has the item in its last two digits and the display before
/// them, and leads back to both.
pub proof fn law_a_tag_leads_back_to_its_row(
    index: usize,
    item: isize,
    made: isize,
    decoded: (usize, isize),
    sound: Option<isize>,
)
    requires
        0 <= item < 100,
        index * 100 + item <= isize::MAX,
        call_ensures(tag, (index, item), made),
        call_ensures(decode_tag, (made,), decoded),
        call_ensures(decode_sound_tag, (made,), sound),
    ensures
        made == index * 100 + item,
        decoded == (index, item),
        sound is None <==> made < 100_000,
{
}

/// Any tag is read: a display and an item, the item in its last two digits; a
/// negative one counts displays from the other end.
pub proof fn law_any_tag_is_read(tag: isize, decoded: (usize, isize))
    requires
        call_ensures(decode_tag, (tag,), decoded),
    ensures
        tag >= 0 ==> decoded.0 * 100 + decoded.1 == tag && 0 <= decoded.1 < 100,
        tag < 0 ==> -100 < decoded.1 <= 0 && (if tag > -100 {
            decoded.0 == 0 && decoded.1 == tag
        } else {
            (decoded.0 - (usize::MAX + 1)) * 100 + decoded.1 == tag
        }),
{
}

/// The tags of the Sound card begin at a hundred thousand: switches and lists
/// first, the pre-amp and the volume, then the bands, then the faders; each
/// leads back to what it was made for and to nothing else.
pub proof fn law_a_sound_tag_leads_back_to_its_row(
    item: isize,
    one: isize,
    band: usize,
    two: isize,
    app: usize,
    three: isize,
    preamp: isize,
    volume: isize,
    a: Option<isize>,
    b: Option<usize>,
    c: Option<usize>,
    not_b: Option<usize>,
    not_c: Option<usize>,
    pre_b: Option<usize>,
    vol_c: Option<usize>,
)
    requires
        0 <= item < 100,
        band < 100,
        app < 1_000_000,
        call_ensures(sound_tag, (item,), one),
        call_ensures(decode_sound_tag, (one,), a),
        call_ensures(band_tag, (band,), two),
        call_ensures(decode_band, (two,), b),
        call_ensures(decode_app, (two,), not_c),
        call_ensures(app_tag, (app,), three),
        call_ensures(decode_app, (three,), c),
        call_ensures(decode_band, (three,), not_b),
        call_ensures(preamp_tag, (), preamp),
        call_ensures(master_volume_tag, (), volume),
        call_ensures(decode_band, (preamp,), pre_b),
        call_ensures(decode_app, (volume,), vol_c),
    ensures
        one == 100_000 + item,
        a == Some(item),
        two == 100_100 + band,
        b == Some(band) && not_c is None,
        three == 100_200 + app,
        c == Some(app) && not_b is None,
        preamp == 100_050 && volume == 100_051,
        pre_b is None && vol_c is None,
{
}

// --- what holds of the cards ------------------------------------------------

proof fn lemma_seen(rows: Seq<Row<String>>, i: int)
    requires
        0 <= i < rows.len(),
    ensures
        seen(rows).len() == rows.len(),
        seen(rows)[i] == rows[i]@,
{
}

/// A display's card begins with what it is. Disconnected it shows no more and
/// takes no click; closed it shows no more and is highlighted; open it shows
/// brightness and resolution, what is expanded, a notice, and the caret.
pub proof fn law_the_card_of_a_display(
    display: Display,
    index: usize,
    facts: DisplayFacts,
    state: ViewState,
    card: Card,
    expanded: bool,
)
    requires
        has_tags(index),
        call_ensures(display_card, (&display, index, &facts, &state), card),
        call_ensures(ViewState::is_expanded, (&state, index), expanded),
    ensures
        card.rows@[0] matches Row::Header { symbol, name, is_main, connected, tag } && symbol@
            == (if display.snapshot.is_builtin {
            "laptopcomputer"@
        } else {
            "display"@
        }) && name@ == display.snapshot.name@ && is_main == display.snapshot.is_main && connected
            == facts.connected && tag == index * 100,
        !facts.connected ==> card.rows@.len() == 1 && card.surface == Surface::Inert,
        facts.connected ==> card.surface == (Surface::Display {
            tag: (index * 100) as isize,
            highlight: !facts.open,
        }),
        facts.connected && !facts.open ==> card.rows@.len() == 1,
        facts.connected && facts.open ==> {
            let last = card.rows@.len() - 1;
            &&& card.rows@.len() >= 4
            &&& card.rows@[1] is Brightness
            &&& card.rows@[2] is Resolution || card.rows@[2] is NoResolution
            &&& card.rows@[last] matches Row::Caret { expanded: shown, tag } && shown == expanded
                && tag == index * 100
            &&& state.notice matches Some(text) ==> (card.rows@[last - 1] matches Row::Note {
                text: told,
            } && told@ == text@)
            &&& !expanded ==> card.rows@.len() == (if state.notice is Some {
                5int
            } else {
                4
            })
        },
{
    assert(seen(card.rows@).len() == card.rows@.len());
    lemma_seen(card.rows@, 0);
    if facts.connected && facts.open {
        let last = card.rows@.len() - 1;
        lemma_seen(card.rows@, 1);
        lemma_seen(card.rows@, 2);
        lemma_seen(card.rows@, last);
        lemma_seen(card.rows@, last - 1);
    }
}

/// Brightness is shown by what drives it and can be moved where anything does;
/// the resolution by the mode in force, its stop among those on offer, and can
/// be moved where there is more than one.
pub proof fn law_the_sliders_of_a_display(
    display: Display,
    index: usize,
    facts: DisplayFacts,
    state: ViewState,
    card: Card,
    driven: &'static str,
    available: bool,
    modes: Vec<DisplayMode>,
    stop: Option<usize>,
    scale: Option<(u32, u32)>,
    caption: &'static str,
    size: String,
)
    requires
        has_tags(index),
        facts.connected && facts.open,
        call_ensures(display_card, (&display, index, &facts, &state), card),
        call_ensures(BrightnessBackend::caption, (facts.backend,), driven),
        call_ensures(BrightnessBackend::is_available, (facts.backend,), available),
        call_ensures(Display::selectable_modes, (&display,), modes),
        call_ensures(Display::current_mode_index, (&display,), stop),
        call_ensures(Display::resolution_scale, (&display,), scale),
        display.snapshot.current_mode matches Some(mode) ==> call_ensures(
            caption_of,
            (&mode,),
            caption,
        ) && call_ensures(size_of, (&mode,), size),
    ensures
        card.rows@[1] matches Row::Brightness { caption, level, enabled, tag } && caption == driven
            && level == facts.level && enabled == available && tag == index * 100,
        display.snapshot.current_mode is None ==> card.rows@[2] is NoResolution,
        display.snapshot.current_mode is Some ==> (card.rows@[2] matches Row::Resolution {
            caption: shown,
            size: text,
            scale: against,
            stop: at,
            last_stop,
            stops,
            enabled,
            tag,
        } && {
            &&& shown == caption
            &&& text@ == size@
            &&& against == scale
            &&& stop matches Some(stop) ==> at == stop
            &&& stop is None ==> at == 0
            &&& stops == modes@.len()
            &&& modes@.len() > 1 ==> last_stop == modes@.len() - 1
            &&& modes@.len() <= 1 ==> last_stop == 1
            &&& enabled <==> modes@.len() > 1
            &&& tag == index * 100
        }),
{
    assert(seen(card.rows@).len() == card.rows@.len());
    lemma_seen(card.rows@, 1);
    lemma_seen(card.rows@, 2);
    assert(modes.len() == modes@.len());
    assert(modes@.len() == display.selectable().len());
}

/// A mode is written as its size, and its caption says whether it is a sharp
/// one.
pub proof fn law_a_mode_is_written_as_its_size(
    mode: DisplayMode,
    size: String,
    caption: &'static str,
    width: String,
    height: String,
)
    requires
        call_ensures(size_of, (&mode,), size),
        call_ensures(caption_of, (&mode,), caption),
        call_ensures(decimal, (mode.width as u64,), width),
        call_ensures(decimal, (mode.height as u64,), height),
    ensures
        size@ == width@ + "x"@ + height@,
        mode.hidpi ==> caption@ == "Resolution (HiDPI)"@,
        !mode.hidpi ==> caption@ == "Resolution"@,
{
}

/// An expanded card lists every submenu, then every switch that shows on the
/// display, each under its number, as it stands.
pub proof fn law_an_expanded_card_lists_everything(
    display: Display,
    index: usize,
    facts: DisplayFacts,
    state: ViewState,
    card: Card,
    submenus: Vec<Entry<Submenu>>,
    switches: Vec<Entry<CardAction>>,
    i: int,
    number: isize,
    j: int,
    place: isize,
    stands: (bool, bool),
    visible: bool,
)
    requires
        has_tags(index),
        facts.connected && facts.open,
        call_ensures(ViewState::is_expanded, (&state, index), true),
        call_ensures(display_card, (&display, index, &facts, &state), card),
        call_ensures(Submenu::all, (), submenus),
        call_ensures(CardAction::all, (), switches),
        0 <= i < 8,
        call_ensures(Submenu::index, (submenus@[i].item,), number),
        0 <= j < 6,
        call_ensures(CardAction::index, (switches@[j].item,), place),
        call_ensures(CardAction::state, (switches@[j].item, &display, facts.card), stands),
        call_ensures(CardAction::is_visible, (switches@[j].item, &display), visible),
    ensures
        card.rows@[3 + i] matches Row::Disclosure { label, symbol, tag } && label
            == submenus@[i].label && symbol == submenus@[i].symbol && tag == index * 100 + number,
        j < 5 ==> visible,
        visible ==> (card.rows@[11 + j] matches Row::Toggle { label, symbol, on, available, tag }
            && label == switches@[j].label && symbol == switches@[j].symbol && on == stands.0
            && available == stands.1 && tag == index * 100 + place),
        card.rows@.len() == 3 + 8 + (if display.snapshot.is_main {
            6int
        } else {
            5
        }) + (if state.notice is Some {
            1int
        } else {
            0
        }) + 1,
{
    reveal_with_fuel(toggles, 7);
    assert(seen(card.rows@).len() == card.rows@.len());
    let listed = toggles(display, index, facts.card, 6);
    assert(CardAction::listed().len() == 6);
    assert(listed.len() == (if display.snapshot.is_main {
        6int
    } else {
        5
    }));
    lemma_seen(card.rows@, 3 + i);
    assert(seen(card.rows@)[3 + i] == disclosures(index)[i]);
    if visible {
        lemma_seen(card.rows@, 11 + j);
        assert(seen(card.rows@)[11 + j] == listed[j]);
    }
}

/// A submenu's card has its name over its rows, each as the submenu has it, with
/// a tag where it does something, and says which is in force.
pub proof fn law_the_card_of_a_submenu(
    display: Display,
    index: usize,
    submenu: Submenu,
    catalog: &[Display],
    context: Context,
    card: Card,
    label: &'static str,
    rows: Vec<SubmenuRow>,
    i: int,
)
    requires
        can_open(display, index, submenu, catalog@, context),
        call_ensures(submenu_card, (&display, index, submenu, catalog, &context), card),
        call_ensures(Submenu::label, (submenu,), label),
        call_ensures(Submenu::rows, (submenu, &display, catalog, &context), rows),
    ensures
        card.surface == Surface::Inert,
        card.rows@.len() == rows@.len() + 1,
        card.rows@[0] matches Row::Back { title } && title == label,
        0 <= i < rows@.len() ==> (card.rows@[i + 1] matches Row::Choice {
            line,
            detail,
            action_tag,
        } && {
            &&& line@ == rows@[i].label@
            &&& rows@[i].selected && rows@[i].detail@.len() == 0 ==> detail@ == "Current"@
            &&& !(rows@[i].selected && rows@[i].detail@.len() == 0) ==> detail@ == rows@[i].detail@
            &&& action_tag is Some <==> rows@[i].action is Some
            &&& action_tag matches Some(tag) ==> tag == index * 100 + i
        }),
{
    assert(seen(card.rows@).len() == card.rows@.len());
    assert(shown_rows(rows@).len() == rows@.len());
    lemma_seen(card.rows@, 0);
    if 0 <= i < rows@.len() {
        lemma_seen(card.rows@, i + 1);
        assert(shown_rows(rows@)[i] == rows@[i].shown());
        assert(choices(shown_rows(rows@), index)[i] == choice(rows@[i].shown(), index, i));
    }
}

/// The settings: launching at login, as it stands, with a way to approve it
/// where it waits for that, then what can be done, and a notice.
pub proof fn law_the_card_of_the_settings(
    status: LoginStatus,
    notice: Option<String>,
    card: Card,
)
    requires
        call_ensures(settings_card, (status, &notice), card),
    ensures
        ({
            let rows = card.rows@;
            let waits = status == LoginStatus::RequiresApproval;
            let from: int = if waits {
                4
            } else {
                2
            };
            let does = |row: Row<String>, label: Seq<char>, symbol: Seq<char>, command: Command|
                row is Plain && row->Plain_label@ == label && row->Plain_symbol@ == symbol
                    && row->Plain_command == command;
            &&& card.surface == Surface::Inert
            &&& rows.len() == from + 3 + (if notice is Some {
                1int
            } else {
                0
            })
            &&& rows[0] is Back && rows[0]->Back_title@ == "Settings"@
            &&& rows[1] matches Row::Switch { label, symbol, on, available, switch, tag } && label@
                == "Launch at Login"@ && symbol@ == "power"@ && (on <==> status
                == LoginStatus::Enabled) && (available <==> status != LoginStatus::Unavailable)
                && switch == Switch::LaunchAtLogin && tag == 0
            &&& waits ==> rows[2] is Note && rows[2]->Note_text@
                == "Approval is required in System Settings"@ && does(
                rows[3],
                "Open Login Items Settings"@,
                "gearshape"@,
                Command::OpenLoginItemsSettings,
            )
            &&& does(
                rows[from],
                "Reconnect Displays"@,
                "arrow.clockwise"@,
                Command::ReconnectDisplays,
            )
            &&& does(
                rows[from + 1],
                "Restart DisEQ"@,
                "arrow.clockwise.circle"@,
                Command::RestartApp,
            )
            &&& does(rows[from + 2], "Quit DisEQ"@, "power"@, Command::QuitApp)
            &&& notice matches Some(text) ==> rows.last() is Note && rows.last()->Note_text@
                == text@
        }),
{
    let rows = card.rows@;
    assert(seen(rows).len() == rows.len());
    lemma_seen(rows, 0);
    lemma_seen(rows, 1);
    lemma_seen(rows, 2);
    lemma_seen(rows, 3);
    lemma_seen(rows, 4);
    if status == LoginStatus::RequiresApproval {
        lemma_seen(rows, 5);
        lemma_seen(rows, 6);
    }
    lemma_seen(rows, rows.len() - 1);
}

/// A band's column shows its level under its frequency, in thousands from a
/// thousand on.
pub proof fn law_a_band_has_its_column(
    gains: Gains,
    columns: Vec<BandColumn>,
    band: int,
    label: String,
    frequency: u32,
    thousands: u64,
    short: String,
    plain: String,
    shown: String,
    tag: isize,
)
    requires
        call_ensures(band_bank, (&gains,), columns),
        0 <= band < 10,
        call_ensures(frequency_label, (FREQUENCIES@[band],), label),
        call_ensures(band_tag, (band as usize,), tag),
        call_ensures(frequency_label, (frequency,), shown),
        call_ensures(rounded, (frequency as u64,), thousands),
        call_ensures(decimal, (thousands,), short),
        call_ensures(decimal, (frequency as u64,), plain),
    ensures
        columns@.len() == 10,
        columns@[band].gain == gains@[band],
        columns@[band].label@ == label@,
        columns@[band].tag == tag,
        FREQUENCIES@ == seq![32u32, 64, 125, 250, 500, 1000, 2000, 4000, 8000, 16000],
        frequency >= 1_000 ==> shown@ == short@ + "k"@,
        frequency < 1_000 ==> shown@ == plain@,
{
    assert(columns@[band] == columns@[band]);
    assert(FREQUENCIES@ =~= seq![32u32, 64, 125, 250, 500, 1000, 2000, 4000, 8000, 16000]);
}

/// The Sound card begins with what is heard. Closed it shows no more and is
/// highlighted; open it shows the volume, what is expanded, a notice, and the
/// caret.
pub proof fn law_the_card_of_the_sound(
    sound: SoundService,
    state: ViewState,
    card: Card,
    name: String,
    open: bool,
    volume: u32,
    settable: bool,
)
    requires
        sound.wf(),
        call_ensures(sound_card, (&sound, &state), card),
        call_ensures(SoundService::output_name, (&sound,), name),
        call_ensures(SoundService::sound_card_is_open, (&sound,), open),
        call_ensures(SoundService::volume, (&sound,), volume),
        call_ensures(SoundService::volume_is_settable, (&sound,), settable),
    ensures
        card.surface == (Surface::Sound { tag: 100_000, highlight: !open }),
        card.rows@[0] matches Row::SoundHeader { output, tag } && output@ == name@ && tag
            == 100_000,
        !open ==> card.rows@.len() == 1,
        open ==> {
            let last = card.rows@.len() - 1;
            &&& card.rows@.len() >= 3
            &&& card.rows@[1] matches Row::Volume { volume: shown, settable: can, tag } && shown
                == volume && can == settable && tag == 100_051
            &&& card.rows@[last] matches Row::Caret { expanded, tag } && expanded
                == state.sound_expanded && tag == 100_000
            &&& state.sound_notice matches Some(text) ==> (card.rows@[last - 1] matches Row::Note {
                text: told,
            } && told@ == text@)
            &&& !state.sound_expanded ==> card.rows@.len() == (if state.sound_notice is Some {
                4int
            } else {
                3
            })
        },
{
    assert(seen(card.rows@).len() == card.rows@.len());
    lemma_seen(card.rows@, 0);
    if open {
        let last = card.rows@.len() - 1;
        lemma_seen(card.rows@, 1);
        lemma_seen(card.rows@, last);
        lemma_seen(card.rows@, last - 1);
    }
}

/// An expanded Sound card has the equaliser's switch, which needs the driver and
/// says so; its controls where it is on; the mixer's switch; and a fader for each
/// application, in order.
pub proof fn law_an_expanded_sound_card_has_its_controls(
    sound: SoundService,
    state: ViewState,
    card: Card,
    settings: &Settings,
    preset: &'static str,
    level: i32,
    faders: Vec<AppFader>,
    i: int,
    name: String,
)
    requires
        sound.wf(),
        sound.config.sound_open && state.sound_expanded,
        call_ensures(sound_card, (&sound, &state), card),
        call_ensures(SoundService::settings, (&sound,), settings),
        call_ensures(Equalizer::selected_name, (&sound.equalizer,), preset),
        call_ensures(Settings::global_gain, (settings,), level),
        call_ensures(SoundService::app_faders, (&sound,), faders),
        0 <= i < faders@.len() ==> call_ensures(AppFader::name, (&faders@[i],), name),
    ensures
        ({
            let rows = card.rows@;
            let driver = sound.availability.driver;
            let tuned = driver && settings.enabled;
            let mixer: int = if !driver {
                4
            } else if !tuned {
                3
            } else if settings.auto_preamp {
                6
            } else {
                7
            };
            &&& rows[2] matches Row::Switch { label, symbol, on, available, switch, tag } && label@
                == "Equaliser"@ && on == settings.enabled && available == driver && switch
                == Switch::Sound(SoundAction::Equaliser) && tag == 100_002
            &&& !driver ==> (rows[3] matches Row::Note { text } && text@
                == "Driver not installed — run 'make driver-install'"@)
            &&& tuned ==> {
                &&& rows[3] matches Row::Preset { preset: shown, tag } && shown == preset && tag
                    == 100_000
                &&& rows[4] matches Row::Bank { gains } && gains == settings.gains
                &&& rows[5] matches Row::AutoPreamp { label, on, tag } && label@ == "Auto Preamp"@
                    && on == settings.auto_preamp && tag == 100_003
                &&& !settings.auto_preamp ==> (rows[6] matches Row::Preamp { preamp, shown, tag }
                    && preamp == settings.preamp && shown == level && tag == 100_050)
            }
            &&& rows[mixer] matches Row::Switch { label, symbol, on, available, switch, tag }
                && label@ == "App Mixer"@ && (on <==> sound.mixer is Some) && available && switch
                == Switch::Sound(SoundAction::AppMixer) && tag == 100_004
            &&& 0 <= i < faders@.len() ==> (rows[mixer + 1 + i] matches Row::Fader {
                name: shown,
                gain,
                tag,
            } && shown@ == name@ && gain == faders@[i].gain && tag == 100_200 + i)
            &&& rows.len() == mixer + 1 + faders@.len() + (if state.sound_notice is Some {
                1int
            } else {
                0
            }) + 1
        }),
{
    let rows = card.rows@;
    assert(seen(rows).len() == rows.len());
    let listed = crate::views::faders(sound);
    assert(faders@ =~= listed);
    let mixer: int = if !sound.availability.driver {
        4
    } else if !settings.enabled {
        3
    } else if settings.auto_preamp {
        6
    } else {
        7
    };
    assert(fader_rows(listed).len() == listed.len());
    lemma_seen(rows, 2);
    lemma_seen(rows, 3);
    lemma_seen(rows, mixer);
    if sound.availability.driver && settings.enabled {
        lemma_seen(rows, 4);
        lemma_seen(rows, 5);
        lemma_seen(rows, 6);
    }
    if 0 <= i < faders@.len() {
        lemma_seen(rows, mixer + 1 + i);
        assert(seen(rows)[mixer + 1 + i] == fader_rows(listed)[i]);
    }
}

/// The presets, each under its name, with the one that is chosen marked.
pub proof fn law_the_card_of_the_presets(selected: &str, card: Card, i: int, preset: Preset)
    requires
        call_ensures(presets_card, (selected,), card),
        0 <= i < 23,
        call_ensures(preset_at, (i as usize,), preset),
    ensures
        card.surface == Surface::Inert,
        card.rows@.len() == 24,
        card.rows@[0] matches Row::Back { title } && title@ == "Preset"@,
        card.rows@[i + 1] matches Row::PresetChoice { preset: name, current, tag } && name
            == preset.name && (current <==> preset.id@ == selected@) && tag == 100_000 + i,
{
    assert(seen(card.rows@).len() == card.rows@.len());
    lemma_seen(card.rows@, 0);
    lemma_seen(card.rows@, i + 1);
    assert(preset_rows(selected@)[i + 1] == preset_choice(i, selected@));
}

/// The outputs, each under its name and by its id, with the one that is chosen
/// marked; where there is none the card says so.
pub proof fn law_the_card_of_the_outputs(
    outputs: &[Device],
    sound: SoundService,
    card: Card,
    i: int,
    selected: bool,
)
    requires
        outputs_have_tags(outputs@),
        call_ensures(outputs_card, (outputs, &sound), card),
        0 <= i < outputs@.len() ==> call_ensures(
            SoundService::output_is_selected,
            (&sound, &outputs@[i]),
            selected,
        ),
    ensures
        card.surface == Surface::Inert,
        card.rows@[0] matches Row::Back { title } && title@ == "Output"@,
        outputs@.len() == 0 ==> card.rows@.len() == 2 && (card.rows@[1] matches Row::Note { text }
            && text@ == "No hardware outputs are available"@),
        outputs@.len() > 0 ==> card.rows@.len() == outputs@.len() + 1,
        0 <= i < outputs@.len() ==> (card.rows@[i + 1] matches Row::Output { name, current, tag }
            && name@ == outputs@[i].name@ && current == selected && tag == 100_000
            + outputs@[i].id),
{
    assert(seen(card.rows@).len() == card.rows@.len());
    lemma_seen(card.rows@, 0);
    if outputs@.len() == 0 {
        lemma_seen(card.rows@, 1);
    }
    if 0 <= i < outputs@.len() {
        lemma_seen(card.rows@, i + 1);
        assert(output_rows(outputs@, sound)[i + 1] == output_choice(outputs@[i], sound));
    }
}

/// Whether two cards show the same.
pub open spec fn same_card(piece: Piece<Card>, card: Card) -> bool {
    piece matches Piece::Card { card: shown } && seen(shown.rows@) == seen(card.rows@)
        && shown.surface == card.surface
}

/// The panel shows one card for each display, in order, the Sound card and the
/// footer; away from its root, only the card that was asked for.
pub proof fn law_the_panel_shows_what_was_asked_for(
    scene: Scene,
    state: ViewState,
    pieces: Vec<Piece<Card>>,
    i: int,
    display: Card,
    sound: Card,
    submenu: Card,
    preset: &'static str,
    presets: Card,
    outputs: Card,
    settings: Card,
)
    requires
        scene.sound.wf(),
        scene.facts@.len() == scene.displays@.len(),
        scene.displays@.len() * 100 + 100 <= isize::MAX,
        outputs_have_tags(scene.outputs@),
        call_ensures(root, (&scene, &state), pieces),
        0 <= i < scene.displays@.len() ==> call_ensures(
            display_card,
            (&scene.displays@[i], i as usize, &scene.facts@[i], &state),
            display,
        ),
        call_ensures(sound_card, (scene.sound, &state), sound),
        state.route is Submenu && state.route->Submenu_display < scene.displays@.len()
            ==> call_ensures(
            submenu_card,
            (
                &scene.displays@[state.route->Submenu_display as int],
                state.route->Submenu_display,
                state.route->Submenu_submenu,
                scene.displays,
                scene.context,
            ),
            submenu,
        ),
        call_ensures(SoundService::selected_preset, (scene.sound,), preset),
        call_ensures(presets_card, (preset,), presets),
        call_ensures(outputs_card, (scene.outputs, scene.sound), outputs),
        call_ensures(settings_card, (scene.login, &state.settings_notice), settings),
    ensures
        state.route == Route::Root ==> {
            let count = scene.displays@.len() as int;
            &&& pieces@.len() == count + 2
            &&& 0 <= i < count ==> same_card(pieces@[i], display)
            &&& same_card(pieces@[count], sound)
            &&& pieces@[count + 1] is Footer
        },
        state.route is Submenu ==> (if state.route->Submenu_display < scene.displays@.len() {
            pieces@.len() == 1 && same_card(pieces@[0], submenu)
        } else {
            pieces@.len() == 0
        }),
        state.route == Route::Presets ==> pieces@.len() == 1 && same_card(pieces@[0], presets),
        state.route == Route::Outputs ==> pieces@.len() == 1 && same_card(pieces@[0], outputs),
        state.route == Route::Settings ==> pieces@.len() == 1 && same_card(pieces@[0], settings),
{
    assert(pieces_seen(pieces@).len() == pieces@.len());
    assert forall|k: int| 0 <= k < pieces@.len() implies pieces_seen(pieces@)[k]
        == #[trigger] pieces@[k]@ by {}
    if state.route == Route::Root {
        let count = scene.displays@.len() as int;
        if 0 <= i < count {
            assert(panel(scene, state)[i] == display_piece(scene, state, i));
            assert(pieces_seen(pieces@)[i] == pieces@[i]@);
        }
        assert(pieces_seen(pieces@)[count] == pieces@[count]@);
        assert(pieces_seen(pieces@)[count + 1] == pieces@[count + 1]@);
    } else if pieces@.len() > 0 {
        assert(pieces_seen(pieces@)[0] == pieces@[0]@);
    }
}

} // verus!
