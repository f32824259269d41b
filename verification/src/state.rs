//! What the panel is showing, and what its rows do.

use std::collections::HashSet;

use vstd::prelude::*;

use crate::display::{Display, DisplayId, DisplayMode};
use crate::protection::Protection;
use crate::service::{backend_caption, BrightnessBackend, INFINITY_BITS, ONE_BITS, SIGN_BIT};
use crate::text::{
    decimal, decimal_signed, digits, hex_digits, hexadecimal, padded, rounded, signed_digits,
    whole_units,
};

verus! {

broadcast use vstd::std_specs::hash::group_hash_axioms;

/// Which view the panel is showing. Submenus are transitions inside the same
/// panel, never a second window.
#[derive(Clone, Copy, PartialEq, Eq, Debug, Structural)]
pub enum Route {
    Root,
    Submenu { display: usize, submenu: Submenu },
    /// The equaliser's preset list. Not a display submenu: it belongs to the
    /// sound card and has no display to hang off.
    Presets,
    /// Physical devices that can receive the processed system audio.
    Outputs,
    /// Application-level preferences and recovery actions.
    Settings,
}

impl Default for Route {
    fn default() -> (route: Self)
        ensures
            route == Route::Root,
    {
        Route::Root
    }
}

#[derive(Debug)]
pub struct ViewState {
    pub route: Route,
    /// Shown in the card when an action was refused, so a toggle that springs
    /// back explains itself instead of looking broken.
    pub notice: Option<String>,
    /// Shown on the sound card, for the same reason.
    pub sound_notice: Option<String>,
    pub settings_notice: Option<String>,
    pub sound_expanded: bool,
    /// The displays whose advanced rows are shown.
    pub expanded: HashSet<usize>,
}

impl ViewState {
    /// The displays whose advanced rows are shown.
    pub open spec fn open_cards(self) -> Set<usize> {
        self.expanded@
    }

    /// Nothing but the route and the open cards differs.
    pub open spec fn same_notices(self, other: ViewState) -> bool {
        &&& self.notice == other.notice
        &&& self.sound_notice == other.sound_notice
        &&& self.settings_notice == other.settings_notice
        &&& self.sound_expanded == other.sound_expanded
    }

    pub fn is_expanded(&self, display: usize) -> (expanded: bool)
        ensures
            expanded == self.open_cards().contains(display),
    {
        self.expanded.contains(&display)
    }

    pub fn toggle_expanded(&mut self, display: usize)
        ensures
            final(self).open_cards() == (if old(self).open_cards().contains(display) {
                old(self).open_cards().remove(display)
            } else {
                old(self).open_cards().insert(display)
            }),
            final(self).same_notices(*old(self)),
            final(self).route == old(self).route,
    {
        if !self.expanded.remove(&display) {
            self.expanded.insert(display);
        }
    }

    pub fn collapse(&mut self, display: usize)
        ensures
            final(self).open_cards() == old(self).open_cards().remove(display),
            final(self).same_notices(*old(self)),
            final(self).route == old(self).route,
    {
        self.expanded.remove(&display);
    }

    /// A new main display moves to the first row. Index-based navigation is no
    /// longer valid, so return to a known root state instead of opening another
    /// display's advanced rows or submenu.
    pub fn display_order_changed(&mut self)
        ensures
            final(self).open_cards() == Set::<usize>::empty(),
            final(self).route == Route::Root,
            final(self).same_notices(*old(self)),
    {
        self.expanded.clear();
        self.route = Route::Root;
    }
}

impl Default for ViewState {
    fn default() -> (state: Self)
        ensures
            state.route == Route::Root,
            state.notice is None,
            state.sound_notice is None,
            state.settings_notice is None,
            !state.sound_expanded,
            state.open_cards() == Set::<usize>::empty(),
    {
        ViewState {
            route: Route::Root,
            notice: None,
            sound_notice: None,
            settings_notice: None,
            sound_expanded: false,
            expanded: HashSet::new(),
        }
    }
}

/// Toggling a card twice leaves the open cards as they were, whether they are
/// known by their place in the panel or by the hardware they belong to.
pub proof fn law_toggling_a_card_twice_changes_nothing<K>(cards: Set<K>, card: K)
    ensures
        ({
            let once = if cards.contains(card) {
                cards.remove(card)
            } else {
                cards.insert(card)
            };
            let twice = if once.contains(card) {
                once.remove(card)
            } else {
                once.insert(card)
            };
            twice == cards
        }),
{
    let once = if cards.contains(card) {
        cards.remove(card)
    } else {
        cards.insert(card)
    };
    let twice = if once.contains(card) {
        once.remove(card)
    } else {
        once.insert(card)
    };
    assert(twice =~= cards);
}

// --- the switches -----------------------------------------------------------

/// The switches on the sound card. Their numbers are the item half of a sound
/// tag, so they must not collide with the band and fader ranges `views`
/// reserves.
#[derive(Copy, Clone, PartialEq, Eq, Debug, Structural)]
pub enum SoundAction {
    /// The EQ bands themselves, bypassable without tearing the route down.
    Equaliser,
    /// Pull the preamp down by the loudest band so boosting cannot clip.
    AutoPreamp,
    /// Tap the applications that are playing and give each one a fader.
    AppMixer,
}

/// A row that the panel always lists: its label, its symbol and what it is.
#[derive(Debug)]
pub struct Entry<A> {
    pub label: &'static str,
    pub symbol: &'static str,
    pub item: A,
}

impl SoundAction {
    pub open spec fn number(self) -> isize {
        match self {
            SoundAction::Equaliser => 2,
            SoundAction::AutoPreamp => 3,
            SoundAction::AppMixer => 4,
        }
    }

    pub fn index(self) -> (index: isize)
        ensures
            index == self.number(),
    {
        match self {
            SoundAction::Equaliser => 2,
            SoundAction::AutoPreamp => 3,
            SoundAction::AppMixer => 4,
        }
    }

    pub open spec fn listed() -> Seq<Entry<SoundAction>> {
        seq![
            Entry {
                label: "Equaliser",
                symbol: "slider.vertical.3",
                item: SoundAction::Equaliser,
            },
            Entry {
                label: "App Mixer",
                symbol: "square.stack.3d.up",
                item: SoundAction::AppMixer,
            },
        ]
    }

    /// The switches the card lists, in order.
    ///
    /// Auto Preamp is not one of them. It sets the equaliser's preamp, which is
    /// bypassed along with the rest of the equaliser when that is off, so it
    /// lives in the equaliser's own section and shows only while it is on.
    pub fn card() -> (entries: Vec<Entry<SoundAction>>)
        ensures
            entries@ == SoundAction::listed(),
    {
        let mut entries: Vec<Entry<SoundAction>> = Vec::new();
        entries.push(
            Entry {
                label: "Equaliser",
                symbol: "slider.vertical.3",
                item: SoundAction::Equaliser,
            },
        );
        entries.push(
            Entry {
                label: "App Mixer",
                symbol: "square.stack.3d.up",
                item: SoundAction::AppMixer,
            },
        );
        assert(entries@ =~= SoundAction::listed());
        entries
    }

    pub fn from_index(value: isize) -> (action: Option<Self>)
        ensures
            match action {
                Some(action) => action.number() == value,
                None => forall|action: SoundAction| #[trigger] action.number() != value,
            },
            action is Some <==> 2 <= value <= 4,
    {
        if value == 2 {
            Some(SoundAction::Equaliser)
        } else if value == 3 {
            Some(SoundAction::AutoPreamp)
        } else if value == 4 {
            Some(SoundAction::AppMixer)
        } else {
            None
        }
    }
}

pub const AUTO_PREAMP: &'static str = "Auto Preamp";

/// The per-card toggles that sit below the disclosure rows.
#[derive(Copy, Clone, PartialEq, Eq, Debug, Structural)]
pub enum CardAction {
    HiDpi,
    DisplayNotch,
    SetAsMain,
    BrightnessUpscaling,
    AutoBrightness,
    NightShift,
}

/// What the system says of the switches that it keeps itself.
#[derive(Copy, Clone, Debug)]
pub struct CardFacts {
    /// Whether the display has a mode that is HiDPI where the current one is
    /// not, or the other way round.
    pub hidpi_twin: bool,
    pub auto_brightness: Option<bool>,
    pub night_shift: Option<bool>,
}

impl CardAction {
    pub open spec fn number(self) -> isize {
        match self {
            CardAction::HiDpi => 1,
            CardAction::DisplayNotch => 2,
            CardAction::SetAsMain => 3,
            CardAction::BrightnessUpscaling => 4,
            CardAction::AutoBrightness => 5,
            CardAction::NightShift => 6,
        }
    }

    pub fn index(self) -> (index: isize)
        ensures
            index == self.number(),
    {
        match self {
            CardAction::HiDpi => 1,
            CardAction::DisplayNotch => 2,
            CardAction::SetAsMain => 3,
            CardAction::BrightnessUpscaling => 4,
            CardAction::AutoBrightness => 5,
            CardAction::NightShift => 6,
        }
    }

    pub open spec fn entry(self) -> Entry<CardAction> {
        match self {
            CardAction::HiDpi => Entry {
                label: "High Resolution (HiDPI)",
                symbol: "sparkles",
                item: self,
            },
            CardAction::DisplayNotch => Entry {
                label: "Display Notch",
                symbol: "rectangle.tophalf.inset.filled",
                item: self,
            },
            CardAction::SetAsMain => Entry {
                label: "Set as Main Display",
                symbol: "m.circle",
                item: self,
            },
            CardAction::BrightnessUpscaling => Entry {
                label: "Brightness Upscaling",
                symbol: "sun.max",
                item: self,
            },
            CardAction::AutoBrightness => Entry {
                label: "Auto Brightness",
                symbol: "a.circle",
                item: self,
            },
            CardAction::NightShift => Entry {
                label: "Night Shift (All Displays)",
                symbol: "moon.stars",
                item: self,
            },
        }
    }

    pub open spec fn listed() -> Seq<Entry<CardAction>> {
        seq![
            CardAction::HiDpi.entry(),
            CardAction::DisplayNotch.entry(),
            CardAction::SetAsMain.entry(),
            CardAction::BrightnessUpscaling.entry(),
            CardAction::AutoBrightness.entry(),
            CardAction::NightShift.entry(),
        ]
    }

    fn as_entry(self) -> (entry: Entry<CardAction>)
        ensures
            entry == self.entry(),
    {
        match self {
            CardAction::HiDpi => Entry {
                label: "High Resolution (HiDPI)",
                symbol: "sparkles",
                item: self,
            },
            CardAction::DisplayNotch => Entry {
                label: "Display Notch",
                symbol: "rectangle.tophalf.inset.filled",
                item: self,
            },
            CardAction::SetAsMain => Entry {
                label: "Set as Main Display",
                symbol: "m.circle",
                item: self,
            },
            CardAction::BrightnessUpscaling => Entry {
                label: "Brightness Upscaling",
                symbol: "sun.max",
                item: self,
            },
            CardAction::AutoBrightness => Entry {
                label: "Auto Brightness",
                symbol: "a.circle",
                item: self,
            },
            CardAction::NightShift => Entry {
                label: "Night Shift (All Displays)",
                symbol: "moon.stars",
                item: self,
            },
        }
    }

    /// Every toggle, in the order the card lists them.
    pub fn all() -> (entries: Vec<Entry<CardAction>>)
        ensures
            entries@ == CardAction::listed(),
    {
        let mut entries: Vec<Entry<CardAction>> = Vec::new();
        entries.push(CardAction::HiDpi.as_entry());
        entries.push(CardAction::DisplayNotch.as_entry());
        entries.push(CardAction::SetAsMain.as_entry());
        entries.push(CardAction::BrightnessUpscaling.as_entry());
        entries.push(CardAction::AutoBrightness.as_entry());
        entries.push(CardAction::NightShift.as_entry());
        assert(entries@ =~= CardAction::listed());
        entries
    }

    pub fn from_index(value: isize) -> (action: Option<Self>)
        ensures
            match action {
                Some(action) => action.number() == value,
                None => forall|action: CardAction| #[trigger] action.number() != value,
            },
            action is Some <==> 1 <= value <= 6,
    {
        if value == 1 {
            Some(CardAction::HiDpi)
        } else if value == 2 {
            Some(CardAction::DisplayNotch)
        } else if value == 3 {
            Some(CardAction::SetAsMain)
        } else if value == 4 {
            Some(CardAction::BrightnessUpscaling)
        } else if value == 5 {
            Some(CardAction::AutoBrightness)
        } else if value == 6 {
            Some(CardAction::NightShift)
        } else {
            None
        }
    }

    pub open spec fn shows_on(self, display: Display) -> bool {
        self != CardAction::NightShift || display.snapshot.is_main
    }

    /// Night Shift is global. Showing it once, on the main display, avoids a
    /// row on every monitor that falsely looks independently configurable.
    pub fn is_visible(self, display: &Display) -> (visible: bool)
        ensures
            visible == self.shows_on(*display),
    {
        match self {
            CardAction::NightShift => display.snapshot.is_main,
            _ => true,
        }
    }

    /// Whether a toggle is on, and whether it can do anything at all.
    pub open spec fn stands(self, display: Display, facts: CardFacts) -> (bool, bool) {
        match self {
            CardAction::HiDpi => (
                display.snapshot.current_mode matches Some(mode) && mode.hidpi,
                facts.hidpi_twin,
            ),
            CardAction::SetAsMain => (display.snapshot.is_main, !display.snapshot.is_main),
            CardAction::AutoBrightness => match facts.auto_brightness {
                Some(on) => (on, true),
                None => (false, false),
            },
            CardAction::NightShift => match facts.night_shift {
                Some(on) => (on, true),
                None => (false, false),
            },
            CardAction::DisplayNotch => (false, false),
            CardAction::BrightnessUpscaling => (false, false),
        }
    }

    /// Current state, and whether the control can do anything at all.
    pub fn state(self, display: &Display, facts: CardFacts) -> (state: (bool, bool))
        ensures
            state == self.stands(*display, facts),
    {
        match self {
            CardAction::HiDpi => {
                let on: bool = match display.snapshot.current_mode {
                    Some(mode) => mode.is_hidpi(),
                    None => false,
                };
                (on, facts.hidpi_twin)
            },
            CardAction::SetAsMain => (display.snapshot.is_main, !display.snapshot.is_main),
            CardAction::AutoBrightness => match facts.auto_brightness {
                Some(on) => (on, true),
                None => (false, false),
            },
            CardAction::NightShift => match facts.night_shift {
                Some(on) => (on, true),
                None => (false, false),
            },
            // Needs a mode that excludes the menu-bar safe area, which only
            // notched built-in panels publish.
            CardAction::DisplayNotch => (false, false),
            // Would need EDR headroom applied to the whole display, which is
            // only reachable through private preset APIs.
            CardAction::BrightnessUpscaling => (false, false),
        }
    }
}

/// The disclosure rows, in the order they are listed.
///
/// The gaps in their numbers are rows that were dropped for having no working
/// backend behind them; the remaining values stay put because they are encoded
/// into view tags.
#[derive(Copy, Clone, PartialEq, Eq, Debug, Structural)]
pub enum Submenu {
    DisplayMode,
    RefreshRate,
    ColorMode,
    MirrorDisplay,
    MoveDisplay,
    DeviceControl,
    ConfigurationProtection,
    ManageDisplay,
}

impl Submenu {
    pub open spec fn number(self) -> isize {
        match self {
            Submenu::DisplayMode => 1,
            Submenu::RefreshRate => 2,
            Submenu::ColorMode => 3,
            Submenu::MirrorDisplay => 4,
            Submenu::MoveDisplay => 7,
            Submenu::DeviceControl => 10,
            Submenu::ConfigurationProtection => 12,
            Submenu::ManageDisplay => 13,
        }
    }

    pub fn index(self) -> (index: isize)
        ensures
            index == self.number(),
    {
        match self {
            Submenu::DisplayMode => 1,
            Submenu::RefreshRate => 2,
            Submenu::ColorMode => 3,
            Submenu::MirrorDisplay => 4,
            Submenu::MoveDisplay => 7,
            Submenu::DeviceControl => 10,
            Submenu::ConfigurationProtection => 12,
            Submenu::ManageDisplay => 13,
        }
    }

    pub open spec fn entry(self) -> Entry<Submenu> {
        match self {
            Submenu::DisplayMode => Entry {
                label: "Display Mode",
                symbol: "rectangle.on.rectangle",
                item: self,
            },
            Submenu::RefreshRate => Entry { label: "Refresh Rate", symbol: "timer", item: self },
            Submenu::ColorMode => Entry { label: "Color Mode", symbol: "paintpalette", item: self },
            Submenu::MirrorDisplay => Entry {
                label: "Mirror Display",
                symbol: "rectangle.2.swap",
                item: self,
            },
            Submenu::MoveDisplay => Entry {
                label: "Move Display",
                symbol: "arrow.up.and.down.and.arrow.left.and.right",
                item: self,
            },
            Submenu::DeviceControl => Entry {
                label: "Device Control",
                symbol: "gearshape",
                item: self,
            },
            Submenu::ConfigurationProtection => Entry {
                label: "Configuration Protection",
                symbol: "lock.shield",
                item: self,
            },
            Submenu::ManageDisplay => Entry {
                label: "Manage Display",
                symbol: "square.stack",
                item: self,
            },
        }
    }

    fn as_entry(self) -> (entry: Entry<Submenu>)
        ensures
            entry == self.entry(),
    {
        match self {
            Submenu::DisplayMode => Entry {
                label: "Display Mode",
                symbol: "rectangle.on.rectangle",
                item: self,
            },
            Submenu::RefreshRate => Entry { label: "Refresh Rate", symbol: "timer", item: self },
            Submenu::ColorMode => Entry { label: "Color Mode", symbol: "paintpalette", item: self },
            Submenu::MirrorDisplay => Entry {
                label: "Mirror Display",
                symbol: "rectangle.2.swap",
                item: self,
            },
            Submenu::MoveDisplay => Entry {
                label: "Move Display",
                symbol: "arrow.up.and.down.and.arrow.left.and.right",
                item: self,
            },
            Submenu::DeviceControl => Entry {
                label: "Device Control",
                symbol: "gearshape",
                item: self,
            },
            Submenu::ConfigurationProtection => Entry {
                label: "Configuration Protection",
                symbol: "lock.shield",
                item: self,
            },
            Submenu::ManageDisplay => Entry {
                label: "Manage Display",
                symbol: "square.stack",
                item: self,
            },
        }
    }

    pub open spec fn listed() -> Seq<Entry<Submenu>> {
        seq![
            Submenu::DisplayMode.entry(),
            Submenu::RefreshRate.entry(),
            Submenu::ColorMode.entry(),
            Submenu::MirrorDisplay.entry(),
            Submenu::MoveDisplay.entry(),
            Submenu::DeviceControl.entry(),
            Submenu::ConfigurationProtection.entry(),
            Submenu::ManageDisplay.entry(),
        ]
    }

    /// Every disclosure row, in order.
    pub fn all() -> (entries: Vec<Entry<Submenu>>)
        ensures
            entries@ == Submenu::listed(),
    {
        let mut entries: Vec<Entry<Submenu>> = Vec::new();
        entries.push(Submenu::DisplayMode.as_entry());
        entries.push(Submenu::RefreshRate.as_entry());
        entries.push(Submenu::ColorMode.as_entry());
        entries.push(Submenu::MirrorDisplay.as_entry());
        entries.push(Submenu::MoveDisplay.as_entry());
        entries.push(Submenu::DeviceControl.as_entry());
        entries.push(Submenu::ConfigurationProtection.as_entry());
        entries.push(Submenu::ManageDisplay.as_entry());
        assert(entries@ =~= Submenu::listed());
        entries
    }

    pub fn from_index(value: isize) -> (submenu: Option<Self>)
        ensures
            match submenu {
                Some(submenu) => submenu.number() == value,
                None => forall|submenu: Submenu| #[trigger] submenu.number() != value,
            },
            submenu is Some <==> (1 <= value <= 4 || value == 7 || value == 10 || value == 12
                || value
                == 13),
    {
        if value == 1 {
            Some(Submenu::DisplayMode)
        } else if value == 2 {
            Some(Submenu::RefreshRate)
        } else if value == 3 {
            Some(Submenu::ColorMode)
        } else if value == 4 {
            Some(Submenu::MirrorDisplay)
        } else if value == 7 {
            Some(Submenu::MoveDisplay)
        } else if value == 10 {
            Some(Submenu::DeviceControl)
        } else if value == 12 {
            Some(Submenu::ConfigurationProtection)
        } else if value == 13 {
            Some(Submenu::ManageDisplay)
        } else {
            None
        }
    }

    pub fn label(self) -> (label: &'static str)
        ensures
            label == self.entry().label,
    {
        self.as_entry().label
    }
}

/// A number names one switch, toggle or disclosure row only, so a tag that
/// carries it says which.
pub proof fn law_numbers_tell_rows_apart(
    left: SoundAction,
    right: SoundAction,
    one: CardAction,
    other: CardAction,
    this: Submenu,
    that: Submenu,
)
    ensures
        left.number() == right.number() ==> left == right,
        one.number() == other.number() ==> one == other,
        this.number() == that.number() ==> this == that,
{
}

// --- submenu rows -----------------------------------------------------------

/// What activating a submenu row does.
#[derive(Copy, Clone, PartialEq, Eq, Debug, Structural)]
pub enum SubmenuAction {
    SetMode(i32),
    SetMirror(Option<DisplayId>),
    SetMain,
    MoveTo(i32, i32),
    SetInput(u16),
    PanelPower(bool),
    /// The bits of double-precision factors.
    SetColour { red: u64, green: u64, blue: u64 },
    ResetColour,
    SetProtected(bool),
}

#[derive(Debug)]
pub struct SubmenuRow {
    pub label: String,
    pub detail: String,
    pub action: Option<SubmenuAction>,
    pub selected: bool,
}

/// What a row shows and does.
pub struct Shown {
    pub label: Seq<char>,
    pub detail: Seq<char>,
    pub action: Option<SubmenuAction>,
    pub selected: bool,
}

pub open spec fn row_info(label: Seq<char>, detail: Seq<char>) -> Shown {
    Shown { label, detail, action: None, selected: false }
}

pub open spec fn row_choice(
    label: Seq<char>,
    detail: Seq<char>,
    action: SubmenuAction,
    selected: bool,
) -> Shown {
    Shown { label, detail, action: Some(action), selected }
}

impl SubmenuRow {
    pub open spec fn shown(self) -> Shown {
        Shown {
            label: self.label@,
            detail: self.detail@,
            action: self.action,
            selected: self.selected,
        }
    }

    fn info(label: &str, detail: &str) -> (row: Self)
        ensures
            row.shown() == row_info(label@, detail@),
    {
        SubmenuRow {
            label: label.to_owned(),
            detail: detail.to_owned(),
            action: None,
            selected: false,
        }
    }

    fn choice(label: &str, detail: &str, action: SubmenuAction, selected: bool) -> (row: Self)
        ensures
            row.shown() == row_choice(label@, detail@, action, selected),
    {
        SubmenuRow {
            label: label.to_owned(),
            detail: detail.to_owned(),
            action: Some(action),
            selected,
        }
    }
}

pub open spec fn shown_rows(rows: Seq<SubmenuRow>) -> Seq<Shown> {
    rows.map_values(|row: SubmenuRow| row.shown())
}

/// What a submenu shows besides the displays themselves.
pub struct Context<'a> {
    pub colour: Colour,
    pub protection: &'a Protection,
    pub backend: BrightnessBackend,
    /// How confidently the monitor was matched, in words.
    pub confidence: Option<String>,
}

/// The factors a display's colours are scaled by: the bits of double-precision
/// numbers.
#[derive(Copy, Clone, Debug)]
pub struct Colour {
    pub red: u64,
    pub green: u64,
    pub blue: u64,
}

/// The bits of nine and of eight tenths.
pub const NINE_TENTHS: u64 = 0x3FEC_CCCC_CCCC_CCCD;

pub const EIGHT_TENTHS: u64 = 0x3FE9_9999_9999_999A;

/// Whether a number is one, rather than none at all.
pub open spec fn is_number(bits: u64) -> bool {
    bits % SIGN_BIT <= INFINITY_BITS
}

/// A number is at least another that is positive.
pub open spec fn at_least(bits: u64, bound: u64) -> bool {
    is_number(bits) && bits < SIGN_BIT && bits >= bound
}

/// A number is less than another that is positive.
pub open spec fn below(bits: u64, bound: u64) -> bool {
    is_number(bits) && !(bits < SIGN_BIT && bits >= bound)
}

fn is_at_least(bits: u64, bound: u64) -> (is: bool)
    ensures
        is == at_least(bits, bound),
{
    bits % SIGN_BIT <= INFINITY_BITS && bits < SIGN_BIT && bits >= bound
}

fn is_below(bits: u64, bound: u64) -> (is: bool)
    ensures
        is == below(bits, bound),
{
    bits % SIGN_BIT <= INFINITY_BITS && !(bits < SIGN_BIT && bits >= bound)
}

/// A row for every other display, with `prefix` in front of its name.
pub open spec fn mirror_choices(
    display: Display,
    catalog: Seq<Display>,
    prefix: Seq<char>,
) -> Seq<Shown>
    decreases catalog.len(),
{
    if catalog.len() == 0 {
        Seq::empty()
    } else {
        let before = mirror_choices(display, catalog.drop_last(), prefix);
        let other = catalog.last();
        if other.snapshot.id == display.snapshot.id {
            before
        } else {
            before.push(
                row_choice(
                    prefix + other.snapshot.name@,
                    ""@,
                    SubmenuAction::SetMirror(Some(other.snapshot.id)),
                    display.snapshot.mirrors == Some(other.snapshot.id),
                ),
            )
        }
    }
}

fn push_mirror_choices(
    rows: &mut Vec<SubmenuRow>,
    display: &Display,
    catalog: &[Display],
    prefix: &str,
)
    ensures
        shown_rows(final(rows)@) == shown_rows(old(rows)@) + mirror_choices(
            *display,
            catalog@,
            prefix@,
        ),
{
    let mut i: usize = 0;
    assert(shown_rows(rows@) =~= shown_rows(old(rows)@) + mirror_choices(
        *display,
        catalog@.take(0),
        prefix@,
    ));
    while i < catalog.len()
        invariant
            i <= catalog@.len(),
            shown_rows(rows@) == shown_rows(old(rows)@) + mirror_choices(
                *display,
                catalog@.take(i as int),
                prefix@,
            ),
        decreases catalog@.len() - i,
    {
        let ghost before = rows@;
        proof {
            assert(catalog@.take(i + 1).drop_last() == catalog@.take(i as int));
        }
        if catalog[i].id() != display.id() {
            let mut label = prefix.to_owned();
            label.append(catalog[i].name());
            let selected: bool = match display.snapshot.mirrors {
                Some(source) => source == catalog[i].id(),
                None => false,
            };
            let row = SubmenuRow::choice(
                label.as_str(),
                "",
                SubmenuAction::SetMirror(Some(catalog[i].id())),
                selected,
            );
            let ghost one = row.shown();
            rows.push(row);
            assert(shown_rows(rows@) =~= shown_rows(before).push(one));
        }
        assert(shown_rows(rows@) =~= shown_rows(old(rows)@) + mirror_choices(
            *display,
            catalog@.take(i + 1),
            prefix@,
        ));
        i += 1;
    }
    assert(catalog@.take(i as int) == catalog@);
}

pub open spec fn display_mode_shown(display: Display, catalog: Seq<Display>) -> Seq<Shown> {
    seq![
        row_choice(
            "Extended"@,
            ""@,
            SubmenuAction::SetMirror(None),
            display.snapshot.mirrors is None && display.snapshot.is_active,
        ),
        row_choice(
            "Set as main display"@,
            ""@,
            SubmenuAction::SetMain,
            display.snapshot.is_main,
        ),
    ] + mirror_choices(display, catalog, "Mirror of "@)
}

fn display_mode_rows(display: &Display, catalog: &[Display]) -> (rows: Vec<SubmenuRow>)
    ensures
        shown_rows(rows@) == display_mode_shown(*display, catalog@),
{
    let mirroring: bool = display.snapshot.mirrors.is_some();
    let mut rows: Vec<SubmenuRow> = Vec::new();
    rows.push(
        SubmenuRow::choice(
            "Extended",
            "",
            SubmenuAction::SetMirror(None),
            !mirroring && display.snapshot.is_active,
        ),
    );
    rows.push(
        SubmenuRow::choice(
            "Set as main display",
            "",
            SubmenuAction::SetMain,
            display.snapshot.is_main,
        ),
    );
    let ghost head = shown_rows(rows@);
    assert(head =~= seq![head[0], head[1]]);
    push_mirror_choices(&mut rows, display, catalog, "Mirror of ");
    rows
}

pub open spec fn mirror_shown(display: Display, catalog: Seq<Display>) -> Seq<Shown> {
    let off = row_choice(
        "Off"@,
        ""@,
        SubmenuAction::SetMirror(None),
        display.snapshot.mirrors is None,
    );
    let others = mirror_choices(display, catalog, ""@);
    if others.len() == 0 {
        seq![off, row_info("No other display"@, ""@)]
    } else {
        seq![off] + others
    }
}

fn mirror_rows(display: &Display, catalog: &[Display]) -> (rows: Vec<SubmenuRow>)
    ensures
        shown_rows(rows@) == mirror_shown(*display, catalog@),
{
    let mut rows: Vec<SubmenuRow> = Vec::new();
    rows.push(
        SubmenuRow::choice(
            "Off",
            "",
            SubmenuAction::SetMirror(None),
            display.snapshot.mirrors.is_none(),
        ),
    );
    let ghost head = shown_rows(rows@);
    assert(head =~= seq![head[0]]);
    push_mirror_choices(&mut rows, display, catalog, "");
    if rows.len() == 1 {
        let ghost before = rows@;
        rows.push(SubmenuRow::info("No other display", ""));
        assert(shown_rows(rows@) =~= mirror_shown(*display, catalog@));
    }
    rows
}

/// A refresh rate rounded to whole hertz, a half away from zero.
pub open spec fn nearest_hertz(rate: u64) -> int {
    (rate + 500) / 1000
}

/// A mode that differs from the current one in its refresh rate at most.
pub open spec fn rate_alternative(mode: DisplayMode, current: DisplayMode) -> bool {
    mode.width == current.width && mode.height == current.height && mode.hidpi == current.hidpi
}

pub open spec fn rate_row(mode: DisplayMode, current: DisplayMode) -> Shown {
    row_choice(
        if mode.refresh_rate > 0 {
            digits(whole_units(mode.refresh_rate as nat)) + " Hz"@
        } else {
            "Variable"@
        },
        ""@,
        SubmenuAction::SetMode(mode.io_mode_id),
        -500 < mode.refresh_rate - current.refresh_rate < 500,
    )
}

/// An earlier alternative has the same rate in whole hertz.
pub open spec fn rate_repeated(modes: Seq<DisplayMode>, current: DisplayMode, i: int) -> bool {
    exists|j: int|
        0 <= j < i && rate_alternative(#[trigger] modes[j], current) && nearest_hertz(
            modes[j].refresh_rate,
        ) == nearest_hertz(modes[i].refresh_rate)
}

/// One row for each rate that the first `count` modes offer.
pub open spec fn rate_rows(modes: Seq<DisplayMode>, current: DisplayMode, count: int) -> Seq<Shown>
    decreases count,
{
    if count <= 0 {
        Seq::empty()
    } else {
        let before = rate_rows(modes, current, count - 1);
        if rate_alternative(modes[count - 1], current) && !rate_repeated(
            modes,
            current,
            count - 1,
        ) {
            before.push(rate_row(modes[count - 1], current))
        } else {
            before
        }
    }
}

pub open spec fn refresh_rate_shown(display: Display) -> Seq<Shown> {
    match display.snapshot.current_mode {
        None => seq![row_info("No mode"@, ""@)],
        Some(current) => {
            let rows = rate_rows(display.modes@, current, display.modes@.len() as int);
            if rows.len() == 0 {
                seq![row_info("No alternatives"@, ""@)]
            } else {
                rows
            }
        },
    }
}

/// Every rate can be rounded to whole hertz.
pub open spec fn rates_round(modes: Seq<DisplayMode>) -> bool {
    forall|i: int| 0 <= i < modes.len() ==> (#[trigger] modes[i]).refresh_rate + 500 <= u64::MAX
}

fn is_rate_alternative(mode: &DisplayMode, current: &DisplayMode) -> (is: bool)
    ensures
        is == rate_alternative(*mode, *current),
{
    mode.width == current.width && mode.height == current.height && mode.hidpi == current.hidpi
}

fn is_rate_repeated(modes: &[DisplayMode], current: &DisplayMode, i: usize) -> (is: bool)
    requires
        i < modes@.len(),
        rates_round(modes@),
    ensures
        is == rate_repeated(modes@, *current, i as int),
{
    let hertz: u64 = (modes[i].refresh_rate + 500) / 1000;
    let mut j: usize = 0;
    while j < i
        invariant
            j <= i < modes@.len(),
            rates_round(modes@),
            hertz == nearest_hertz(modes@[i as int].refresh_rate),
            forall|k: int|
                0 <= k < j ==> !(rate_alternative(#[trigger] modes@[k], *current) && nearest_hertz(
                    modes@[k].refresh_rate,
                ) == hertz),
        decreases i - j,
    {
        if is_rate_alternative(&modes[j], current) && (modes[j].refresh_rate + 500) / 1000
            == hertz {
            return true;
        }
        j += 1;
    }
    false
}

fn refresh_rate_rows(display: &Display) -> (rows: Vec<SubmenuRow>)
    requires
        rates_round(display.modes@),
    ensures
        shown_rows(rows@) == refresh_rate_shown(*display),
{
    let mut rows: Vec<SubmenuRow> = Vec::new();
    let current: DisplayMode = match display.snapshot.current_mode {
        None => {
            rows.push(SubmenuRow::info("No mode", ""));
            assert(shown_rows(rows@) =~= refresh_rate_shown(*display));
            return rows;
        },
        Some(current) => current,
    };
    let mut i: usize = 0;
    assert(shown_rows(rows@) =~= rate_rows(display.modes@, current, 0));
    while i < display.modes.len()
        invariant
            i <= display.modes@.len(),
            rates_round(display.modes@),
            shown_rows(rows@) == rate_rows(display.modes@, current, i as int),
        decreases display.modes@.len() - i,
    {
        let mode: DisplayMode = display.modes[i];
        if is_rate_alternative(&mode, &current) && !is_rate_repeated(
            display.modes.as_slice(),
            &current,
            i,
        ) {
            let ghost before = shown_rows(rows@);
            let row = rate_choice(&mode, &current);
            let ghost one = row.shown();
            rows.push(row);
            assert(shown_rows(rows@) =~= before.push(one));
        }
        i += 1;
    }
    if rows.len() == 0 {
        rows.push(SubmenuRow::info("No alternatives", ""));
        assert(shown_rows(rows@) =~= seq![row_info("No alternatives"@, ""@)]);
    }
    rows
}

fn rate_choice(mode: &DisplayMode, current: &DisplayMode) -> (row: SubmenuRow)
    requires
        mode.refresh_rate + 500 <= u64::MAX,
    ensures
        row.shown() == rate_row(*mode, *current),
{
    let label = if mode.refresh_rate > 0 {
        let mut label = decimal(rounded(mode.refresh_rate));
        label.append(" Hz");
        label
    } else {
        "Variable".to_owned()
    };
    let apart: u64 = if mode.refresh_rate < current.refresh_rate {
        current.refresh_rate - mode.refresh_rate
    } else {
        mode.refresh_rate - current.refresh_rate
    };
    SubmenuRow::choice(label.as_str(), "", SubmenuAction::SetMode(mode.io_mode_id), apart < 500)
}

pub open spec fn colour_shown(current: Colour) -> Seq<Shown> {
    seq![
        row_choice(
            "Neutral"@,
            ""@,
            SubmenuAction::SetColour { red: ONE_BITS, green: ONE_BITS, blue: ONE_BITS },
            at_least(current.red, ONE_BITS) && at_least(current.blue, ONE_BITS),
        ),
        row_choice(
            "Warm"@,
            ""@,
            SubmenuAction::SetColour {
                red: ONE_BITS,
                green: 0x3FEE_147A_E147_AE14,
                blue: 0x3FEA_E147_AE14_7AE1,
            },
            below(current.blue, NINE_TENTHS) && at_least(current.blue, EIGHT_TENTHS),
        ),
        row_choice(
            "Warmer"@,
            ""@,
            SubmenuAction::SetColour {
                red: ONE_BITS,
                green: 0x3FEB_851E_B851_EB85,
                blue: 0x3FE6_6666_6666_6666,
            },
            below(current.blue, EIGHT_TENTHS),
        ),
        row_choice(
            "Cool"@,
            ""@,
            SubmenuAction::SetColour {
                red: 0x3FED_70A3_D70A_3D71,
                green: 0x3FEE_B851_EB85_1EB8,
                blue: ONE_BITS,
            },
            below(current.red, ONE_BITS),
        ),
        row_choice("Reset"@, ""@, SubmenuAction::ResetColour, false),
    ]
}

fn colour_rows(current: Colour) -> (rows: Vec<SubmenuRow>)
    ensures
        shown_rows(rows@) == colour_shown(current),
{
    let mut rows: Vec<SubmenuRow> = Vec::new();
    rows.push(
        SubmenuRow::choice(
            "Neutral",
            "",
            SubmenuAction::SetColour { red: ONE_BITS, green: ONE_BITS, blue: ONE_BITS },
            is_at_least(current.red, ONE_BITS) && is_at_least(current.blue, ONE_BITS),
        ),
    );
    rows.push(
        SubmenuRow::choice(
            "Warm",
            "",
            SubmenuAction::SetColour {
                red: ONE_BITS,
                green: 0x3FEE_147A_E147_AE14,
                blue: 0x3FEA_E147_AE14_7AE1,
            },
            is_below(current.blue, NINE_TENTHS) && is_at_least(current.blue, EIGHT_TENTHS),
        ),
    );
    rows.push(
        SubmenuRow::choice(
            "Warmer",
            "",
            SubmenuAction::SetColour {
                red: ONE_BITS,
                green: 0x3FEB_851E_B851_EB85,
                blue: 0x3FE6_6666_6666_6666,
            },
            is_below(current.blue, EIGHT_TENTHS),
        ),
    );
    rows.push(
        SubmenuRow::choice(
            "Cool",
            "",
            SubmenuAction::SetColour {
                red: 0x3FED_70A3_D70A_3D71,
                green: 0x3FEE_B851_EB85_1EB8,
                blue: ONE_BITS,
            },
            is_below(current.red, ONE_BITS),
        ),
    );
    rows.push(SubmenuRow::choice("Reset", "", SubmenuAction::ResetColour, false));
    assert(shown_rows(rows@) =~= colour_shown(current));
    rows
}

/// The colour that a row sets is the one it is ticked for: once it is in force,
/// that row is ticked and no other.
pub proof fn law_a_colour_ticks_the_row_that_sets_it(current: Colour, row: int)
    requires
        0 <= row < 4,
        colour_shown(current)[row].action == Some(
            SubmenuAction::SetColour {
                red: current.red,
                green: current.green,
                blue: current.blue,
            },
        ),
    ensures
        colour_shown(current).len() == 5,
        colour_shown(current)[0].label == "Neutral"@,
        colour_shown(current)[1].label == "Warm"@,
        colour_shown(current)[2].label == "Warmer"@,
        colour_shown(current)[3].label == "Cool"@,
        colour_shown(current)[4].label == "Reset"@,
        forall|other: int|
            0 <= other < 5 ==> (#[trigger] colour_shown(current)[other]).selected == (other == row),
{
    let rows = colour_shown(current);
    assert(rows[0].selected == (row == 0));
    assert(rows[1].selected == (row == 1));
    assert(rows[2].selected == (row == 2));
    assert(rows[3].selected == (row == 3));
    assert(!rows[4].selected);
}

/// The display's neighbours can be given a place.
pub open spec fn can_move(display: Display) -> bool {
    let (x, y) = display.snapshot.origin;
    let (w, h) = display.snapshot.size;
    &&& i32::MIN <= x - w <= i32::MAX
    &&& i32::MIN <= x + w <= i32::MAX
    &&& i32::MIN <= y - h <= i32::MAX
    &&& i32::MIN <= y + h <= i32::MAX
}

pub open spec fn move_shown(display: Display) -> Seq<Shown> {
    let (x, y) = display.snapshot.origin;
    let (w, h) = display.snapshot.size;
    seq![
        row_info("Origin"@, signed_digits(x as int) + ", "@ + signed_digits(y as int)),
        row_choice("To origin"@, "0, 0"@, SubmenuAction::MoveTo(0, 0), x == 0 && y == 0),
        row_choice("Left"@, ""@, SubmenuAction::MoveTo((x - w) as i32, y), false),
        row_choice("Right"@, ""@, SubmenuAction::MoveTo((x + w) as i32, y), false),
        row_choice("Above"@, ""@, SubmenuAction::MoveTo(x, (y - h) as i32), false),
        row_choice("Below"@, ""@, SubmenuAction::MoveTo(x, (y + h) as i32), false),
    ]
}

fn move_rows(display: &Display) -> (rows: Vec<SubmenuRow>)
    requires
        can_move(*display),
    ensures
        shown_rows(rows@) == move_shown(*display),
{
    let (x, y): (i32, i32) = display.snapshot.origin;
    let (w, h): (i32, i32) = display.snapshot.size;
    let mut origin = decimal_signed(x as i64);
    origin.append(", ");
    origin.append(decimal_signed(y as i64).as_str());
    let mut rows: Vec<SubmenuRow> = Vec::new();
    rows.push(SubmenuRow::info("Origin", origin.as_str()));
    rows.push(
        SubmenuRow::choice("To origin", "0, 0", SubmenuAction::MoveTo(0, 0), x == 0 && y == 0),
    );
    rows.push(SubmenuRow::choice("Left", "", SubmenuAction::MoveTo(x - w, y), false));
    rows.push(SubmenuRow::choice("Right", "", SubmenuAction::MoveTo(x + w, y), false));
    rows.push(SubmenuRow::choice("Above", "", SubmenuAction::MoveTo(x, y - h), false));
    rows.push(SubmenuRow::choice("Below", "", SubmenuAction::MoveTo(x, y + h), false));
    assert(shown_rows(rows@) =~= move_shown(*display));
    rows
}

pub open spec fn device_shown(display: Display) -> Seq<Shown> {
    if display.snapshot.is_builtin {
        seq![row_info("Not applicable"@, "Built-in display"@)]
    } else {
        seq![
            row_choice("Panel on"@, ""@, SubmenuAction::PanelPower(true), false),
            row_choice("Panel standby"@, ""@, SubmenuAction::PanelPower(false), false),
            row_choice("Input: DisplayPort"@, ""@, SubmenuAction::SetInput(0x0F), false),
            row_choice("Input: HDMI 1"@, ""@, SubmenuAction::SetInput(0x11), false),
            row_choice("Input: USB-C"@, ""@, SubmenuAction::SetInput(0x1B), false),
        ]
    }
}

fn device_rows(display: &Display) -> (rows: Vec<SubmenuRow>)
    ensures
        shown_rows(rows@) == device_shown(*display),
{
    let mut rows: Vec<SubmenuRow> = Vec::new();
    if display.snapshot.is_builtin {
        rows.push(SubmenuRow::info("Not applicable", "Built-in display"));
        assert(shown_rows(rows@) =~= device_shown(*display));
        return rows;
    }
    rows.push(SubmenuRow::choice("Panel on", "", SubmenuAction::PanelPower(true), false));
    rows.push(SubmenuRow::choice("Panel standby", "", SubmenuAction::PanelPower(false), false));
    rows.push(SubmenuRow::choice("Input: DisplayPort", "", SubmenuAction::SetInput(0x0F), false));
    rows.push(SubmenuRow::choice("Input: HDMI 1", "", SubmenuAction::SetInput(0x11), false));
    rows.push(SubmenuRow::choice("Input: USB-C", "", SubmenuAction::SetInput(0x1B), false));
    assert(shown_rows(rows@) =~= device_shown(*display));
    rows
}

pub open spec fn protection_shown(display: Display, protection: Protection) -> Seq<Shown> {
    let id = display.snapshot.id.0;
    let on = protection.layouts().contains_key(id);
    let switches = seq![
        row_choice("Protect this layout"@, ""@, SubmenuAction::SetProtected(true), on),
        row_choice("Stop protecting"@, ""@, SubmenuAction::SetProtected(false), !on),
    ];
    if on {
        let pinned = protection.layouts()[id];
        switches.push(
            row_info(
                "Pinned"@,
                "mode "@ + signed_digits(pinned.io_mode_id as int) + " at "@ + signed_digits(
                    pinned.origin.0 as int,
                ) + ","@ + signed_digits(pinned.origin.1 as int),
            ),
        )
    } else {
        switches
    }
}

fn protection_rows(display: &Display, protection: &Protection) -> (rows: Vec<SubmenuRow>)
    ensures
        shown_rows(rows@) == protection_shown(*display, *protection),
{
    let id: DisplayId = display.id();
    let on: bool = protection.is_protected(id);
    let mut rows: Vec<SubmenuRow> = Vec::new();
    rows.push(
        SubmenuRow::choice("Protect this layout", "", SubmenuAction::SetProtected(true), on),
    );
    rows.push(SubmenuRow::choice("Stop protecting", "", SubmenuAction::SetProtected(false), !on));
    match protection.describe(id) {
        Some(detail) => {
            rows.push(SubmenuRow::info("Pinned", detail.as_str()));
        },
        None => {},
    }
    assert(shown_rows(rows@) =~= protection_shown(*display, *protection));
    rows
}

pub open spec fn manage_shown(
    display: Display,
    backend: BrightnessBackend,
    confidence: Option<Seq<char>>,
) -> Seq<Shown> {
    let snapshot = display.snapshot;
    let facts = seq![
        row_info("Display ID"@, digits(snapshot.id.0 as nat)),
        row_info("Vendor"@, "0x"@ + padded(hex_digits(snapshot.vendor as nat, true), 4)),
        row_info("Model"@, "0x"@ + padded(hex_digits(snapshot.model as nat, true), 4)),
        row_info("Serial"@, "0x"@ + padded(hex_digits(snapshot.serial as nat, true), 8)),
        row_info("Unit"@, digits(snapshot.unit as nat)),
        row_info("Brightness backend"@, backend_caption(backend)@),
    ];
    match confidence {
        Some(confidence) => facts.push(row_info("DDC match"@, confidence)),
        None => facts,
    }
}

fn prefixed_hexadecimal(value: u32, width: usize) -> (text: String)
    ensures
        text@ == "0x"@ + padded(hex_digits(value as nat, true), width as nat),
{
    let mut text = "0x".to_owned();
    text.append(hexadecimal(value, width, true).as_str());
    text
}

fn manage_rows(
    display: &Display,
    backend: BrightnessBackend,
    confidence: &Option<String>,
) -> (rows: Vec<SubmenuRow>)
    ensures
        shown_rows(rows@) == manage_shown(
            *display,
            backend,
            match *confidence {
                Some(text) => Some(text@),
                None => None,
            },
        ),
{
    let snapshot = &display.snapshot;
    let mut rows: Vec<SubmenuRow> = Vec::new();
    rows.push(SubmenuRow::info("Display ID", decimal(snapshot.id.0 as u64).as_str()));
    rows.push(SubmenuRow::info("Vendor", prefixed_hexadecimal(snapshot.vendor, 4).as_str()));
    rows.push(SubmenuRow::info("Model", prefixed_hexadecimal(snapshot.model, 4).as_str()));
    rows.push(SubmenuRow::info("Serial", prefixed_hexadecimal(snapshot.serial, 8).as_str()));
    rows.push(SubmenuRow::info("Unit", decimal(snapshot.unit as u64).as_str()));
    rows.push(SubmenuRow::info("Brightness backend", backend.caption()));
    match confidence {
        Some(confidence) => {
            rows.push(SubmenuRow::info("DDC match", confidence.as_str()));
        },
        None => {},
    }
    assert(shown_rows(rows@) =~= manage_shown(
        *display,
        backend,
        match *confidence {
            Some(text) => Some(text@),
            None => None,
        },
    ));
    rows
}

impl Submenu {
    pub open spec fn rows_shown(
        self,
        display: Display,
        catalog: Seq<Display>,
        context: Context,
    ) -> Seq<Shown> {
        match self {
            Submenu::DisplayMode => display_mode_shown(display, catalog),
            Submenu::RefreshRate => refresh_rate_shown(display),
            Submenu::ColorMode => colour_shown(context.colour),
            Submenu::MirrorDisplay => mirror_shown(display, catalog),
            Submenu::MoveDisplay => move_shown(display),
            Submenu::DeviceControl => device_shown(display),
            Submenu::ManageDisplay => manage_shown(
                display,
                context.backend,
                match context.confidence {
                    Some(text) => Some(text@),
                    None => None,
                },
            ),
            Submenu::ConfigurationProtection => protection_shown(display, *context.protection),
        }
    }

    /// Rows to show, recomputed identically when a row is activated so the
    /// handler can act on the row index alone.
    pub fn rows(self, display: &Display, catalog: &[Display], context: &Context<'_>) -> (rows: Vec<
        SubmenuRow,
    >)
        requires
            self == Submenu::MoveDisplay ==> can_move(*display),
            self == Submenu::RefreshRate ==> rates_round(display.modes@),
        ensures
            shown_rows(rows@) == self.rows_shown(*display, catalog@, *context),
    {
        match self {
            Submenu::DisplayMode => display_mode_rows(display, catalog),
            Submenu::RefreshRate => refresh_rate_rows(display),
            Submenu::ColorMode => colour_rows(context.colour),
            Submenu::MirrorDisplay => mirror_rows(display, catalog),
            Submenu::MoveDisplay => move_rows(display),
            Submenu::DeviceControl => device_rows(display),
            Submenu::ManageDisplay => manage_rows(display, context.backend, &context.confidence),
            Submenu::ConfigurationProtection => protection_rows(display, context.protection),
        }
    }
}

// --- what holds of the panel ------------------------------------------------

/// A card that is toggled is the other way round and one that is collapsed is
/// closed; no other card moves. When displays change places every card closes
/// and the panel goes back to its root. A fresh panel stands there.
pub proof fn law_a_card_opens_and_closes(
    state: &mut ViewState,
    card: usize,
    other: usize,
    was: bool,
    is: bool,
    before: bool,
    after: bool,
    then: &mut ViewState,
    last: bool,
    kept: bool,
    moved: &mut ViewState,
    gone: bool,
    fresh: ViewState,
    none: bool,
)
    requires
        other != card,
        call_ensures(ViewState::is_expanded, (&*old(state), card), was),
        call_ensures(ViewState::is_expanded, (&*old(state), other), before),
        call_ensures(ViewState::toggle_expanded, (state, card), ()),
        call_ensures(ViewState::is_expanded, (&*final(state), card), is),
        call_ensures(ViewState::is_expanded, (&*final(state), other), after),
        *old(then) == *final(state),
        call_ensures(ViewState::collapse, (then, card), ()),
        call_ensures(ViewState::is_expanded, (&*final(then), card), last),
        call_ensures(ViewState::is_expanded, (&*final(then), other), kept),
        *old(moved) == *final(then),
        call_ensures(ViewState::display_order_changed, (moved,), ()),
        call_ensures(ViewState::is_expanded, (&*final(moved), other), gone),
        call_ensures(ViewState::default, (), fresh),
        call_ensures(ViewState::is_expanded, (&fresh, card), none),
    ensures
        is == !was,
        after == before,
        !last,
        kept == before,
        !gone,
        final(moved).route == Route::Root,
        final(state).route == old(state).route,
        final(moved).notice == old(state).notice,
        final(moved).sound_notice == old(state).sound_notice,
        final(moved).settings_notice == old(state).settings_notice,
        final(moved).sound_expanded == old(state).sound_expanded,
        !none,
        fresh.route == Route::Root,
        fresh.notice is None && fresh.sound_notice is None && fresh.settings_notice is None,
        !fresh.sound_expanded,
{
}

/// The number of a switch or a submenu leads back to it, and no other number
/// leads anywhere.
pub proof fn law_a_number_leads_back_to_its_row(
    sound: SoundAction,
    card: CardAction,
    submenu: Submenu,
    one: isize,
    two: isize,
    three: isize,
    first: Option<SoundAction>,
    second: Option<CardAction>,
    third: Option<Submenu>,
    number: isize,
    a: Option<SoundAction>,
    b: Option<CardAction>,
    c: Option<Submenu>,
)
    requires
        call_ensures(SoundAction::index, (sound,), one),
        call_ensures(SoundAction::from_index, (one,), first),
        call_ensures(CardAction::index, (card,), two),
        call_ensures(CardAction::from_index, (two,), second),
        call_ensures(Submenu::index, (submenu,), three),
        call_ensures(Submenu::from_index, (three,), third),
        call_ensures(SoundAction::from_index, (number,), a),
        call_ensures(CardAction::from_index, (number,), b),
        call_ensures(Submenu::from_index, (number,), c),
    ensures
        first == Some(sound),
        second == Some(card),
        third == Some(submenu),
        a is Some <==> number == 2 || number == 3 || number == 4,
        b is Some <==> 1 <= number <= 6,
        c is Some <==> number == 1 || number == 2 || number == 3 || number == 4 || number == 7
            || number == 10 || number == 12 || number == 13,
{
    law_numbers_tell_rows_apart(sound, sound, card, card, submenu, submenu);
}

/// The switches of the Sound card, in order.
pub proof fn law_the_sound_switches(entries: Vec<Entry<SoundAction>>)
    requires
        call_ensures(SoundAction::card, (), entries),
    ensures
        entries@.len() == 2,
        entries@[0].item == SoundAction::Equaliser && entries@[0].label@ == "Equaliser"@
            && entries@[0].symbol@
            == "slider.vertical.3"@,
        entries@[1].item == SoundAction::AppMixer && entries@[1].label@ == "App Mixer"@
            && entries@[1].symbol@
            == "square.stack.3d.up"@,
{
}

/// The switches of a display's card, in order.
pub proof fn law_the_switches_of_a_display(entries: Vec<Entry<CardAction>>)
    requires
        call_ensures(CardAction::all, (), entries),
    ensures
        entries@.len() == 6,
        entries@[0].item == CardAction::HiDpi && entries@[0].label@ == "High Resolution (HiDPI)"@
            && entries@[0].symbol@
            == "sparkles"@,
        entries@[1].item == CardAction::DisplayNotch && entries@[1].label@ == "Display Notch"@
            && entries@[1].symbol@
            == "rectangle.tophalf.inset.filled"@,
        entries@[2].item == CardAction::SetAsMain && entries@[2].label@ == "Set as Main Display"@
            && entries@[2].symbol@
            == "m.circle"@,
        entries@[3].item == CardAction::BrightnessUpscaling
            && entries@[3].label@ == "Brightness Upscaling"@ && entries@[3].symbol@
            == "sun.max"@,
        entries@[4].item == CardAction::AutoBrightness && entries@[4].label@ == "Auto Brightness"@
            && entries@[4].symbol@
            == "a.circle"@,
        entries@[5].item == CardAction::NightShift
            && entries@[5].label@ == "Night Shift (All Displays)"@ && entries@[5].symbol@
            == "moon.stars"@,
{
}

/// The submenus of a display's card, in order, each under its label.
pub proof fn law_the_submenus_of_a_display(
    entries: Vec<Entry<Submenu>>,
    i: int,
    label: &'static str,
)
    requires
        call_ensures(Submenu::all, (), entries),
        0 <= i < 8,
        call_ensures(Submenu::label, (entries@[i].item,), label),
    ensures
        entries@.len() == 8,
        label == entries@[i].label,
        entries@[0].item == Submenu::DisplayMode && entries@[0].label@ == "Display Mode"@
            && entries@[0].symbol@
            == "rectangle.on.rectangle"@,
        entries@[1].item == Submenu::RefreshRate && entries@[1].label@ == "Refresh Rate"@
            && entries@[1].symbol@
            == "timer"@,
        entries@[2].item == Submenu::ColorMode && entries@[2].label@ == "Color Mode"@
            && entries@[2].symbol@
            == "paintpalette"@,
        entries@[3].item == Submenu::MirrorDisplay && entries@[3].label@ == "Mirror Display"@
            && entries@[3].symbol@
            == "rectangle.2.swap"@,
        entries@[4].item == Submenu::MoveDisplay && entries@[4].label@ == "Move Display"@
            && entries@[4].symbol@
            == "arrow.up.and.down.and.arrow.left.and.right"@,
        entries@[5].item == Submenu::DeviceControl && entries@[5].label@ == "Device Control"@
            && entries@[5].symbol@
            == "gearshape"@,
        entries@[6].item == Submenu::ConfigurationProtection
            && entries@[6].label@ == "Configuration Protection"@ && entries@[6].symbol@
            == "lock.shield"@,
        entries@[7].item == Submenu::ManageDisplay && entries@[7].label@ == "Manage Display"@
            && entries@[7].symbol@
            == "square.stack"@,
{
}

/// Night Shift shows on the main display only, everything else everywhere. A
/// switch stands as the machine does, and can be moved where the machine can.
pub proof fn law_a_switch_stands_as_the_machine_does(
    action: CardAction,
    display: Display,
    facts: CardFacts,
    visible: bool,
    state: (bool, bool),
)
    requires
        call_ensures(CardAction::is_visible, (action, &display), visible),
        call_ensures(CardAction::state, (action, &display, facts), state),
    ensures
        visible <==> action != CardAction::NightShift || display.snapshot.is_main,
        action == CardAction::HiDpi ==> (state.0 <==> display.snapshot.current_mode is Some && (
        display.snapshot.current_mode->0).hidpi) && state.1 == facts.hidpi_twin,
        action == CardAction::SetAsMain ==> state.0 == display.snapshot.is_main && state.1
            == !display.snapshot.is_main,
        action == CardAction::AutoBrightness ==> (state.0 <==> facts.auto_brightness == Some(true))
            && (state.1 <==> facts.auto_brightness is Some),
        action == CardAction::NightShift ==> (state.0 <==> facts.night_shift == Some(true)) && (
        state.1 <==> facts.night_shift is Some),
        action == CardAction::DisplayNotch || action == CardAction::BrightnessUpscaling ==> !state.0
            && !state.1,
{
}

/// Whether a row says this, and does that.
pub open spec fn reads(
    row: SubmenuRow,
    label: Seq<char>,
    detail: Seq<char>,
    action: Option<SubmenuAction>,
    selected: bool,
) -> bool {
    row.label@ == label && row.detail@ == detail && row.action == action && row.selected == selected
}

/// Whether two rows say and do the same.
pub open spec fn alike(row: SubmenuRow, other: SubmenuRow) -> bool {
    reads(row, other.label@, other.detail@, other.action, other.selected)
}

proof fn lemma_row(rows: Seq<SubmenuRow>, i: int)
    requires
        0 <= i < rows.len(),
    ensures
        shown_rows(rows).len() == rows.len(),
        shown_rows(rows)[i] == rows[i].shown(),
{
}

/// The modes of a display: on its own, as the main one, or as a mirror of any
/// other, one row for each, in order.
pub proof fn law_a_display_can_mirror_every_other(
    display: Display,
    catalog: &[Display],
    more: &[Display],
    other: Display,
    context: Context,
    rows: Vec<SubmenuRow>,
    then: Vec<SubmenuRow>,
    i: int,
)
    requires
        more@ == catalog@.push(other),
        call_ensures(Submenu::rows, (Submenu::DisplayMode, &display, catalog, &context), rows),
        call_ensures(Submenu::rows, (Submenu::DisplayMode, &display, more, &context), then),
    ensures
        rows@.len() >= 2,
        catalog@.len() == 0 ==> rows@.len() == 2,
        reads(
            rows@[0],
            "Extended"@,
            ""@,
            Some(SubmenuAction::SetMirror(None)),
            display.snapshot.mirrors is None && display.snapshot.is_active,
        ),
        reads(
            rows@[1],
            "Set as main display"@,
            ""@,
            Some(SubmenuAction::SetMain),
            display.snapshot.is_main,
        ),
        then@.len() == (if other.snapshot.id == display.snapshot.id {
            rows@.len()
        } else {
            rows@.len() + 1
        }),
        0 <= i < rows@.len() ==> alike(then@[i], rows@[i]),
        other.snapshot.id != display.snapshot.id ==> reads(
            then@.last(),
            "Mirror of "@ + other.snapshot.name@,
            ""@,
            Some(SubmenuAction::SetMirror(Some(other.snapshot.id))),
            display.snapshot.mirrors == Some(other.snapshot.id),
        ),
{
    assert(more@.drop_last() =~= catalog@);
    assert(more@.last() == other);
    assert(shown_rows(rows@).len() == rows@.len());
    assert(shown_rows(then@).len() == then@.len());
    lemma_row(rows@, 0);
    lemma_row(rows@, 1);
    if 0 <= i < rows@.len() {
        lemma_row(rows@, i);
        lemma_row(then@, i);
    }
    lemma_row(then@, then@.len() - 1);
}

proof fn lemma_mirror_choices(display: Display, catalog: Seq<Display>, prefix: Seq<char>)
    ensures
        mirror_choices(display, catalog, prefix).len() == 0 <==> forall|i: int|
            0 <= i < catalog.len() ==> (#[trigger] catalog[i]).snapshot.id == display.snapshot.id,
    decreases catalog.len(),
{
    if catalog.len() > 0 {
        let rest = catalog.drop_last();
        lemma_mirror_choices(display, rest, prefix);
        assert(catalog.last() == catalog[catalog.len() - 1]);
        if forall|i: int|
            0 <= i < catalog.len() ==> (#[trigger] catalog[i]).snapshot.id == display.snapshot.id {
            assert forall|i: int| 0 <= i < rest.len() implies (#[trigger] rest[i]).snapshot.id
                == display.snapshot.id by {
                assert(rest[i] == catalog[i]);
            }
        }
        if mirror_choices(display, catalog, prefix).len() == 0 {
            assert forall|i: int| 0 <= i < catalog.len() implies (#[trigger] catalog[i]).snapshot.id
                == display.snapshot.id by {
                if i < rest.len() {
                    assert(rest[i] == catalog[i]);
                }
            }
        }
    }
}

/// Mirroring is off, or a copy of any other display, one row for each, in order;
/// where there is no other the menu says so.
pub proof fn law_every_other_display_can_be_mirrored(
    display: Display,
    catalog: &[Display],
    more: &[Display],
    other: Display,
    context: Context,
    rows: Vec<SubmenuRow>,
    then: Vec<SubmenuRow>,
    i: int,
)
    requires
        more@ == catalog@.push(other),
        call_ensures(Submenu::rows, (Submenu::MirrorDisplay, &display, catalog, &context), rows),
        call_ensures(Submenu::rows, (Submenu::MirrorDisplay, &display, more, &context), then),
    ensures
        ({
            let alone = forall|i: int|
                0 <= i < catalog@.len() ==> (#[trigger] catalog@[i]).snapshot.id
                    == display.snapshot.id;
            let offered: int = if alone {
                1
            } else {
                rows@.len() as int
            };
            &&& rows@.len() >= 2
            &&& reads(
                rows@[0],
                "Off"@,
                ""@,
                Some(SubmenuAction::SetMirror(None)),
                display.snapshot.mirrors is None,
            )
            &&& alone ==> rows@.len() == 2 && reads(rows@[1], "No other display"@, ""@, None, false)
            &&& other.snapshot.id == display.snapshot.id ==> then@.len() == rows@.len() && (0 <= i
                < rows@.len() ==> alike(then@[i], rows@[i]))
            &&& other.snapshot.id != display.snapshot.id ==> {
                &&& then@.len() == offered + 1
                &&& 0 <= i < offered ==> alike(then@[i], rows@[i])
                &&& reads(
                    then@[offered],
                    other.snapshot.name@,
                    ""@,
                    Some(SubmenuAction::SetMirror(Some(other.snapshot.id))),
                    display.snapshot.mirrors == Some(other.snapshot.id),
                )
            }
        }),
{
    reveal_strlit("");
    assert(more@.drop_last() =~= catalog@);
    assert(more@.last() == other);
    lemma_mirror_choices(display, catalog@, ""@);
    assert(shown_rows(rows@).len() == rows@.len());
    assert(shown_rows(then@).len() == then@.len());
    assert(""@ + other.snapshot.name@ =~= other.snapshot.name@);
    lemma_row(rows@, 0);
    lemma_row(rows@, 1);
    if 0 <= i < rows@.len() {
        lemma_row(rows@, i);
    }
    if 0 <= i < then@.len() {
        lemma_row(then@, i);
    }
    lemma_row(then@, then@.len() - 1);
}

/// The rates of a display: a mode of the current size and sharpness is offered
/// unless its rate, to the nearest hertz, is already; by its rate, which is
/// ticked within half a hertz of the current.
pub proof fn law_a_rate_is_offered_once(
    display: Display,
    longer: Display,
    mode: DisplayMode,
    current: DisplayMode,
    catalog: &[Display],
    context: Context,
    rows: Vec<SubmenuRow>,
    then: Vec<SubmenuRow>,
    hertz: u64,
    number: String,
    i: int,
)
    requires
        rates_round(longer.modes@),
        longer.snapshot == display.snapshot,
        longer.modes@ == display.modes@.push(mode),
        display.snapshot.current_mode == Some(current),
        call_ensures(Submenu::rows, (Submenu::RefreshRate, &display, catalog, &context), rows),
        call_ensures(Submenu::rows, (Submenu::RefreshRate, &longer, catalog, &context), then),
        call_ensures(rounded, (mode.refresh_rate,), hertz),
        call_ensures(decimal, (hertz,), number),
    ensures
        ({
            let fits = mode.width == current.width && mode.height == current.height && mode.hidpi
                == current.hidpi;
            let known = exists|j: int|
                0 <= j < display.modes@.len() && (#[trigger] display.modes@[j]).width
                    == current.width && display.modes@[j].height == current.height
                    && display.modes@[j].hidpi == current.hidpi && (display.modes@[j].refresh_rate
                    + 500) / 1000 == (mode.refresh_rate + 500) / 1000;
            let offered: int = if rows@[0].action is None {
                0
            } else {
                rows@.len() as int
            };
            &&& rows@.len() > 0
            &&& rows@[0].action is None ==> rows@.len() == 1 && reads(
                rows@[0],
                "No alternatives"@,
                ""@,
                None,
                false,
            )
            &&& display.modes@.len() == 0 ==> rows@[0].action is None
            &&& !fits || known ==> then@.len() == rows@.len() && (0 <= i < rows@.len() ==> alike(
                then@[i],
                rows@[i],
            ))
            &&& fits && !known ==> {
                &&& then@.len() == offered + 1
                &&& 0 <= i < offered ==> alike(then@[i], rows@[i])
                &&& reads(
                    then@[offered],
                    if mode.refresh_rate == 0 {
                        "Variable"@
                    } else {
                        number@ + " Hz"@
                    },
                    ""@,
                    Some(SubmenuAction::SetMode(mode.io_mode_id)),
                    mode.refresh_rate - current.refresh_rate < 500 && current.refresh_rate
                        - mode.refresh_rate < 500,
                )
            }
        }),
{
    let count = display.modes@.len() as int;
    lemma_rate_rows(display.modes@, longer.modes@, current, count);
    let before = rate_rows(display.modes@, current, count);
    let after = rate_rows(longer.modes@, current, count + 1);
    assert(longer.modes@[count] == mode);
    let known = exists|j: int|
        0 <= j < display.modes@.len() && (#[trigger] display.modes@[j]).width == current.width
            && display.modes@[j].height == current.height && display.modes@[j].hidpi
            == current.hidpi && (display.modes@[j].refresh_rate + 500) / 1000 == (mode.refresh_rate
            + 500) / 1000;
    assert(rate_repeated(longer.modes@, current, count) == known) by {
        if rate_repeated(longer.modes@, current, count) {
            let j = choose|j: int|
                0 <= j < count && rate_alternative(#[trigger] longer.modes@[j], current)
                    && nearest_hertz(longer.modes@[j].refresh_rate) == nearest_hertz(
                    longer.modes@[count].refresh_rate,
                );
            assert(display.modes@[j] == longer.modes@[j]);
        }
        if known {
            let j = choose|j: int|
                0 <= j < display.modes@.len() && (#[trigger] display.modes@[j]).width
                    == current.width && display.modes@[j].height == current.height
                    && display.modes@[j].hidpi == current.hidpi && (display.modes@[j].refresh_rate
                    + 500) / 1000 == (mode.refresh_rate + 500) / 1000;
            assert(rate_alternative(longer.modes@[j], current));
        }
    }
    lemma_rates_act(display.modes@, current, count);
    assert(shown_rows(rows@).len() == rows@.len());
    assert(shown_rows(then@).len() == then@.len());
    lemma_row(rows@, 0);
    if 0 <= i < rows@.len() {
        lemma_row(rows@, i);
    }
    if 0 <= i < then@.len() {
        lemma_row(then@, i);
    }
    lemma_row(then@, then@.len() - 1);
}

proof fn lemma_rate_rows(
    modes: Seq<DisplayMode>,
    longer: Seq<DisplayMode>,
    current: DisplayMode,
    count: int,
)
    requires
        0 <= count <= modes.len(),
        longer.len() == modes.len() + 1,
        forall|i: int| 0 <= i < modes.len() ==> longer[i] == #[trigger] modes[i],
    ensures
        rate_rows(modes, current, count) == rate_rows(longer, current, count),
    decreases count,
{
    if count > 0 {
        lemma_rate_rows(modes, longer, current, count - 1);
        assert(longer[count - 1] == modes[count - 1]);
        if rate_repeated(modes, current, count - 1) {
            let j = choose|j: int|
                0 <= j < count - 1 && rate_alternative(#[trigger] modes[j], current)
                    && nearest_hertz(modes[j].refresh_rate) == nearest_hertz(
                    modes[count - 1].refresh_rate,
                );
            assert(rate_alternative(longer[j], current));
        }
        if rate_repeated(longer, current, count - 1) {
            let j = choose|j: int|
                0 <= j < count - 1 && rate_alternative(#[trigger] longer[j], current)
                    && nearest_hertz(longer[j].refresh_rate) == nearest_hertz(
                    longer[count - 1].refresh_rate,
                );
            assert(rate_alternative(modes[j], current));
        }
    }
}

proof fn lemma_rates_act(modes: Seq<DisplayMode>, current: DisplayMode, count: int)
    ensures
        forall|i: int|
            0 <= i < rate_rows(modes, current, count).len() ==> (#[trigger] rate_rows(
                modes,
                current,
                count,
            )[i]).action is Some,
    decreases count,
{
    if count > 0 {
        lemma_rates_act(modes, current, count - 1);
    }
}

/// Without a mode there are no rates.
pub proof fn law_without_a_mode_there_are_no_rates(
    display: Display,
    catalog: &[Display],
    context: Context,
    rows: Vec<SubmenuRow>,
)
    requires
        display.snapshot.current_mode is None,
        call_ensures(Submenu::rows, (Submenu::RefreshRate, &display, catalog, &context), rows),
    ensures
        rows@.len() == 1,
        reads(rows@[0], "No mode"@, ""@, None, false),
{
    assert(shown_rows(rows@).len() == rows@.len());
    lemma_row(rows@, 0);
}

/// The colours, by the bits of their channels, and which of them is ticked: what
/// is whole in red and blue is neutral, less than whole in red is cool, and blue
/// below nine tenths is warm, below eight warmer.
pub proof fn law_the_colours_of_a_display(
    display: Display,
    catalog: &[Display],
    context: Context,
    rows: Vec<SubmenuRow>,
)
    requires
        call_ensures(Submenu::rows, (Submenu::ColorMode, &display, catalog, &context), rows),
    ensures
        ({
            let red = context.colour.red;
            let blue = context.colour.blue;
            let one = 0x3FF0_0000_0000_0000u64;
            let infinity = 0x7FF0_0000_0000_0000u64;
            let sign = 0x8000_0000_0000_0000u64;
            let warm_from = 0x3FE9_9999_9999_999Au64;
            let warm_to = 0x3FEC_CCCC_CCCC_CCCDu64;
            &&& rows@.len() == 5
            &&& rows@[0].label@ == "Neutral"@ && rows@[0].action == Some(
                SubmenuAction::SetColour { red: one, green: one, blue: one },
            )
            &&& rows@[1].label@ == "Warm"@ && rows@[1].action == Some(
                SubmenuAction::SetColour {
                    red: one,
                    green: 0x3FEE_147A_E147_AE14u64,
                    blue: 0x3FEA_E147_AE14_7AE1u64,
                },
            )
            &&& rows@[2].label@ == "Warmer"@ && rows@[2].action == Some(
                SubmenuAction::SetColour {
                    red: one,
                    green: 0x3FEB_851E_B851_EB85u64,
                    blue: 0x3FE6_6666_6666_6666u64,
                },
            )
            &&& rows@[3].label@ == "Cool"@ && rows@[3].action == Some(
                SubmenuAction::SetColour {
                    red: 0x3FED_70A3_D70A_3D71u64,
                    green: 0x3FEE_B851_EB85_1EB8u64,
                    blue: one,
                },
            )
            &&& reads(rows@[4], "Reset"@, ""@, Some(SubmenuAction::ResetColour), false)
            // Channels that are numbers and not negative are ordered as their
            // bits are.
            &&& red <= infinity && blue <= infinity ==> {
                &&& rows@[0].selected <==> red >= one && blue >= one
                &&& rows@[1].selected <==> warm_from <= blue < warm_to
                &&& rows@[2].selected <==> blue < warm_from
                &&& rows@[3].selected <==> red < one
            }
            // Negative ones are less than any bound.
            &&& sign <= red <= sign + infinity ==> rows@[3].selected && !rows@[0].selected
            &&& sign <= blue <= sign + infinity ==> rows@[2].selected && !rows@[1].selected
                && !rows@[0].selected
            // What is no number is in no order.
            &&& infinity < red < sign || red > sign + infinity ==> !rows@[0].selected
                && !rows@[3].selected
            &&& infinity < blue < sign || blue > sign + infinity ==> !rows@[0].selected
                && !rows@[1].selected && !rows@[2].selected
        }),
{
    assert(shown_rows(rows@).len() == rows@.len());
    lemma_row(rows@, 0);
    lemma_row(rows@, 1);
    lemma_row(rows@, 2);
    lemma_row(rows@, 3);
    lemma_row(rows@, 4);
}

/// A display moves to the origin, or by its own size to either side, up or down.
pub proof fn law_a_display_moves_by_its_size(
    display: Display,
    catalog: &[Display],
    context: Context,
    rows: Vec<SubmenuRow>,
    x: String,
    y: String,
)
    requires
        can_move(display),
        call_ensures(Submenu::rows, (Submenu::MoveDisplay, &display, catalog, &context), rows),
        call_ensures(decimal_signed, (display.snapshot.origin.0 as i64,), x),
        call_ensures(decimal_signed, (display.snapshot.origin.1 as i64,), y),
    ensures
        ({
            let (left, top) = display.snapshot.origin;
            let (width, height) = display.snapshot.size;
            let moves = |row: SubmenuRow, label: Seq<char>, across: int, down: int|
                row.label@ == label && row.action is Some && row.action->0 is MoveTo && (
                row.action->0)->MoveTo_0 == left + across && (row.action->0)->MoveTo_1 == top + down
                    && !row.selected;
            &&& rows@.len() == 6
            &&& reads(rows@[0], "Origin"@, x@ + ", "@ + y@, None, false)
            &&& reads(
                rows@[1],
                "To origin"@,
                "0, 0"@,
                Some(SubmenuAction::MoveTo(0, 0)),
                left == 0 && top == 0,
            )
            &&& moves(rows@[2], "Left"@, -width, 0)
            &&& moves(rows@[3], "Right"@, width as int, 0)
            &&& moves(rows@[4], "Above"@, 0, -height)
            &&& moves(rows@[5], "Below"@, 0, height as int)
        }),
{
    assert(shown_rows(rows@).len() == rows@.len());
    lemma_row(rows@, 0);
    lemma_row(rows@, 1);
    lemma_row(rows@, 2);
    lemma_row(rows@, 3);
    lemma_row(rows@, 4);
    lemma_row(rows@, 5);
}

/// A monitor is switched and its input chosen by the codes of its controls; the
/// built-in panel has none.
pub proof fn law_the_controls_of_a_monitor(
    display: Display,
    catalog: &[Display],
    context: Context,
    rows: Vec<SubmenuRow>,
)
    requires
        call_ensures(Submenu::rows, (Submenu::DeviceControl, &display, catalog, &context), rows),
    ensures
        display.snapshot.is_builtin ==> rows@.len() == 1 && reads(
            rows@[0],
            "Not applicable"@,
            "Built-in display"@,
            None,
            false,
        ),
        !display.snapshot.is_builtin ==> {
            &&& rows@.len() == 5
            &&& reads(rows@[0], "Panel on"@, ""@, Some(SubmenuAction::PanelPower(true)), false)
            &&& reads(rows@[1], "Panel standby"@, ""@, Some(SubmenuAction::PanelPower(false)), false)
            &&& reads(rows@[2], "Input: DisplayPort"@, ""@, Some(SubmenuAction::SetInput(15)), false)
            &&& reads(rows@[3], "Input: HDMI 1"@, ""@, Some(SubmenuAction::SetInput(17)), false)
            &&& reads(rows@[4], "Input: USB-C"@, ""@, Some(SubmenuAction::SetInput(27)), false)
        },
{
    assert(shown_rows(rows@).len() == rows@.len());
    lemma_row(rows@, 0);
    if !display.snapshot.is_builtin {
        lemma_row(rows@, 1);
        lemma_row(rows@, 2);
        lemma_row(rows@, 3);
        lemma_row(rows@, 4);
    }
}

/// Protection is on or off, as it stands, and what is pinned is told.
pub proof fn law_protection_is_shown_as_it_stands(
    display: Display,
    catalog: &[Display],
    context: Context,
    rows: Vec<SubmenuRow>,
    on: bool,
    pinned: Option<String>,
)
    requires
        call_ensures(
            Submenu::rows,
            (Submenu::ConfigurationProtection, &display, catalog, &context),
            rows,
        ),
        call_ensures(Protection::is_protected, (context.protection, display.snapshot.id), on),
        call_ensures(Protection::describe, (context.protection, display.snapshot.id), pinned),
    ensures
        reads(
            rows@[0],
            "Protect this layout"@,
            ""@,
            Some(SubmenuAction::SetProtected(true)),
            on,
        ),
        reads(rows@[1], "Stop protecting"@, ""@, Some(SubmenuAction::SetProtected(false)), !on),
        pinned is Some <==> on,
        on ==> rows@.len() == 3 && reads(rows@[2], "Pinned"@, (pinned->0)@, None, false),
        !on ==> rows@.len() == 2,
{
    assert(shown_rows(rows@).len() == rows@.len());
    lemma_row(rows@, 0);
    lemma_row(rows@, 1);
    if on {
        lemma_row(rows@, 2);
    }
}

/// What a display is: its id and unit as numbers, its hardware in hexadecimal,
/// what drives it, and how sure its link is where it has one.
pub proof fn law_a_display_says_what_it_is(
    display: Display,
    catalog: &[Display],
    context: Context,
    rows: Vec<SubmenuRow>,
    id: String,
    vendor: String,
    model: String,
    serial: String,
    unit: String,
    driven: &'static str,
)
    requires
        call_ensures(Submenu::rows, (Submenu::ManageDisplay, &display, catalog, &context), rows),
        call_ensures(decimal, (display.snapshot.id.0 as u64,), id),
        call_ensures(hexadecimal, (display.snapshot.vendor, 4, true), vendor),
        call_ensures(hexadecimal, (display.snapshot.model, 4, true), model),
        call_ensures(hexadecimal, (display.snapshot.serial, 8, true), serial),
        call_ensures(decimal, (display.snapshot.unit as u64,), unit),
        call_ensures(BrightnessBackend::caption, (context.backend,), driven),
    ensures
        reads(rows@[0], "Display ID"@, id@, None, false),
        reads(rows@[1], "Vendor"@, "0x"@ + vendor@, None, false),
        reads(rows@[2], "Model"@, "0x"@ + model@, None, false),
        reads(rows@[3], "Serial"@, "0x"@ + serial@, None, false),
        reads(rows@[4], "Unit"@, unit@, None, false),
        reads(rows@[5], "Brightness backend"@, driven@, None, false),
        context.confidence matches Some(confidence) ==> rows@.len() == 7 && reads(
            rows@[6],
            "DDC match"@,
            confidence@,
            None,
            false,
        ),
        context.confidence is None ==> rows@.len() == 6,
{
    assert(shown_rows(rows@).len() == rows@.len());
    lemma_row(rows@, 0);
    lemma_row(rows@, 1);
    lemma_row(rows@, 2);
    lemma_row(rows@, 3);
    lemma_row(rows@, 4);
    lemma_row(rows@, 5);
    if context.confidence is Some {
        lemma_row(rows@, 6);
    }
}

} // verus!
