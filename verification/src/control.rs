//! What the panel's controls do: from a tag and the state of things to the
//! change it makes and what is to be asked of the system.

use vstd::prelude::*;

use crate::display::{Display, DisplayMode};
use crate::eq::{preset_at, preset_row, Preset, Settings, PRESET_COUNT};
use crate::names::AppFader;
use crate::power::PowerError;
use crate::prefs::Config;
use crate::processes::Process;
use crate::sound::{kept_under, MixAsk, SoundService};
use crate::state::{
    law_numbers_tell_rows_apart, shown_rows, CardAction, CardFacts, Context, Route, SoundAction,
    Submenu, SubmenuAction, SubmenuRow, ViewState,
};
use crate::text::{decimal, digits};
use crate::views::{
    as_index, caption_of, can_open, decode_app, decode_sound_tag, decode_tag, app_of, quotient,
    resolution_caption, size_of, size_text, sound_item, LoginStatus,
};

verus! {

/// The display's index that a tag carries.
pub open spec fn tagged_index(tag: isize) -> usize {
    as_index(quotient(tag as int)) as usize
}

/// The item that a tag carries.
pub open spec fn tagged_item(tag: isize) -> isize {
    (tag - quotient(tag as int) * 100) as isize
}

// --- the panel itself -------------------------------------------------------

/// Whether a click asked for a context menu: the right button, or the left one
/// with the control key held.
pub fn is_secondary_click(right: bool, left: bool, control_held: bool) -> (secondary: bool)
    ensures
        secondary == (right || (control_held && left)),
{
    right || (control_held && left)
}

/// What a click on the menu-bar icon does.
#[derive(Clone, Copy, Debug, PartialEq, Eq, Structural)]
pub enum Press {
    /// Hide the panel and show the menu.
    Menu,
    Hide,
    /// Bring the sound section up to date, and show the panel.
    Open,
}

/// The displays that were online when they were last looked at, so a hotplug
/// redraws a panel that is already open.
#[derive(Debug)]
pub struct Watch {
    pub online: Vec<u32>,
}

impl Watch {
    pub fn new() -> (watch: Self)
        ensures
            watch.online@ == Seq::<u32>::empty(),
    {
        Watch { online: Vec::new() }
    }

    /// Takes in the displays that are online now. Returns true when they are
    /// not the ones that were.
    pub fn look(&mut self, online: Vec<u32>) -> (changed: bool)
        ensures
            changed == (old(self).online@ != online@),
            final(self).online@ == online@,
    {
        let changed: bool = !same_ids(self.online.as_slice(), online.as_slice());
        if changed {
            self.online = online;
        }
        changed
    }
}

fn same_ids(left: &[u32], right: &[u32]) -> (same: bool)
    ensures
        same == (left@ == right@),
{
    if left.len() != right.len() {
        return false;
    }
    let mut i: usize = 0;
    while i < left.len()
        invariant
            i <= left@.len() == right@.len(),
            forall|j: int| 0 <= j < i ==> left@[j] == right@[j],
        decreases left@.len() - i,
    {
        if left[i] != right[i] {
            return false;
        }
        i += 1;
    }
    assert(left@ =~= right@);
    true
}

impl ViewState {
    /// Takes a click on the menu-bar icon. Opening always returns to the top
    /// level rather than resuming whatever submenu was last open.
    pub fn press(&mut self, secondary: bool, visible: bool) -> (press: Press)
        ensures
            press == (if secondary {
                Press::Menu
            } else if visible {
                Press::Hide
            } else {
                Press::Open
            }),
            *final(self) == (if press == Press::Open {
                ViewState { route: Route::Root, notice: None, ..*old(self) }
            } else {
                *old(self)
            }),
    {
        if secondary {
            return Press::Menu;
        }
        if visible {
            return Press::Hide;
        }
        self.route = Route::Root;
        self.notice = None;
        Press::Open
    }

    /// Opens or closes the advanced rows that a caret belongs to. The sound
    /// card shares the caret, and its tag carries no display index to decode.
    pub fn toggle_card(&mut self, tag: isize)
        ensures
            sound_item(tag) is Some ==> *final(self) == (ViewState {
                sound_expanded: !old(self).sound_expanded,
                ..*old(self)
            }),
            sound_item(tag) is None ==> {
                &&& final(self).open_cards() == (if old(self).open_cards().contains(
                    tagged_index(tag),
                ) {
                    old(self).open_cards().remove(tagged_index(tag))
                } else {
                    old(self).open_cards().insert(tagged_index(tag))
                })
                &&& final(self).same_notices(*old(self))
                &&& final(self).route == old(self).route
            },
    {
        if decode_sound_tag(tag).is_some() {
            self.sound_expanded = !self.sound_expanded;
        } else {
            let (index, _): (usize, isize) = decode_tag(tag);
            self.toggle_expanded(index);
        }
    }

    /// Takes in that a display's card was opened or closed. Reopening starts at
    /// the primary controls rather than unexpectedly restoring the deeper
    /// advanced section too.
    pub fn display_card_toggled(&mut self, index: usize, open: bool)
        ensures
            final(self).open_cards() == (if open {
                old(self).open_cards()
            } else {
                old(self).open_cards().remove(index)
            }),
            final(self).same_notices(*old(self)),
            final(self).route == old(self).route,
    {
        if !open {
            self.collapse(index);
        }
    }

    /// Takes in that the sound card was opened or closed.
    pub fn sound_card_toggled(&mut self, open: bool)
        ensures
            *final(self) == (ViewState {
                sound_expanded: old(self).sound_expanded && open,
                ..*old(self)
            }),
    {
        if !open {
            self.sound_expanded = false;
        }
    }

    /// Opens the submenu that a row's tag names. Returns false where it names
    /// none.
    pub fn open_submenu(&mut self, tag: isize) -> (opened: bool)
        ensures
            opened == exists|submenu: Submenu| #[trigger] submenu.number() == tagged_item(tag),
            !opened ==> *final(self) == *old(self),
            opened ==> {
                &&& final(self).route matches Route::Submenu { display, submenu }
                &&& display == tagged_index(tag)
                &&& submenu.number() == tagged_item(tag)
                &&& *final(self) == (ViewState { route: final(self).route, ..*old(self) })
            },
    {
        let (index, item): (usize, isize) = decode_tag(tag);
        match Submenu::from_index(item) {
            Some(submenu) => {
                self.route = Route::Submenu { display: index, submenu };
                assert(submenu.number() == tagged_item(tag));
                true
            },
            None => false,
        }
    }

    pub fn go_back(&mut self)
        ensures
            *final(self) == (ViewState { route: Route::Root, ..*old(self) }),
    {
        self.route = Route::Root;
    }

    /// Opens the settings, with nothing left over from the last time.
    pub fn open_settings(&mut self)
        ensures
            *final(self) == (ViewState {
                route: Route::Settings,
                settings_notice: None,
                ..*old(self)
            }),
    {
        self.route = Route::Settings;
        self.settings_notice = None;
    }

    /// Takes in how connecting or disconnecting a display went. A display that
    /// was switched off loses its advanced rows, and its card is to be closed
    /// where this returns true; a refusal goes on the card.
    pub fn connection_switched(
        &mut self,
        index: usize,
        wanted: bool,
        result: Result<(), PowerError>,
    ) -> (close: bool)
        ensures
            close == (result is Ok && !wanted),
            match result {
                Ok(()) => final(self).notice is None,
                Err(error) => final(self).notice matches Some(text) && text@ == error.text(),
            },
            final(self).open_cards() == (if close {
                old(self).open_cards().remove(index)
            } else {
                old(self).open_cards()
            }),
            final(self).route == old(self).route,
            final(self).sound_notice == old(self).sound_notice,
            final(self).settings_notice == old(self).settings_notice,
            final(self).sound_expanded == old(self).sound_expanded,
    {
        match result {
            Ok(()) => {
                self.notice = None;
                if !wanted {
                    self.collapse(index);
                }
                !wanted
            },
            Err(error) => {
                self.notice = Some(error.message().to_owned());
                false
            },
        }
    }

    /// Says how many displays came back: where the settings are open, there.
    pub fn report_reconnected(&mut self, restored: usize)
        ensures
            final(self).route == old(self).route,
            final(self).open_cards() == old(self).open_cards(),
            final(self).sound_notice == old(self).sound_notice,
            final(self).sound_expanded == old(self).sound_expanded,
            if old(self).route == Route::Settings {
                &&& final(self).settings_notice matches Some(text) && text@ == reconnected_text(
                    restored,
                )
                &&& final(self).notice == old(self).notice
            } else {
                &&& final(self).notice matches Some(text) && text@ == reconnected_text(restored)
                &&& final(self).settings_notice == old(self).settings_notice
            },
    {
        let text = if restored == 0 {
            "No disconnected displays to bring back".to_owned()
        } else if restored == 1 {
            "1 display reconnected".to_owned()
        } else {
            let mut text = decimal(restored as u64);
            text.append(" displays reconnected");
            text
        };
        if self.route == Route::Settings {
            self.settings_notice = Some(text);
        } else {
            self.notice = Some(text);
        }
    }

    /// Says how a change of the audio driver went: where the settings are open,
    /// there.
    pub fn report_driver(&mut self, message: String)
        ensures
            *final(self) == (if old(self).route == Route::Settings {
                ViewState { settings_notice: Some(message), ..*old(self) }
            } else {
                ViewState { sound_notice: Some(message), ..*old(self) }
            }),
    {
        if self.route == Route::Settings {
            self.settings_notice = Some(message);
        } else {
            self.sound_notice = Some(message);
        }
    }

    /// Takes in how switching the launch at login went.
    pub fn login_switched(&mut self, result: Result<LoginStatus, String>)
        ensures
            *final(self) == (ViewState {
                settings_notice: final(self).settings_notice,
                ..*old(self)
            }),
            match result {
                Ok(LoginStatus::RequiresApproval) => final(self).settings_notice matches Some(text)
                    && text@ == "Approve DisEQ under Login Items in System Settings"@,
                Ok(_) => final(self).settings_notice is None,
                Err(error) => final(self).settings_notice == Some(error),
            },
    {
        self.settings_notice = match result {
            Ok(LoginStatus::RequiresApproval) => Some(
                "Approve DisEQ under Login Items in System Settings".to_owned(),
            ),
            Ok(_) => None,
            Err(error) => Some(error),
        };
    }
}

pub open spec fn reconnected_text(restored: usize) -> Seq<char> {
    if restored == 0 {
        "No disconnected displays to bring back"@
    } else if restored == 1 {
        "1 display reconnected"@
    } else {
        digits(restored as nat) + " displays reconnected"@
    }
}

// --- displays ---------------------------------------------------------------

/// What activating a toggle of a display's card asks of the system.
#[derive(Clone, Copy, Debug, PartialEq, Eq, Structural)]
pub enum CardCommand {
    Nothing,
    SetHiDpi(bool),
    /// Make the display the main one; if that is done, the order of displays
    /// has changed.
    SetMain,
    SetAutoBrightness(bool),
    SetNightShift(bool),
}

pub open spec fn card_commands(
    action: CardAction,
    display: Display,
    facts: CardFacts,
) -> CardCommand {
    let (on, available) = action.stands(display, facts);
    if !available {
        CardCommand::Nothing
    } else {
        match action {
            CardAction::HiDpi => CardCommand::SetHiDpi(!on),
            CardAction::SetAsMain => CardCommand::SetMain,
            CardAction::AutoBrightness => CardCommand::SetAutoBrightness(!on),
            CardAction::NightShift => CardCommand::SetNightShift(!on),
            CardAction::DisplayNotch => CardCommand::Nothing,
            CardAction::BrightnessUpscaling => CardCommand::Nothing,
        }
    }
}

/// What activating a toggle asks for. One that cannot do anything asks for
/// nothing.
pub fn card_action(action: CardAction, display: &Display, facts: CardFacts) -> (command:
    CardCommand)
    ensures
        command == card_commands(action, *display, facts),
{
    let (on, available): (bool, bool) = action.state(display, facts);
    if !available {
        return CardCommand::Nothing;
    }
    match action {
        CardAction::HiDpi => CardCommand::SetHiDpi(!on),
        CardAction::SetAsMain => CardCommand::SetMain,
        CardAction::AutoBrightness => CardCommand::SetAutoBrightness(!on),
        CardAction::NightShift => CardCommand::SetNightShift(!on),
        CardAction::DisplayNotch => CardCommand::Nothing,
        CardAction::BrightnessUpscaling => CardCommand::Nothing,
    }
}

/// The action of a submenu's row, told by the row's tag.
pub open spec fn chosen(
    route: Route,
    tag: isize,
    displays: Seq<Display>,
    context: Context,
) -> Option<SubmenuAction> {
    match route {
        Route::Submenu { submenu, .. } => {
            let index = tagged_index(tag);
            let row = tagged_item(tag);
            if index < displays.len() {
                let rows = submenu.rows_shown(displays[index as int], displays, context);
                if 0 <= row < rows.len() {
                    rows[row as int].action
                } else {
                    None
                }
            } else {
                None
            }
        },
        _ => None,
    }
}

/// The action of the submenu row that was clicked. The rows are recomputed from
/// the same inputs the view used, so the row's index still refers to the row
/// the user clicked.
pub fn submenu_row(
    route: Route,
    tag: isize,
    displays: &[Display],
    context: &Context<'_>,
) -> (action: Option<SubmenuAction>)
    requires
        route matches Route::Submenu { submenu, .. } ==> (tagged_index(tag) < displays@.len()
            ==> can_open(
            displays@[tagged_index(tag) as int],
            tagged_index(tag),
            submenu,
            displays@,
            *context,
        )),
    ensures
        action == chosen(route, tag, displays@, *context),
{
    match route {
        Route::Submenu { submenu, .. } => {
            let (index, row): (usize, isize) = decode_tag(tag);
            if index >= displays.len() || row < 0 {
                return None;
            }
            let rows = submenu.rows(&displays[index], displays, context);
            if row as usize >= rows.len() {
                return None;
            }
            assert(shown_rows(rows@)[row as int] == rows@[row as int].shown());
            rows[row as usize].action
        },
        _ => None,
    }
}

/// What the resolution slider says while it is dragged: the caption, the size,
/// and the part that is of the widest.
#[derive(Debug)]
pub struct Preview {
    pub caption: &'static str,
    pub size: String,
    pub scale: Option<(u32, u32)>,
}

/// What the resolution slider of a display says at one of its stops.
pub fn resolution_description(displays: &[Display], index: usize, choice: usize) -> (preview:
    Option<Preview>)
    ensures
        match preview {
            None => index >= displays@.len() || choice >= displays@[index as int].selectable().len(),
            Some(preview) => {
                &&& index < displays@.len()
                &&& choice < displays@[index as int].selectable().len()
                &&& ({
                    let modes = displays@[index as int].selectable();
                    let mode = modes[choice as int];
                    &&& preview.caption == resolution_caption(mode)
                    &&& preview.size@ == size_text(mode)
                    &&& preview.scale == (if modes.last().width > 0 {
                        Some((mode.width, modes.last().width))
                    } else {
                        None
                    })
                })
            },
        },
{
    if index >= displays.len() {
        return None;
    }
    let modes = displays[index].selectable_modes();
    if choice >= modes.len() {
        return None;
    }
    let mode = &modes[choice];
    let widest: u32 = modes[modes.len() - 1].width;
    Some(
        Preview {
            caption: caption_of(mode),
            size: size_of(mode),
            scale: if widest > 0 {
                Some((mode.width, widest))
            } else {
                None
            },
        },
    )
}

// --- sound ------------------------------------------------------------------

/// The switch of the sound card that a tag names.
pub fn switched_sound(tag: isize) -> (action: Option<SoundAction>)
    ensures
        match action {
            Some(action) => sound_item(tag) == Some(action.number()),
            None => forall|action: SoundAction|
                sound_item(tag) != Some(#[trigger] action.number()),
        },
{
    match decode_sound_tag(tag) {
        Some(item) => SoundAction::from_index(item),
        None => None,
    }
}

/// The device that a row of the output picker names.
pub fn chosen_output(tag: isize) -> (device: Option<u32>)
    ensures
        device == (match sound_item(tag) {
            Some(item) if item <= u32::MAX => Some(item as u32),
            _ => None,
        }),
{
    match decode_sound_tag(tag) {
        Some(item) => {
            let id: usize = item as usize;
            if id <= u32::MAX as usize {
                Some(id as u32)
            } else {
                None
            }
        },
        None => None,
    }
}

/// The preset that a row of the preset list names.
pub fn chosen_preset(tag: isize) -> (preset: Option<Preset>)
    ensures
        match sound_item(tag) {
            Some(item) if item < PRESET_COUNT => preset == Some(preset_row(item as int)),
            _ => preset is None,
        },
{
    match decode_sound_tag(tag) {
        Some(item) => {
            let index: usize = item as usize;
            if index < PRESET_COUNT {
                Some(preset_at(index))
            } else {
                None
            }
        },
        None => None,
    }
}

impl SoundService {
    /// Flips one of the sound card's switches. Only the App Mixer asks anything
    /// of the system; `playing` is what it would cover.
    pub fn switch(&mut self, action: SoundAction, playing: Vec<Process>) -> (ask: MixAsk)
        requires
            old(self).wf(),
        ensures
            final(self).wf(),
            match action {
                SoundAction::Equaliser => {
                    &&& ask is Nothing
                    &&& old(self).equalizer.switched(
                        !old(self).equalizer.current().enabled,
                        final(self).equalizer,
                    )
                    &&& final(self).retuned(*old(self))
                },
                SoundAction::AutoPreamp => {
                    &&& ask is Nothing
                    &&& old(self).equalizer.auto_preamp_switched(
                        !old(self).equalizer.current().auto_preamp,
                        final(self).equalizer,
                    )
                    &&& final(self).retuned(*old(self))
                },
                SoundAction::AppMixer => match old(self).mixer {
                    Some(mixer) => {
                        &&& ask == (MixAsk::Stop { mixer })
                        &&& *final(self) == (SoundService {
                            mixer: None,
                            config: Config { mixing: false, ..old(self).config },
                            dirty: true,
                            ..*old(self)
                        })
                    },
                    None => {
                        &&& old(self).mixing_asks(playing@, ask)
                        &&& *final(self) == (SoundService {
                            config: Config { mixing: true, ..old(self).config },
                            dirty: true,
                            ..*old(self)
                        })
                    },
                },
            },
    {
        match action {
            SoundAction::Equaliser => {
                let wanted: bool = !self.settings().enabled;
                self.set_eq_enabled(wanted);
                MixAsk::Nothing
            },
            SoundAction::AutoPreamp => {
                let wanted: bool = !self.settings().auto_preamp;
                self.set_auto_preamp(wanted);
                MixAsk::Nothing
            },
            SoundAction::AppMixer => {
                let wanted: bool = !self.is_mixing();
                self.set_mixing(wanted, playing)
            },
        }
    }

    /// Moves the application fader that a tag names. Returns false where it
    /// names none.
    pub fn move_fader(&mut self, tag: isize, gain: i64) -> (moved: bool)
        requires
            old(self).wf(),
        ensures
            final(self).wf(),
            moved == (match (app_of(tag), old(self).mixer) {
                (Some(index), Some(mixer)) => index < mixer.taps@.len(),
                _ => false,
            }),
            !moved ==> *final(self) == *old(self),
            moved ==> {
                let mixer = old(self).mixer->0;
                let process = mixer.taps@[app_of(tag)->0 as int].process.id;
                &&& final(self).mixer matches Some(after) && mixer.regained(process, gain, after)
                &&& final(self).config.app_gains@ == (match kept_under(mixer, process) {
                    Some(bundle) => old(self).config.app_gains@.insert(bundle, gain),
                    None => old(self).config.app_gains@,
                })
                &&& *final(self) == (SoundService {
                    mixer: final(self).mixer,
                    config: Config {
                        app_gains: final(self).config.app_gains,
                        ..old(self).config
                    },
                    dirty: old(self).dirty || kept_under(mixer, process) is Some,
                    ..*old(self)
                })
            },
    {
        let index: usize = match decode_app(tag) {
            Some(index) => index,
            None => {
                return false;
            },
        };
        let process: u32 = match &self.mixer {
            None => {
                return false;
            },
            Some(mixer) => {
                if index >= mixer.taps.len() {
                    return false;
                }
                mixer.taps[index].process().id
            },
        };
        self.set_app_gain(process, gain);
        true
    }
}

// --- the audio driver -------------------------------------------------------

/// An offer to install the audio driver.
#[derive(Clone, Copy, Debug, PartialEq, Eq, Structural)]
pub enum Offer {
    Install,
    Update,
}

/// How the audio driver that is installed compares with the one the app
/// carries.
#[derive(Clone, Copy, Debug, PartialEq, Eq, Structural)]
pub enum DriverState {
    Current,
    NotInstalled,
    Outdated,
}

/// Whether to offer the driver at launch. A refusal is remembered, but an update
/// is a different offer from the one that was refused.
pub fn offer_driver_install(state: DriverState, declined: bool) -> (offer: Option<Offer>)
    ensures
        offer == (match state {
            DriverState::Current => None,
            DriverState::NotInstalled => if declined {
                None
            } else {
                Some(Offer::Install)
            },
            DriverState::Outdated => Some(Offer::Update),
        }),
{
    match state {
        DriverState::Current => None,
        DriverState::NotInstalled => {
            if declined {
                None
            } else {
                Some(Offer::Install)
            }
        },
        DriverState::Outdated => Some(Offer::Update),
    }
}

// --- what holds of the controls ---------------------------------------------

/// A click with the control key held counts as a secondary one, and one of those
/// asks for the menu; any other shows the panel where it is hidden, at its root
/// and without an old notice, and hides it where it is not.
pub proof fn law_a_click_shows_the_panel_or_its_menu(
    right: bool,
    left: bool,
    control: bool,
    secondary: bool,
    state: &mut ViewState,
    visible: bool,
    press: Press,
)
    requires
        call_ensures(is_secondary_click, (right, left, control), secondary),
        call_ensures(ViewState::press, (state, secondary, visible), press),
    ensures
        secondary <==> right || control && left,
        press == Press::Menu <==> secondary,
        press == Press::Hide <==> !secondary && visible,
        press == Press::Open <==> !secondary && !visible,
        press == Press::Open ==> final(state).route == Route::Root && final(state).notice is None,
        press != Press::Open ==> *final(state) == *old(state),
        final(state).open_cards() == old(state).open_cards(),
        final(state).sound_notice == old(state).sound_notice,
        final(state).settings_notice == old(state).settings_notice,
        final(state).sound_expanded == old(state).sound_expanded,
{
}

/// A change of what is online is noticed once.
pub proof fn law_a_change_is_noticed_once(
    fresh: Watch,
    watch: &mut Watch,
    online: Vec<u32>,
    changed: bool,
    then: &mut Watch,
    same: Vec<u32>,
    again: bool,
    i: int,
)
    requires
        call_ensures(Watch::new, (), fresh),
        call_ensures(Watch::look, (watch, online), changed),
        *old(then) == *final(watch),
        same@ == online@,
        call_ensures(Watch::look, (then, same), again),
    ensures
        fresh.online@.len() == 0,
        !again,
        old(watch).online@.len() != online@.len() ==> changed,
        0 <= i < online@.len() && i < old(watch).online@.len()
            && online@[i] != old(watch).online@[i] ==> changed,
        changed || old(watch).online@ == online@,
{
}

/// A caret opens and closes the part of the card that its tag belongs to, and no
/// other.
pub proof fn law_a_caret_opens_its_card(
    state: &mut ViewState,
    tag: isize,
    item: Option<isize>,
    decoded: (usize, isize),
    card: usize,
    before: bool,
    after: bool,
)
    requires
        call_ensures(decode_sound_tag, (tag,), item),
        call_ensures(decode_tag, (tag,), decoded),
        call_ensures(ViewState::is_expanded, (&*old(state), card), before),
        call_ensures(ViewState::toggle_card, (state, tag), ()),
        call_ensures(ViewState::is_expanded, (&*final(state), card), after),
    ensures
        item is Some ==> after == before && final(state).sound_expanded
            == !old(state).sound_expanded,
        item is None ==> (after <==> if card == decoded.0 {
            !before
        } else {
            before
        }) && final(state).sound_expanded == old(state).sound_expanded,
        final(state).route == old(state).route,
        final(state).notice == old(state).notice,
        final(state).sound_notice == old(state).sound_notice,
        final(state).settings_notice == old(state).settings_notice,
{
}

/// A card that was closed has nothing open inside; one that was opened keeps
/// what it had.
pub proof fn law_a_closed_card_has_nothing_open(
    state: &mut ViewState,
    index: usize,
    open: bool,
    card: usize,
    before: bool,
    after: bool,
    then: &mut ViewState,
    sound: bool,
)
    requires
        call_ensures(ViewState::is_expanded, (&*old(state), card), before),
        call_ensures(ViewState::display_card_toggled, (state, index, open), ()),
        call_ensures(ViewState::is_expanded, (&*final(state), card), after),
        *old(then) == *final(state),
        call_ensures(ViewState::sound_card_toggled, (then, sound), ()),
    ensures
        after <==> before && (open || card != index),
        final(state).route == old(state).route,
        final(then).sound_expanded <==> old(state).sound_expanded && sound,
        final(then).open_cards() == final(state).open_cards(),
{
}

/// A submenu opens for the display and the item its tag says, where there is
/// such an item; going back ends at the root, and the settings open without an
/// old notice.
pub proof fn law_a_submenu_opens_by_its_tag(
    state: &mut ViewState,
    tag: isize,
    decoded: (usize, isize),
    submenu: Option<Submenu>,
    opened: bool,
    back: &mut ViewState,
    settings: &mut ViewState,
)
    requires
        call_ensures(decode_tag, (tag,), decoded),
        call_ensures(Submenu::from_index, (decoded.1,), submenu),
        call_ensures(ViewState::open_submenu, (state, tag), opened),
        *old(back) == *final(state),
        call_ensures(ViewState::go_back, (back,), ()),
        *old(settings) == *final(back),
        call_ensures(ViewState::open_settings, (settings,), ()),
    ensures
        opened <==> submenu is Some,
        opened ==> final(state).route == (Route::Submenu {
            display: decoded.0,
            submenu: submenu->0,
        }),
        !opened ==> *final(state) == *old(state),
        final(state).open_cards() == old(state).open_cards(),
        final(state).notice == old(state).notice,
        final(back).route == Route::Root,
        final(settings).route == Route::Settings,
        final(settings).settings_notice is None,
        final(settings).notice == old(state).notice,
        final(settings).sound_notice == old(state).sound_notice,
{
    if submenu is Some {
        assert((submenu->0).number() == tagged_item(tag));
    }
    if opened {
        let found = choose|submenu: Submenu| #[trigger] submenu.number() == tagged_item(tag);
        law_numbers_tell_rows_apart(
            SoundAction::Equaliser,
            SoundAction::Equaliser,
            CardAction::HiDpi,
            CardAction::HiDpi,
            found,
            submenu->0,
        );
    }
}

/// A display that was switched off has its card closed; a switch that failed
/// says why on the card.
pub proof fn law_a_switched_display_is_told(
    state: &mut ViewState,
    index: usize,
    wanted: bool,
    result: Result<(), PowerError>,
    close: bool,
    why: &'static str,
    card: usize,
    before: bool,
    after: bool,
)
    requires
        result matches Err(error) ==> call_ensures(PowerError::message, (error,), why),
        call_ensures(ViewState::is_expanded, (&*old(state), card), before),
        call_ensures(ViewState::connection_switched, (state, index, wanted, result), close),
        call_ensures(ViewState::is_expanded, (&*final(state), card), after),
    ensures
        close <==> result is Ok && !wanted,
        result is Ok ==> final(state).notice is None,
        result is Err ==> final(state).notice is Some && (final(state).notice->0)@ == why@,
        after <==> before && !(close && card == index),
        final(state).route == old(state).route,
{
}

/// How many displays came back is told where the question was asked.
pub proof fn law_a_reconnection_is_told_where_it_was_asked(
    state: &mut ViewState,
    restored: usize,
    number: String,
)
    requires
        call_ensures(decimal, (restored as u64,), number),
        call_ensures(ViewState::report_reconnected, (state, restored), ()),
    ensures
        ({
            let asked_in_settings = old(state).route == Route::Settings;
            let told = if asked_in_settings {
                final(state).settings_notice
            } else {
                final(state).notice
            };
            &&& told is Some
            &&& restored == 0 ==> (told->0)@ == "No disconnected displays to bring back"@
            &&& restored == 1 ==> (told->0)@ == "1 display reconnected"@
            &&& restored > 1 ==> (told->0)@ == number@ + " displays reconnected"@
            &&& asked_in_settings ==> final(state).notice == old(state).notice
            &&& !asked_in_settings ==> final(state).settings_notice == old(state).settings_notice
        }),
        final(state).route == old(state).route,
        final(state).sound_notice == old(state).sound_notice,
{
}

/// So is what came of the driver; and a login item that waits to be approved
/// says so.
pub proof fn law_the_driver_and_the_login_item_are_told(
    state: &mut ViewState,
    message: String,
    then: &mut ViewState,
    result: Result<LoginStatus, String>,
)
    requires
        call_ensures(ViewState::report_driver, (state, message), ()),
        *old(then) == *final(state),
        call_ensures(ViewState::login_switched, (then, result), ()),
    ensures
        old(state).route == Route::Settings ==> final(state).settings_notice == Some(message)
            && final(state).sound_notice == old(state).sound_notice,
        old(state).route != Route::Settings ==> final(state).sound_notice == Some(message)
            && final(state).settings_notice == old(state).settings_notice,
        final(state).notice == old(state).notice,
        result matches Err(error) ==> final(then).settings_notice == Some(error),
        result matches Ok(status) ==> (if status == LoginStatus::RequiresApproval {
            final(then).settings_notice is Some && (final(then).settings_notice->0)@
                == "Approve DisEQ under Login Items in System Settings"@
        } else {
            final(then).settings_notice is None
        }),
        final(then).sound_notice == final(state).sound_notice,
{
}

/// A switch that can be moved is moved to the other side, and one that cannot
/// does nothing.
pub proof fn law_a_switch_is_moved_to_the_other_side(
    action: CardAction,
    display: Display,
    facts: CardFacts,
    state: (bool, bool),
    command: CardCommand,
)
    requires
        call_ensures(CardAction::state, (action, &display, facts), state),
        call_ensures(card_action, (action, &display, facts), command),
    ensures
        !state.1 ==> command == CardCommand::Nothing,
        state.1 && action == CardAction::HiDpi ==> command == CardCommand::SetHiDpi(!state.0),
        state.1 && action == CardAction::SetAsMain ==> command == CardCommand::SetMain,
        state.1 && action == CardAction::AutoBrightness ==> command
            == CardCommand::SetAutoBrightness(!state.0),
        state.1 && action == CardAction::NightShift ==> command == CardCommand::SetNightShift(
            !state.0,
        ),
        action == CardAction::DisplayNotch || action == CardAction::BrightnessUpscaling ==> command
            == CardCommand::Nothing,
{
}

/// A row that was picked does what it says it does; a tag that leads to no row
/// does nothing.
pub proof fn law_a_picked_row_does_what_it_says(
    route: Route,
    tag: isize,
    decoded: (usize, isize),
    displays: &[Display],
    context: Context,
    rows: Vec<SubmenuRow>,
    action: Option<SubmenuAction>,
)
    requires
        call_ensures(decode_tag, (tag,), decoded),
        route is Submenu && decoded.0 < displays@.len() ==> call_ensures(
            Submenu::rows,
            (route->Submenu_submenu, &displays@[decoded.0 as int], displays, &context),
            rows,
        ),
        call_ensures(submenu_row, (route, tag, displays, &context), action),
    ensures
        action == (if route is Submenu && decoded.0 < displays@.len() && 0 <= decoded.1
            < rows@.len() {
            rows@[decoded.1 as int].action
        } else {
            None
        }),
{
    if route is Submenu && decoded.0 < displays@.len() {
        assert(shown_rows(rows@).len() == rows@.len());
        if 0 <= decoded.1 < rows@.len() {
            assert(shown_rows(rows@)[decoded.1 as int] == rows@[decoded.1 as int].shown());
        }
    }
}

/// A stop of the slider is described by its mode, against the widest.
pub proof fn law_a_stop_is_described_by_its_mode(
    displays: &[Display],
    index: usize,
    choice: usize,
    modes: Vec<DisplayMode>,
    caption: &'static str,
    size: String,
    preview: Option<Preview>,
)
    requires
        index < displays@.len() ==> call_ensures(
            Display::selectable_modes,
            (&displays@[index as int],),
            modes,
        ),
        index < displays@.len() && choice < modes@.len() ==> call_ensures(
            caption_of,
            (&modes@[choice as int],),
            caption,
        ) && call_ensures(size_of, (&modes@[choice as int],), size),
        call_ensures(resolution_description, (displays, index, choice), preview),
    ensures
        preview is Some <==> index < displays@.len() && choice < modes@.len(),
        preview matches Some(preview) ==> {
            &&& preview.caption == caption
            &&& preview.size@ == size@
            &&& modes@.last().width > 0 ==> preview.scale == Some(
                (modes@[choice as int].width, modes@.last().width),
            )
            &&& modes@.last().width == 0 ==> preview.scale is None
        },
{
}

/// A tag of the Sound card leads to its switch, its output or its preset.
pub proof fn law_a_sound_tag_leads_to_its_row(
    tag: isize,
    item: Option<isize>,
    action: Option<SoundAction>,
    known: Option<SoundAction>,
    device: Option<u32>,
    preset: Option<Preset>,
    listed: Preset,
)
    requires
        call_ensures(decode_sound_tag, (tag,), item),
        item matches Some(item) ==> call_ensures(SoundAction::from_index, (item,), known),
        call_ensures(switched_sound, (tag,), action),
        call_ensures(chosen_output, (tag,), device),
        call_ensures(chosen_preset, (tag,), preset),
        item is Some && item->0 < 23 ==> call_ensures(preset_at, (item->0 as usize,), listed),
    ensures
        item is None ==> action is None && device is None && preset is None,
        item is Some ==> action == known,
        item matches Some(item) ==> (if item <= 0xFFFF_FFFF {
            device is Some && device->0 == item
        } else {
            device is None
        }),
        item matches Some(item) ==> (if item < 23 {
            preset == Some(listed)
        } else {
            preset is None
        }),
{
    if item is Some {
        assert(item->0 >= 0);
        if known is Some && action is Some {
            law_numbers_tell_rows_apart(
                known->0,
                action->0,
                CardAction::HiDpi,
                CardAction::HiDpi,
                Submenu::DisplayMode,
                Submenu::DisplayMode,
            );
        }
    }
}

/// A switch of the Sound card turns what it is named after, and nothing else.
pub proof fn law_a_sound_switch_turns_what_it_names(
    service: &mut SoundService,
    action: SoundAction,
    playing: Vec<Process>,
    ask: MixAsk,
    before: &Settings,
    after: &Settings,
    same: &mut SoundService,
    asked: MixAsk,
)
    requires
        old(service).wf(),
        call_ensures(SoundService::settings, (&*old(service),), before),
        call_ensures(SoundService::switch, (service, action, playing), ask),
        call_ensures(SoundService::settings, (&*final(service),), after),
        *old(same) == *old(service),
        call_ensures(
            SoundService::set_mixing,
            (same, old(service).mixer is None, playing),
            asked,
        ),
    ensures
        after.enabled == (if action == SoundAction::Equaliser {
            !before.enabled
        } else {
            before.enabled
        }),
        after.auto_preamp == (if action == SoundAction::AutoPreamp {
            !before.auto_preamp
        } else {
            before.auto_preamp
        }),
        after.gains == before.gains && after.preamp == before.preamp,
        action != SoundAction::AppMixer ==> ask is Nothing
            && final(service).mixer == old(service).mixer
            && final(service).config.mixing == old(service).config.mixing,
        action == SoundAction::AppMixer ==> {
            &&& *final(service) == *final(same)
            &&& old(service).mixer is Some ==> ask == asked
            &&& old(service).mixer is None ==> final(service).config.mixing && (ask is Start
                <==> asked is Start) && (ask is Refuse ==> ask == asked)
        },
        final(service).volume == old(service).volume,
        final(service).target == old(service).target,
{
}

/// The fader of a tag is the one that moves, as its application's level does;
/// where there is no such fader nothing does.
pub proof fn law_a_tagged_fader_moves(
    service: &mut SoundService,
    tag: isize,
    gain: i64,
    index: Option<usize>,
    moved: bool,
    same: &mut SoundService,
    faders: Vec<AppFader>,
    alone: Vec<AppFader>,
)
    requires
        old(service).wf(),
        call_ensures(decode_app, (tag,), index),
        call_ensures(SoundService::move_fader, (service, tag, gain), moved),
        *old(same) == *old(service),
        moved ==> call_ensures(
            SoundService::set_app_gain,
            (same, (old(service).mixer->0).taps@[index->0 as int].process.id, gain),
            (),
        ),
        call_ensures(SoundService::app_faders, (&*final(service),), faders),
        moved ==> call_ensures(SoundService::app_faders, (&*final(same),), alone),
    ensures
        moved <==> index is Some && old(service).mixer is Some
            && index->0 < (old(service).mixer->0).taps@.len(),
        !moved ==> *final(service) == *old(service),
        moved ==> faders@ =~= alone@ && final(service).config.app_gains@
            == final(same).config.app_gains@ && final(service).dirty == final(same).dirty,
{
}

/// The driver is offered where it is missing, unless that was turned down, and
/// its update always.
pub proof fn law_the_driver_is_offered(state: DriverState, declined: bool, offer: Option<Offer>)
    requires
        call_ensures(offer_driver_install, (state, declined), offer),
    ensures
        state == DriverState::Current ==> offer is None,
        state == DriverState::Outdated ==> offer == Some(Offer::Update),
        state == DriverState::NotInstalled ==> (if declined {
            offer is None
        } else {
            offer == Some(Offer::Install)
        }),
{
}

} // verus!
