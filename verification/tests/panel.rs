use diseq::control::{
    card_action, chosen_output, chosen_preset, is_secondary_click, offer_driver_install,
    resolution_description, submenu_row, switched_sound, CardCommand, DriverState, Offer, Press,
    Watch,
};
use diseq::devices::{Device, TRANSPORT_USB, UNITY};
use diseq::display::{Display, DisplayId, DisplayMode, DisplaySnapshot};
use diseq::eq::{DECIBEL, PRESET_COUNT};
use diseq::mixer::Mixer;
use diseq::power::PowerError;
use diseq::prefs::Config;
use diseq::processes::Process;
use diseq::protection::Protection;
use diseq::service::{BrightnessBackend, Level, ONE_BITS};
use diseq::sound::{Availability, MixAsk, SoundService};
use diseq::state::{
    CardAction, CardFacts, Colour, Context, Route, SoundAction, Submenu, SubmenuAction, SubmenuRow,
    ViewState,
};
use diseq::tap::Tap;
use diseq::views::{
    app_tag, band_bank, band_tag, decode_app, decode_band, decode_sound_tag, decode_tag,
    display_card, frequency_label, master_volume_tag, outputs_card, preamp_tag, presets_card, root,
    settings_card, sound_card, sound_tag, submenu_card, tag, Command, DisplayFacts, LoginStatus,
    Piece, Row, Scene, Surface, Switch,
};

fn mode(width: u32, height: u32, refresh_rate: u64, io_mode_id: i32) -> DisplayMode {
    DisplayMode {
        width,
        height,
        hidpi: false,
        refresh_rate,
        io_mode_id,
    }
}

fn display(id: u32) -> Display {
    Display {
        snapshot: DisplaySnapshot {
            id: DisplayId(id),
            name: format!("Panel {id}"),
            is_builtin: false,
            is_main: id == 1,
            is_active: true,
            is_online: true,
            vendor: 0x10ac,
            model: 0x41b5,
            serial: 0x4237314c,
            unit: 2,
            origin: (100, -50),
            size: (1920, 1080),
            mirrors: None,
            current_mode: Some(mode(1920, 1080, 60_000, 4)),
        },
        modes: vec![
            mode(1920, 1080, 60_000, 4),
            mode(1920, 1080, 59_940, 5),
            mode(1920, 1080, 30_000, 6),
            mode(1920, 1080, 0, 7),
            mode(2560, 1440, 60_000, 8),
        ],
        native: Some(mode(2560, 1440, 60_000, 8)),
    }
}

const NEUTRAL: Colour = Colour {
    red: ONE_BITS,
    green: ONE_BITS,
    blue: ONE_BITS,
};

fn context(protection: &Protection) -> Context<'_> {
    Context {
        colour: NEUTRAL,
        protection,
        backend: BrightnessBackend::Ddc,
        confidence: Some("exact".to_string()),
    }
}

const CARD: CardFacts = CardFacts {
    hidpi_twin: true,
    auto_brightness: Some(true),
    night_shift: Some(false),
};

fn facts(connected: bool, open: bool) -> DisplayFacts {
    DisplayFacts {
        connected,
        open,
        backend: BrightnessBackend::Ddc,
        level: Some(Level::Ratio { current: 30, max: 100 }),
        card: CARD,
    }
}

fn speakers() -> Device {
    Device {
        id: 9,
        name: "Speakers".to_string(),
        uid: Some("speakers".to_string()),
        has_output: true,
        has_input: false,
        volume_is_settable: false,
        volume: None,
        muted: None,
        sample_rate: Some(48_000_000),
        transport_type: Some(TRANSPORT_USB),
    }
}

fn sound(driver: bool) -> SoundService {
    SoundService::new(Availability { driver }, Config::default(), Some(speakers()))
}

fn mixing(sound: &mut SoundService) {
    let process = Process {
        id: 10,
        pid: 3,
        bundle_id: Some("com.spotify.client".to_string()),
        is_playing: true,
    };
    let tap = Tap::muting(&process, 50, Some("tap".to_string()), Some(2)).unwrap();
    sound
        .mixer_started(Ok(Mixer::start(vec![tap], &speakers(), 0, 5)))
        .unwrap();
}

fn labels(rows: &[SubmenuRow]) -> Vec<&str> {
    rows.iter().map(|row| row.label.as_str()).collect()
}

// --- state ------------------------------------------------------------------

#[test]
fn cards_open_and_close_on_their_own() {
    let mut state = ViewState::default();
    assert_eq!(state.route, Route::default());
    state.toggle_expanded(2);
    assert!(state.is_expanded(2) && !state.is_expanded(1));
    state.toggle_expanded(2);
    assert!(!state.is_expanded(2));
    state.toggle_expanded(1);
    state.collapse(1);
    state.collapse(1);
    assert!(!state.is_expanded(1));
    state.toggle_expanded(0);
    state.route = Route::Outputs;
    state.display_order_changed();
    assert!(!state.is_expanded(0));
    assert_eq!(state.route, Route::Root);
}

#[test]
fn every_row_is_found_by_its_number() {
    for action in [SoundAction::Equaliser, SoundAction::AutoPreamp, SoundAction::AppMixer] {
        assert_eq!(SoundAction::from_index(action.index()), Some(action));
    }
    assert_eq!(SoundAction::from_index(1), None);
    for entry in CardAction::all() {
        assert_eq!(CardAction::from_index(entry.item.index()), Some(entry.item));
    }
    assert_eq!(CardAction::from_index(0), None);
    assert_eq!(CardAction::from_index(7), None);
    for entry in Submenu::all() {
        assert_eq!(Submenu::from_index(entry.item.index()), Some(entry.item));
        assert_eq!(entry.item.label(), entry.label);
    }
    for gap in [0, 5, 6, 8, 9, 11, 14] {
        assert_eq!(Submenu::from_index(gap), None);
    }
    let card: Vec<&str> = SoundAction::card().iter().map(|entry| entry.label).collect();
    assert_eq!(card, vec!["Equaliser", "App Mixer"]);
}

#[test]
fn toggles_say_how_they_stand() {
    let main = display(1);
    let other = display(2);
    assert_eq!(CardAction::HiDpi.state(&main, CARD), (false, true));
    assert_eq!(CardAction::SetAsMain.state(&main, CARD), (true, false));
    assert_eq!(CardAction::SetAsMain.state(&other, CARD), (false, true));
    assert_eq!(CardAction::AutoBrightness.state(&main, CARD), (true, true));
    assert_eq!(CardAction::NightShift.state(&main, CARD), (false, true));
    assert_eq!(CardAction::DisplayNotch.state(&main, CARD), (false, false));
    assert_eq!(CardAction::BrightnessUpscaling.state(&main, CARD), (false, false));
    let unknown = CardFacts { hidpi_twin: false, auto_brightness: None, night_shift: None };
    assert_eq!(CardAction::AutoBrightness.state(&main, unknown), (false, false));
    assert_eq!(CardAction::NightShift.state(&main, unknown), (false, false));
    // Night Shift is global, and listed once.
    assert!(CardAction::NightShift.is_visible(&main));
    assert!(!CardAction::NightShift.is_visible(&other));
    assert!(CardAction::HiDpi.is_visible(&other));
}

// --- submenus ---------------------------------------------------------------

#[test]
fn the_display_mode_offers_every_other_display() {
    let protection = Protection::new();
    let mut first = display(1);
    first.snapshot.mirrors = Some(DisplayId(3));
    let catalog = [first.clone(), display(2), display(3)];
    let rows = Submenu::DisplayMode.rows(&first, &catalog, &context(&protection));
    assert_eq!(
        labels(&rows),
        vec!["Extended", "Set as main display", "Mirror of Panel 2", "Mirror of Panel 3"]
    );
    assert_eq!(rows[0].action, Some(SubmenuAction::SetMirror(None)));
    assert!(!rows[0].selected);
    assert!(rows[1].selected);
    assert_eq!(rows[3].action, Some(SubmenuAction::SetMirror(Some(DisplayId(3)))));
    assert!(rows[3].selected && !rows[2].selected);
    let rows = Submenu::MirrorDisplay.rows(&first, &catalog, &context(&protection));
    assert_eq!(labels(&rows), vec!["Off", "Panel 2", "Panel 3"]);
    let alone = [display(1)];
    let rows = Submenu::MirrorDisplay.rows(&alone[0], &alone, &context(&protection));
    assert_eq!(labels(&rows), vec!["Off", "No other display"]);
    assert!(rows[0].selected);
    assert_eq!(rows[1].action, None);
}

#[test]
fn each_refresh_rate_is_offered_once() {
    let protection = Protection::new();
    let mut panel = display(1);
    let rows = Submenu::RefreshRate.rows(&panel, &[], &context(&protection));
    // 59.94 rounds to the 60 that is there already.
    assert_eq!(labels(&rows), vec!["60 Hz", "30 Hz", "Variable"]);
    assert!(rows[0].selected && !rows[1].selected);
    assert_eq!(rows[1].action, Some(SubmenuAction::SetMode(6)));
    panel.modes.clear();
    let rows = Submenu::RefreshRate.rows(&panel, &[], &context(&protection));
    assert_eq!(labels(&rows), vec!["No alternatives"]);
    panel.snapshot.current_mode = None;
    let rows = Submenu::RefreshRate.rows(&panel, &[], &context(&protection));
    assert_eq!(labels(&rows), vec!["No mode"]);
}

#[test]
fn the_colour_in_force_is_the_one_selected() {
    let protection = Protection::new();
    let selected = |red: f64, blue: f64| {
        let mut context = context(&protection);
        context.colour = Colour {
            red: red.to_bits(),
            green: 1.0f64.to_bits(),
            blue: blue.to_bits(),
        };
        Submenu::ColorMode
            .rows(&display(1), &[], &context)
            .into_iter()
            .filter(|row| row.selected)
            .map(|row| row.label)
            .collect::<Vec<String>>()
    };
    assert_eq!(selected(1.0, 1.0), vec!["Neutral"]);
    assert_eq!(selected(1.0, 0.84), vec!["Warm"]);
    assert_eq!(selected(1.0, 0.8), vec!["Warm"]);
    assert_eq!(selected(1.0, 0.70), vec!["Warmer"]);
    assert_eq!(selected(0.92, 1.0), vec!["Cool"]);
    assert_eq!(selected(1.0, 0.95), Vec::<String>::new());
    assert_eq!(selected(1.0, -1.0), vec!["Warmer"]);
    assert_eq!(selected(f64::NAN, f64::NAN), Vec::<String>::new());
    let rows = Submenu::ColorMode.rows(&display(1), &[], &context(&protection));
    assert_eq!(labels(&rows), vec!["Neutral", "Warm", "Warmer", "Cool", "Reset"]);
    assert_eq!(
        rows[1].action,
        Some(SubmenuAction::SetColour {
            red: 1.0f64.to_bits(),
            green: 0.94f64.to_bits(),
            blue: 0.84f64.to_bits()
        })
    );
    assert_eq!(
        rows[2].action,
        Some(SubmenuAction::SetColour {
            red: 1.0f64.to_bits(),
            green: 0.86f64.to_bits(),
            blue: 0.70f64.to_bits()
        })
    );
    assert_eq!(
        rows[3].action,
        Some(SubmenuAction::SetColour {
            red: 0.92f64.to_bits(),
            green: 0.96f64.to_bits(),
            blue: 1.0f64.to_bits()
        })
    );
    assert_eq!(rows[4].action, Some(SubmenuAction::ResetColour));
}

#[test]
fn a_display_can_be_moved_beside_itself() {
    let protection = Protection::new();
    let rows = Submenu::MoveDisplay.rows(&display(1), &[], &context(&protection));
    assert_eq!(
        labels(&rows),
        vec!["Origin", "To origin", "Left", "Right", "Above", "Below"]
    );
    assert_eq!(rows[0].detail, "100, -50");
    assert_eq!(rows[1].detail, "0, 0");
    assert!(!rows[1].selected);
    assert_eq!(rows[2].action, Some(SubmenuAction::MoveTo(100 - 1920, -50)));
    assert_eq!(rows[3].action, Some(SubmenuAction::MoveTo(100 + 1920, -50)));
    assert_eq!(rows[4].action, Some(SubmenuAction::MoveTo(100, -50 - 1080)));
    assert_eq!(rows[5].action, Some(SubmenuAction::MoveTo(100, -50 + 1080)));
}

#[test]
fn device_control_is_for_external_displays() {
    let protection = Protection::new();
    let mut panel = display(1);
    let rows = Submenu::DeviceControl.rows(&panel, &[], &context(&protection));
    assert_eq!(
        labels(&rows),
        vec![
            "Panel on",
            "Panel standby",
            "Input: DisplayPort",
            "Input: HDMI 1",
            "Input: USB-C"
        ]
    );
    assert_eq!(rows[1].action, Some(SubmenuAction::PanelPower(false)));
    assert_eq!(rows[2].action, Some(SubmenuAction::SetInput(0x0F)));
    assert_eq!(rows[4].action, Some(SubmenuAction::SetInput(0x1B)));
    panel.snapshot.is_builtin = true;
    let rows = Submenu::DeviceControl.rows(&panel, &[], &context(&protection));
    assert_eq!(labels(&rows), vec!["Not applicable"]);
    assert_eq!(rows[0].detail, "Built-in display");
}

#[test]
fn a_protected_layout_says_what_is_pinned() {
    let mut protection = Protection::new();
    let panel = display(1);
    let rows = Submenu::ConfigurationProtection.rows(&panel, &[], &context(&protection));
    assert_eq!(labels(&rows), vec!["Protect this layout", "Stop protecting"]);
    assert!(!rows[0].selected && rows[1].selected);
    protection.protect(&panel.snapshot);
    let rows = Submenu::ConfigurationProtection.rows(&panel, &[], &context(&protection));
    assert_eq!(labels(&rows)[2], "Pinned");
    assert_eq!(rows[2].detail, "mode 4 at 100,-50");
    assert!(rows[0].selected && !rows[1].selected);
}

#[test]
fn managing_a_display_shows_what_it_is() {
    let protection = Protection::new();
    let mut context = context(&protection);
    let rows = Submenu::ManageDisplay.rows(&display(1), &[], &context);
    let details: Vec<&str> = rows.iter().map(|row| row.detail.as_str()).collect();
    assert_eq!(
        details,
        vec![
            "1",
            "0x10AC",
            "0x41B5",
            "0x4237314C",
            "2",
            BrightnessBackend::Ddc.caption(),
            "exact"
        ]
    );
    context.confidence = None;
    assert_eq!(Submenu::ManageDisplay.rows(&display(1), &[], &context).len(), 6);
}

// --- tags -------------------------------------------------------------------

#[test]
fn tags_read_back_as_what_they_were_made_of() {
    for index in [0usize, 1, 7, 999] {
        for item in [0isize, 1, 13, 99] {
            assert_eq!(decode_tag(tag(index, item)), (index, item));
            assert_eq!(decode_sound_tag(tag(index, item)), None);
        }
    }
    assert_eq!(decode_tag(-1), (0, -1));
    assert_eq!(decode_tag(-250), ((-2isize) as usize, -50));
    assert_eq!(decode_tag(-200), ((-2isize) as usize, 0));
    assert_eq!(
        decode_tag(isize::MIN),
        ((isize::MIN / 100) as usize, isize::MIN % 100)
    );
    assert_eq!(decode_sound_tag(sound_tag(4)), Some(4));
    for band in 0..10 {
        assert_eq!(decode_band(band_tag(band)), Some(band));
        assert_eq!(decode_app(band_tag(band)), None);
    }
    for index in 0..16 {
        assert_eq!(decode_app(app_tag(index)), Some(index));
        assert_eq!(decode_band(app_tag(index)), None);
    }
    for other in [preamp_tag(), master_volume_tag(), sound_tag(2)] {
        assert_eq!(decode_band(other), None);
        assert_eq!(decode_app(other), None);
    }
    assert_ne!(preamp_tag(), master_volume_tag());
}

#[test]
fn bands_are_labelled_to_fit() {
    let mut gains = [0; 10];
    gains[9] = -3 * DECIBEL;
    let bank = band_bank(&gains);
    let labels: Vec<&str> = bank.iter().map(|column| column.label.as_str()).collect();
    assert_eq!(
        labels,
        vec!["32", "64", "125", "250", "500", "1k", "2k", "4k", "8k", "16k"]
    );
    assert_eq!(bank[9].gain, -3 * DECIBEL);
    assert_eq!(decode_band(bank[9].tag), Some(9));
    assert_eq!(frequency_label(999), "999");
}

// --- cards ------------------------------------------------------------------

#[test]
fn an_offline_display_is_only_its_identity() {
    let mut state = ViewState::default();
    state.toggle_expanded(0);
    let card = display_card(&display(1), 0, &facts(false, true), &state);
    assert_eq!(card.rows.len(), 1);
    assert!(matches!(
        &card.rows[0],
        Row::Header { symbol: "display", name, is_main: true, connected: false, tag: 0 }
            if name == "Panel 1"
    ));
    assert_eq!(card.surface, Surface::Inert);
    let closed = display_card(&display(1), 3, &facts(true, false), &state);
    assert_eq!(closed.rows.len(), 1);
    assert_eq!(closed.surface, Surface::Display { tag: 300, highlight: true });
}

#[test]
fn an_open_display_shows_its_controls() {
    let mut state = ViewState::default();
    let card = display_card(&display(2), 1, &facts(true, true), &state);
    assert_eq!(card.rows.len(), 4);
    assert!(matches!(
        card.rows[1],
        Row::Brightness {
            level: Some(Level::Ratio { current: 30, max: 100 }),
            enabled: true,
            tag: 100,
            ..
        }
    ));
    assert!(matches!(
        &card.rows[2],
        Row::Resolution {
            caption: "Resolution",
            size,
            scale: Some((1920, 2560)),
            stop: 0,
            last_stop: 1,
            stops: 2,
            enabled: true,
            tag: 100,
        } if size == "1920x1080"
    ));
    assert!(matches!(card.rows[3], Row::Caret { expanded: false, tag: 100 }));
    assert_eq!(card.surface, Surface::Display { tag: 100, highlight: false });

    state.toggle_expanded(1);
    state.notice = Some("refused".to_string());
    let card = display_card(&display(2), 1, &facts(true, true), &state);
    // Eight submenus, five toggles (Night Shift is the main display's), a note.
    assert_eq!(card.rows.len(), 3 + 8 + 5 + 1 + 1);
    assert!(matches!(
        card.rows[3],
        Row::Disclosure { label: "Display Mode", tag: 101, .. }
    ));
    assert!(matches!(
        card.rows[11],
        Row::Toggle { label: "High Resolution (HiDPI)", on: false, available: true, tag: 101, .. }
    ));
    assert!(matches!(&card.rows[16], Row::Note { text } if text == "refused"));
    let main = display_card(&display(1), 1, &facts(true, true), &state);
    assert_eq!(main.rows.len(), card.rows.len() + 1);
}

#[test]
fn a_display_without_a_mode_has_nothing_to_slide() {
    let mut panel = display(1);
    panel.snapshot.current_mode = None;
    let card = display_card(&panel, 0, &facts(true, true), &ViewState::default());
    assert!(matches!(card.rows[2], Row::NoResolution));
    panel.snapshot.current_mode = Some(DisplayMode { hidpi: true, ..mode(800, 600, 0, 1) });
    panel.native = None;
    let card = display_card(&panel, 0, &facts(true, true), &ViewState::default());
    assert!(matches!(
        card.rows[2],
        Row::Resolution {
            caption: "Resolution (HiDPI)",
            scale: None,
            stop: 0,
            last_stop: 1,
            stops: 0,
            enabled: false,
            ..
        }
    ));
}

#[test]
fn a_submenu_marks_what_is_current() {
    let protection = Protection::new();
    let panel = display(1);
    let card = submenu_card(&panel, 2, Submenu::RefreshRate, &[], &context(&protection));
    assert!(matches!(card.rows[0], Row::Back { title: "Refresh Rate" }));
    assert!(matches!(
        &card.rows[1],
        Row::Choice { line, detail, action_tag: Some(200) }
            if line == "60 Hz" && detail == "Current"
    ));
    let card = submenu_card(&panel, 2, Submenu::ManageDisplay, &[], &context(&protection));
    assert!(matches!(
        &card.rows[1],
        Row::Choice { detail, action_tag: None, .. } if detail == "1"
    ));
}

#[test]
fn the_settings_card_offers_approval_only_where_it_is_needed() {
    let card = settings_card(LoginStatus::Enabled, &None);
    assert_eq!(card.rows.len(), 5);
    assert!(matches!(
        card.rows[1],
        Row::Switch { on: true, available: true, switch: Switch::LaunchAtLogin, .. }
    ));
    let card = settings_card(LoginStatus::RequiresApproval, &Some("note".to_string()));
    assert_eq!(card.rows.len(), 8);
    assert!(matches!(card.rows[1], Row::Switch { on: false, available: true, .. }));
    assert!(matches!(
        card.rows[3],
        Row::Plain { command: Command::OpenLoginItemsSettings, .. }
    ));
    assert!(matches!(card.rows[6], Row::Plain { command: Command::QuitApp, .. }));
    let card = settings_card(LoginStatus::Unavailable, &None);
    assert!(matches!(card.rows[1], Row::Switch { on: false, available: false, .. }));
    assert_eq!(settings_card(LoginStatus::Disabled, &None).rows.len(), 5);
}

#[test]
fn the_sound_card_unfolds_step_by_step() {
    let mut sound = sound(true);
    let mut state = ViewState::default();
    let card = sound_card(&sound, &state);
    assert_eq!(card.rows.len(), 1);
    assert!(matches!(&card.rows[0], Row::SoundHeader { output, .. } if output == "Speakers"));
    assert_eq!(card.surface, Surface::Sound { tag: sound_tag(0), highlight: true });

    sound.toggle_sound_card();
    let card = sound_card(&sound, &state);
    assert_eq!(card.rows.len(), 3);
    assert!(matches!(
        card.rows[1],
        Row::Volume { volume: UNITY, settable: false, .. }
    ));

    state.sound_expanded = true;
    mixing(&mut sound);
    sound.set_preset("rock");
    let card = sound_card(&sound, &state);
    // Header, volume, equaliser with preset, bank and auto-preamp, mixer with
    // one fader, caret.
    assert_eq!(card.rows.len(), 9);
    assert!(matches!(
        card.rows[2],
        Row::Switch { on: true, available: true, switch: Switch::Sound(SoundAction::Equaliser), .. }
    ));
    assert!(matches!(card.rows[3], Row::Preset { preset: "Rock", .. }));
    assert!(matches!(card.rows[4], Row::Bank { .. }));
    assert!(matches!(card.rows[5], Row::AutoPreamp { label: "Auto Preamp", on: true, .. }));
    assert!(matches!(
        card.rows[6],
        Row::Switch { on: true, switch: Switch::Sound(SoundAction::AppMixer), .. }
    ));
    assert!(matches!(
        &card.rows[7],
        Row::Fader { name, gain: UNITY, tag } if name == "Client" && *tag == app_tag(0)
    ));

    // The manual preamp shows only without the automatic one.
    sound.set_auto_preamp(false);
    sound.set_preamp(-DECIBEL);
    let card = sound_card(&sound, &state);
    assert!(matches!(card.rows[6], Row::Preamp { shown, .. } if shown == -DECIBEL));
    sound.set_eq_enabled(false);
    assert_eq!(sound_card(&sound, &state).rows.len(), 6);
}

#[test]
fn a_missing_driver_is_explained() {
    let mut sound = sound(false);
    sound.toggle_sound_card();
    let mut state = ViewState::default();
    state.sound_expanded = true;
    state.sound_notice = Some("refused".to_string());
    let card = sound_card(&sound, &state);
    assert!(matches!(card.rows[2], Row::Switch { available: false, .. }));
    assert!(matches!(&card.rows[3], Row::Note { text } if text.starts_with("Driver not installed")));
    assert!(matches!(card.rows[4], Row::Switch { on: false, available: true, .. }));
    assert!(matches!(&card.rows[5], Row::Note { text } if text == "refused"));
}

#[test]
fn lists_mark_what_is_chosen() {
    let card = presets_card("jazz");
    assert_eq!(card.rows.len(), PRESET_COUNT + 1);
    let current: Vec<&str> = card
        .rows
        .iter()
        .filter_map(|row| match row {
            Row::PresetChoice { preset, current: true, .. } => Some(*preset),
            _ => None,
        })
        .collect();
    assert_eq!(current, vec!["Jazz"]);

    let sound = sound(true);
    let mut other = speakers();
    other.id = 12;
    let card = outputs_card(&[speakers(), other], &sound);
    assert!(matches!(card.rows[1], Row::Output { current: true, tag, .. } if tag == sound_tag(9)));
    assert!(matches!(card.rows[2], Row::Output { current: false, .. }));
    let card = outputs_card(&[], &sound);
    assert!(matches!(&card.rows[1], Row::Note { text } if text == "No hardware outputs are available"));
}

#[test]
fn the_panel_shows_what_its_route_says() {
    let protection = Protection::new();
    let context = context(&protection);
    let sound = sound(true);
    let displays = [display(1), display(2)];
    let facts = [facts(true, false), facts(false, false)];
    let scene = Scene {
        displays: &displays,
        facts: &facts,
        context: &context,
        sound: &sound,
        outputs: &[],
        login: LoginStatus::Disabled,
    };
    let mut state = ViewState::default();
    let pieces = root(&scene, &state);
    assert_eq!(pieces.len(), 4);
    assert!(matches!(pieces[3], Piece::Footer));
    let title = |state: &ViewState| {
        let pieces = root(&scene, state);
        assert_eq!(pieces.len(), 1);
        match &pieces[0] {
            Piece::Card { card } => match card.rows[0] {
                Row::Back { title } => title,
                _ => panic!("expected a way back"),
            },
            Piece::Footer => panic!("expected a card"),
        }
    };
    state.route = Route::Submenu { display: 1, submenu: Submenu::ColorMode };
    assert_eq!(title(&state), "Color Mode");
    state.route = Route::Presets;
    assert_eq!(title(&state), "Preset");
    state.route = Route::Outputs;
    assert_eq!(title(&state), "Output");
    state.route = Route::Settings;
    assert_eq!(title(&state), "Settings");
    state.route = Route::Submenu { display: 2, submenu: Submenu::ColorMode };
    assert!(root(&scene, &state).is_empty());
}

// --- controls ---------------------------------------------------------------

#[test]
fn a_click_on_the_icon_opens_hides_or_asks() {
    assert!(is_secondary_click(true, false, false));
    assert!(is_secondary_click(false, true, true));
    assert!(!is_secondary_click(false, true, false));
    assert!(!is_secondary_click(false, false, true));
    let mut state = ViewState::default();
    state.route = Route::Settings;
    state.notice = Some("old".to_string());
    assert_eq!(state.press(true, false), Press::Menu);
    assert_eq!(state.press(false, true), Press::Hide);
    assert_eq!(state.route, Route::Settings);
    assert_eq!(state.press(false, false), Press::Open);
    assert_eq!(state.route, Route::Root);
    assert!(state.notice.is_none());
}

#[test]
fn carets_share_an_action_and_not_a_card() {
    let mut state = ViewState::default();
    state.toggle_card(sound_tag(0));
    assert!(state.sound_expanded);
    state.toggle_card(tag(3, 0));
    assert!(state.is_expanded(3) && state.sound_expanded);
    state.display_card_toggled(3, true);
    assert!(state.is_expanded(3));
    state.display_card_toggled(3, false);
    assert!(!state.is_expanded(3));
    state.sound_card_toggled(true);
    assert!(state.sound_expanded);
    state.sound_card_toggled(false);
    assert!(!state.sound_expanded);
}

#[test]
fn navigation_goes_where_the_row_says() {
    let mut state = ViewState::default();
    assert!(state.open_submenu(tag(2, Submenu::MoveDisplay.index())));
    assert_eq!(
        state.route,
        Route::Submenu { display: 2, submenu: Submenu::MoveDisplay }
    );
    assert!(!state.open_submenu(tag(2, 5)));
    state.go_back();
    assert_eq!(state.route, Route::Root);
    state.settings_notice = Some("old".to_string());
    state.open_settings();
    assert_eq!(state.route, Route::Settings);
    assert!(state.settings_notice.is_none());
}

#[test]
fn outcomes_are_reported_where_the_user_is_looking() {
    let mut state = ViewState::default();
    state.toggle_expanded(1);
    assert!(!state.connection_switched(1, false, Err(PowerError::LastActiveDisplay)));
    assert_eq!(
        state.notice.as_deref(),
        Some("Cannot disconnect the only active display")
    );
    assert!(state.is_expanded(1));
    assert!(!state.connection_switched(1, true, Ok(())));
    assert!(state.notice.is_none());
    assert!(state.connection_switched(1, false, Ok(())));
    assert!(!state.is_expanded(1));

    for (count, text) in [
        (0, "No disconnected displays to bring back"),
        (1, "1 display reconnected"),
        (3, "3 displays reconnected"),
    ] {
        state.report_reconnected(count);
        assert_eq!(state.notice.as_deref(), Some(text));
    }
    state.report_driver("Audio driver installed".to_string());
    assert_eq!(state.sound_notice.as_deref(), Some("Audio driver installed"));
    state.open_settings();
    state.report_reconnected(1);
    assert_eq!(state.settings_notice.as_deref(), Some("1 display reconnected"));
    state.report_driver("Audio driver removed".to_string());
    assert_eq!(state.settings_notice.as_deref(), Some("Audio driver removed"));
    state.login_switched(Ok(LoginStatus::RequiresApproval));
    assert_eq!(
        state.settings_notice.as_deref(),
        Some("Approve DisEQ under Login Items in System Settings")
    );
    state.login_switched(Ok(LoginStatus::Enabled));
    assert!(state.settings_notice.is_none());
    state.login_switched(Err("denied".to_string()));
    assert_eq!(state.settings_notice.as_deref(), Some("denied"));
}

#[test]
fn a_hotplug_is_noticed_once() {
    let mut watch = Watch::new();
    assert!(!watch.look(Vec::new()));
    assert!(watch.look(vec![1, 2]));
    assert!(!watch.look(vec![1, 2]));
    assert!(watch.look(vec![2, 1]));
    assert!(watch.look(vec![2]));
}

#[test]
fn toggles_ask_for_the_other_way_round() {
    let main = display(1);
    assert_eq!(card_action(CardAction::HiDpi, &main, CARD), CardCommand::SetHiDpi(true));
    assert_eq!(card_action(CardAction::SetAsMain, &main, CARD), CardCommand::Nothing);
    assert_eq!(card_action(CardAction::SetAsMain, &display(2), CARD), CardCommand::SetMain);
    assert_eq!(
        card_action(CardAction::AutoBrightness, &main, CARD),
        CardCommand::SetAutoBrightness(false)
    );
    assert_eq!(
        card_action(CardAction::NightShift, &main, CARD),
        CardCommand::SetNightShift(true)
    );
    assert_eq!(card_action(CardAction::DisplayNotch, &main, CARD), CardCommand::Nothing);
}

#[test]
fn a_submenu_row_does_what_it_says() {
    let protection = Protection::new();
    let context = context(&protection);
    let displays = [display(1), display(2)];
    let route = Route::Submenu { display: 1, submenu: Submenu::DeviceControl };
    assert_eq!(
        submenu_row(route, tag(1, 3), &displays, &context),
        Some(SubmenuAction::SetInput(0x11))
    );
    assert_eq!(submenu_row(route, tag(1, 9), &displays, &context), None);
    assert_eq!(submenu_row(route, tag(2, 0), &displays, &context), None);
    assert_eq!(submenu_row(Route::Root, tag(1, 3), &displays, &context), None);
    assert_eq!(submenu_row(route, -1, &displays, &context), None);
}

#[test]
fn a_dragged_slider_describes_its_stop() {
    let displays = [display(1)];
    let preview = resolution_description(&displays, 0, 1).expect("a stop");
    assert_eq!(preview.caption, "Resolution");
    assert_eq!(preview.size, "2560x1440");
    assert_eq!(preview.scale, Some((2560, 2560)));
    assert!(resolution_description(&displays, 0, 2).is_none());
    assert!(resolution_description(&displays, 1, 0).is_none());
}

#[test]
fn sound_rows_name_what_they_control() {
    assert_eq!(switched_sound(sound_tag(3)), Some(SoundAction::AutoPreamp));
    assert_eq!(switched_sound(sound_tag(1)), None);
    assert_eq!(switched_sound(3), None);
    assert_eq!(chosen_output(sound_tag(77)), Some(77));
    assert_eq!(chosen_output(77), None);
    assert_eq!(chosen_preset(sound_tag(0)).map(|preset| preset.id), Some("flat"));
    assert!(chosen_preset(sound_tag(PRESET_COUNT as isize)).is_none());
    assert!(chosen_preset(0).is_none());
}

#[test]
fn switches_flip_what_they_stand_for() {
    let mut sound = sound(true);
    assert!(matches!(
        sound.switch(SoundAction::Equaliser, Vec::new()),
        MixAsk::Nothing
    ));
    assert!(!sound.settings().enabled);
    sound.switch(SoundAction::AutoPreamp, Vec::new());
    assert!(!sound.settings().auto_preamp);
    assert!(matches!(
        sound.switch(SoundAction::AppMixer, Vec::new()),
        MixAsk::Refuse { .. }
    ));
    mixing(&mut sound);
    assert!(sound.move_fader(app_tag(0), 250_000));
    assert_eq!(sound.app_faders()[0].gain, 250_000);
    assert_eq!(sound.config.app_gains.get("com.spotify.client"), Some(250_000));
    assert!(!sound.move_fader(app_tag(1), 1));
    assert!(!sound.move_fader(band_tag(0), 1));
    assert!(matches!(
        sound.switch(SoundAction::AppMixer, Vec::new()),
        MixAsk::Stop { .. }
    ));
    assert!(!sound.move_fader(app_tag(0), 1));
}

#[test]
fn the_driver_is_offered_unless_that_was_declined() {
    assert_eq!(offer_driver_install(DriverState::Current, false), None);
    assert_eq!(
        offer_driver_install(DriverState::NotInstalled, false),
        Some(Offer::Install)
    );
    assert_eq!(offer_driver_install(DriverState::NotInstalled, true), None);
    assert_eq!(
        offer_driver_install(DriverState::Outdated, true),
        Some(Offer::Update)
    );
}

#[test]
fn a_colour_ticks_the_row_that_sets_it() {
    let protection = Protection::new();
    for row in 0..4 {
        let mut now = context(&protection);
        let rows = Submenu::ColorMode.rows(&display(1), &[], &now);
        let Some(SubmenuAction::SetColour { red, green, blue }) = rows[row].action else {
            panic!("expected a colour");
        };
        now.colour = Colour { red, green, blue };
        let ticked: Vec<usize> = Submenu::ColorMode
            .rows(&display(1), &[], &now)
            .iter()
            .enumerate()
            .filter(|(_, shown)| shown.selected)
            .map(|(index, _)| index)
            .collect();
        assert_eq!(ticked, vec![row]);
    }
}
