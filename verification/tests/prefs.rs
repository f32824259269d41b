use diseq::devices::UNITY;
use diseq::display::{Display, DisplayId, DisplaySnapshot};
use diseq::eq::{Settings, BAND_COUNT, DECIBEL, MANUAL};
use diseq::names::{bundle_stem, display_persistence_key, status_name, title, AppFader};
use diseq::prefs::{trim, AppGains, Config, EqConfig, Names, VERSION};
use diseq::processes::Process;
use diseq::render::{OfflineError, Rendering, RENDERED, RENDER_BLOCK};
use diseq::text::{decimal, decimal_signed, hexadecimal, parse_u32, rounded};

/// An empty object sets no field, so every field is the one a first launch has.
#[test]
fn an_empty_object_reads_as_the_defaults() {
    let config = Config::default();
    assert_eq!(config.volume, UNITY);
    assert!(config.routing);
    assert!(!config.mixing);
    assert!(config.open_displays.entries.is_empty());
    assert!(!config.sound_open);
    assert_eq!(config.eq.gains.len(), BAND_COUNT);
    assert_eq!(config.version, VERSION);
    assert!(config.target_uid.is_none());
    assert!(config.app_gains.entries.is_empty());
    assert!(!config.driver_prompt_declined);
    assert_eq!(config.eq.preset, MANUAL);
}

#[test]
fn a_file_with_fewer_bands_than_this_build_keeps_the_ones_it_has() {
    let config = EqConfig {
        gains: vec![6 * DECIBEL, -3 * DECIBEL],
        ..EqConfig::default()
    };
    let settings = config.settings();
    assert_eq!(settings.gains[0], 6 * DECIBEL);
    assert_eq!(settings.gains[1], -3 * DECIBEL);
    // The rest stay flat rather than becoming zero-length or garbage.
    assert_eq!(settings.gains[2], 0);
}

#[test]
fn settings_survive_being_recorded() {
    let mut settings = Settings::default();
    settings.preamp = -4 * DECIBEL - DECIBEL / 2;
    settings.gains[3] = 7 * DECIBEL;
    settings.auto_preamp = false;
    let config = EqConfig::from(&settings, "rock");
    assert_eq!(config.preset, "rock");
    let read = config.settings();
    assert_eq!(read.preamp, settings.preamp);
    assert_eq!(read.gains, settings.gains);
    assert_eq!(read.enabled, settings.enabled);
    assert_eq!(read.auto_preamp, settings.auto_preamp);
    let long = EqConfig { gains: vec![DECIBEL; 12], ..EqConfig::default() };
    assert_eq!(long.settings().gains, [DECIBEL; BAND_COUNT]);
}

#[test]
fn a_malformed_file_falls_back_to_what_an_older_build_left() {
    let config = Config::load(true, None, Some("  uid-7\n"));
    assert_eq!(config.target_uid.as_deref(), Some("uid-7"));
    assert!(config.routing);
    assert!(Config::load(true, None, Some(" \t\r\n")).target_uid.is_none());
    assert!(Config::load(true, None, None).target_uid.is_none());
    assert!(Config::load(false, None, Some("uid-7")).target_uid.is_none());
    let mut read = Config::default();
    read.volume = 420_000;
    assert_eq!(Config::load(true, Some(read), Some("uid-7")).volume, 420_000);
    assert_eq!(Config::migrated(Some("x")).target_uid.as_deref(), Some("x"));
}

#[test]
fn white_space_is_trimmed_from_both_ends() {
    for text in ["", "  ", "a", " a b ", "\u{2003}x\u{3000}", "\u{85}y\u{a0}", "\u{200b}z"] {
        let trimmed: String = trim(text).into_iter().collect();
        assert_eq!(trimmed, text.trim());
    }
}

#[test]
fn names_are_held_once() {
    let mut names = Names::new();
    assert!(names.insert("a".to_string()));
    assert!(names.insert("b".to_string()));
    assert!(!names.insert("a".to_string()));
    assert!(names.contains("a") && names.contains("b"));
    assert!(names.remove("a"));
    assert!(!names.remove("a"));
    assert!(!names.contains("a"));
    assert_eq!(names.entries, vec!["b"]);
}

#[test]
fn an_application_has_one_level() {
    let mut gains = AppGains::new();
    gains.insert("a".to_string(), 1);
    gains.insert("b".to_string(), 2);
    gains.insert("a".to_string(), 3);
    assert_eq!(gains.get("a"), Some(3));
    assert_eq!(gains.get("b"), Some(2));
    assert_eq!(gains.get("c"), None);
    assert_eq!(gains.entries.len(), 2);
}

// --- names ------------------------------------------------------------------

#[test]
fn the_stem_is_the_part_before_any_helper() {
    for (bundle, stem) in [
        ("com.brave.Browser.helper", "Browser"),
        ("com.google.Chrome.helper.renderer", "Chrome"),
        ("com.a.helper.b.helper", "b"),
        ("Finder", "Finder"),
        ("com.trailing.", ""),
        (".helper", ""),
        ("", ""),
    ] {
        assert_eq!(bundle_stem(bundle), stem, "stem of {bundle}");
    }
    assert_eq!(title("com.x.y", "y", "Y"), "Y");
    assert_eq!(title("com.x.strasse", "strasse", "S"), "Strasse");
    assert_eq!(title("com.trailing.", "", ""), "com.trailing.");
}

#[test]
fn a_capital_may_be_more_than_one_letter() {
    let fader = |bundle: &str| AppFader {
        process: Process {
            id: 1,
            pid: 2,
            bundle_id: Some(bundle.to_string()),
            is_playing: true,
        },
        gain: UNITY,
    };
    assert_eq!(fader("de.beispiel.ßtrasse").name(), "SStrasse");
    assert_eq!(fader("com.spotify.élan").name(), "Élan");
    assert_eq!(fader("com.trailing.").name(), "com.trailing.");
}

fn display(vendor: u32, name: &str) -> Display {
    Display {
        snapshot: DisplaySnapshot {
            id: DisplayId(1),
            name: name.to_string(),
            is_builtin: true,
            is_main: true,
            is_active: true,
            is_online: true,
            vendor,
            model: 0,
            serial: 0,
            unit: 3,
            origin: (0, 0),
            size: (0, 0),
            mirrors: None,
            current_mode: None,
        },
        modes: Vec::new(),
        native: None,
    }
}

#[test]
fn a_display_is_remembered_by_its_hardware() {
    assert_eq!(
        display_persistence_key(&display(0x10ac, "Dell")),
        "000010ac:00000000:00000000"
    );
    assert_eq!(
        display_persistence_key(&display(0, "Built-in")),
        "builtin:true:3:Built-in"
    );
}

#[test]
fn status_codes_are_shown_as_their_four_characters() {
    assert_eq!(status_name(0), "ok");
    assert_eq!(status_name(i32::from_be_bytes(*b"!dev")), "'!dev'");
    assert_eq!(status_name(-50), "-50");
    assert_eq!(status_name(i32::from_be_bytes(*b"a cd")), i32::from_be_bytes(*b"a cd").to_string());
    assert_eq!(status_name(i32::MIN), i32::MIN.to_string());
}

// --- text -------------------------------------------------------------------

#[test]
fn numbers_are_written_as_usual() {
    for value in [0u64, 7, 10, 99, 1_000_000, u64::MAX] {
        assert_eq!(decimal(value), value.to_string());
    }
    for value in [0i64, -1, 42, i64::MIN, i64::MAX] {
        assert_eq!(decimal_signed(value), value.to_string());
    }
    for value in [0u32, 0x41b5, u32::MAX] {
        assert_eq!(hexadecimal(value, 8, false), format!("{value:08x}"));
        assert_eq!(hexadecimal(value, 4, true), format!("{value:04X}"));
    }
    for text in ["0", "42", "+7", "4294967295", "4294967296", "", "-1", "1x", "+"] {
        let chars: Vec<char> = text.chars().collect();
        assert_eq!(parse_u32(&chars), text.parse::<u32>().ok(), "parsing {text}");
    }
}

#[test]
fn thousandths_round_to_the_even_neighbour() {
    for (value, whole) in [(59_940, 60), (60_000, 60), (500, 0), (1_500, 2), (2_500, 2), (2_501, 3)] {
        assert_eq!(rounded(value), whole);
    }
}

// --- offline rendering ------------------------------------------------------

#[test]
fn as_many_frames_come_out_as_went_in() {
    let mut rendering: Rendering<f32> = Rendering::begin(10_000);
    let mut calls = 0;
    while let Some(frames) = rendering.want() {
        assert!(frames <= RENDER_BLOCK);
        rendering.rendered(RENDERED, &vec![0.5; frames]).expect("rendered");
        calls += 1;
    }
    assert_eq!(calls, 3);
    assert_eq!(rendering.frames.len(), 10_000);
    assert!(Rendering::<f32>::begin(0).want().is_none());
}

#[test]
fn a_failed_render_says_why() {
    let mut rendering: Rendering<f32> = Rendering::begin(8);
    let error = rendering.rendered(-1, &[]).unwrap_err();
    assert_eq!(error.message(), "render returned status -1");
    assert!(rendering.frames.is_empty());
    assert_eq!(
        OfflineError::Format.message(),
        "could not build the render format"
    );
    assert_eq!(
        OfflineError::ManualRendering("no".into()).message(),
        "manual rendering refused: no"
    );
    assert_eq!(
        OfflineError::Start("no".into()).message(),
        "engine would not start: no"
    );
    assert_eq!(
        OfflineError::Buffer.message(),
        "could not allocate a PCM buffer"
    );
}
