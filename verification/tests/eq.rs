use diseq::eq::{
    matching_preset, preset, preset_at, preset_index, presets, Equalizer, Settings, BAND_COUNT,
    DECIBEL, FLAT, FREQUENCIES, GAIN_HIGHEST, GAIN_LOWEST, MANUAL, MANUAL_INDEX, PREAMP_HIGHEST,
    PREAMP_LOWEST, PRESET_COUNT, RAMP_FRAMES,
};
use diseq::render::Parameters;

#[test]
fn presets_have_unique_ids() {
    let table = presets();
    for (index, preset) in table.iter().enumerate() {
        assert!(
            table[..index].iter().all(|other| other.id != preset.id),
            "duplicate preset id {}",
            preset.id
        );
    }
}

#[test]
fn preset_gains_are_within_range() {
    for preset in presets() {
        for gain in preset.gains {
            assert!(
                GAIN_LOWEST <= gain && gain <= GAIN_HIGHEST,
                "{} has out-of-range gain {gain}",
                preset.id
            );
        }
    }
}

#[test]
fn auto_preamp_cancels_the_loudest_boost() {
    let mut settings = Settings::default();
    settings.gains[0] = 11 * DECIBEL;
    settings.gains[1] = 8 * DECIBEL + DECIBEL / 2;
    assert_eq!(settings.global_gain(), -11 * DECIBEL);

    settings.auto_preamp = false;
    assert_eq!(settings.global_gain(), 0);
}

#[test]
fn auto_preamp_leaves_cuts_alone() {
    let settings = Settings {
        gains: preset("bass-reducer").unwrap().gains,
        ..Settings::default()
    };
    assert_eq!(settings.global_gain(), 0);
}

#[test]
fn ramp_lands_exactly_on_target() {
    let mut eq = Equalizer::default();
    assert!(eq.set_preset("bass-booster", true));
    assert!(eq.is_ramping());
    assert_ne!(eq.settings().gains, preset("bass-booster").unwrap().gains);

    for _ in 0..RAMP_FRAMES {
        assert!(eq.tick());
    }
    assert!(!eq.is_ramping());
    assert_eq!(eq.settings().gains, preset("bass-booster").unwrap().gains);
    assert!(!eq.tick());
}

#[test]
fn ramp_is_monotonic_towards_the_target() {
    let mut eq = Equalizer::default();
    eq.set_preset("bass-booster", true);
    let mut previous = eq.settings().gains[0];
    while eq.tick() {
        let current = eq.settings().gains[0];
        assert!(current >= previous, "{current} went below {previous}");
        previous = current;
    }
}

#[test]
fn unramped_preset_applies_at_once() {
    let mut eq = Equalizer::default();
    eq.set_preset("rock", false);
    assert!(!eq.is_ramping());
    assert_eq!(eq.settings().gains, preset("rock").unwrap().gains);
}

#[test]
fn dragging_a_fader_selects_manual_and_stops_the_ramp() {
    let mut eq = Equalizer::default();
    eq.set_preset("rock", true);
    eq.tick();
    eq.set_gain(0, 3 * DECIBEL);
    assert!(!eq.is_ramping());
    assert_eq!(eq.selected_preset(), MANUAL);
    assert_eq!(eq.settings().gains[0], 3 * DECIBEL);
}

#[test]
fn a_fader_landing_on_a_preset_reselects_it() {
    let mut eq = Equalizer::default();
    eq.set_preset("treble-booster", false);
    eq.set_gain(0, 5 * DECIBEL);
    assert_eq!(eq.selected_preset(), MANUAL);
    eq.set_gain(0, 0);
    assert_eq!(eq.selected_preset(), "treble-booster");
}

#[test]
fn the_preamp_cannot_boost_past_its_ceiling() {
    // The preamp lifts every band at once, so its ceiling is far lower than a
    // band's. Asking for more is clamped rather than refused, including from a
    // settings file written by hand.
    let mut eq = Equalizer::default();
    eq.set_preamp(24 * DECIBEL);
    assert_eq!(eq.settings().preamp, PREAMP_HIGHEST);
    assert_eq!(PREAMP_HIGHEST, 5 * DECIBEL);

    let restored = Settings {
        preamp: 18 * DECIBEL,
        auto_preamp: false,
        ..Settings::default()
    };
    assert_eq!(Equalizer::new(restored).settings().preamp, 5 * DECIBEL);
    assert_eq!(restored.clamped().global_gain(), 5 * DECIBEL);
}

#[test]
fn gains_clamp_to_range() {
    let mut eq = Equalizer::default();
    eq.set_gain(0, 500 * DECIBEL);
    assert_eq!(eq.settings().gains[0], GAIN_HIGHEST);
    eq.set_gain(0, -500 * DECIBEL);
    assert_eq!(eq.settings().gains[0], GAIN_LOWEST);
}

#[test]
fn target_leads_settings_while_ramping() {
    let mut eq = Equalizer::default();
    eq.set_preset("rock", true);
    eq.tick();
    assert_eq!(eq.target().gains, preset("rock").unwrap().gains);
    assert_ne!(eq.settings().gains, eq.target().gains);
    eq.finish_ramp();
    assert_eq!(eq.settings().gains, eq.target().gains);
}

#[test]
fn manual_keeps_the_current_gains() {
    let mut eq = Equalizer::default();
    eq.set_preset("rock", false);
    eq.set_preset(MANUAL, false);
    assert_eq!(eq.settings().gains, preset("rock").unwrap().gains);
    assert_eq!(eq.selected_preset(), MANUAL);
}

#[test]
fn unknown_preset_is_rejected() {
    let mut eq = Equalizer::default();
    assert!(!eq.set_preset("nope", false));
    assert_eq!(eq.selected_preset(), "flat");
}

#[test]
fn a_band_that_is_not_there_changes_nothing() {
    let mut eq = Equalizer::default();
    eq.set_preset("rock", true);
    eq.set_gain(BAND_COUNT, 3 * DECIBEL);
    assert!(eq.is_ramping());
    assert_eq!(eq.selected_preset(), "rock");
}

#[test]
fn a_ramp_frame_covers_a_fifteenth_of_the_way() {
    let mut eq = Equalizer::default();
    let target = preset("rock").unwrap().gains;
    eq.set_preset("rock", true);
    eq.tick();
    for band in 0..BAND_COUNT {
        let exact = i64::from(target[band]) / i64::from(RAMP_FRAMES);
        let gain = i64::from(eq.settings().gains[band]);
        assert!((gain - exact).abs() <= 1, "band {band} moved to {gain}");
    }
}

#[test]
fn switching_the_equaliser_leaves_its_gains_alone() {
    let mut eq = Equalizer::default();
    eq.set_preset("rock", false);
    eq.set_enabled(false);
    assert!(!eq.settings().enabled);
    assert!(!eq.target().enabled);
    assert_eq!(eq.settings().gains, preset("rock").unwrap().gains);
    eq.set_auto_preamp(false);
    assert!(!eq.settings().auto_preamp);
    assert_eq!(eq.selected_preset(), "rock");
}

#[test]
fn a_reset_replaces_everything() {
    let mut eq = Equalizer::default();
    let rock = Settings {
        gains: preset("rock").unwrap().gains,
        preamp: -200 * DECIBEL,
        enabled: false,
        auto_preamp: false,
    };
    eq.reset(rock, false);
    assert_eq!(eq.selected_preset(), "rock");
    assert_eq!(eq.settings().preamp, PREAMP_LOWEST);
    assert!(!eq.settings().enabled);
    eq.reset(Settings::default(), true);
    assert!(eq.is_ramping());
    assert_eq!(eq.target().gains, FLAT);
    assert_eq!(eq.selected_preset(), "flat");
}

#[test]
fn presets_are_found_by_id_and_by_gains() {
    assert_eq!(presets().len(), PRESET_COUNT);
    assert_eq!(preset_index(MANUAL), Some(MANUAL_INDEX));
    assert_eq!(preset_index("nope"), None);
    assert_eq!(preset("jazz").unwrap().name, "Jazz");
    assert!(preset("nope").is_none());
    assert_eq!(matching_preset(&FLAT).unwrap().id, "flat");
    let mut odd = FLAT;
    odd[3] = 1;
    assert!(matching_preset(&odd).is_none());
    assert_eq!(preset_at(MANUAL_INDEX).name, "Manual");
    assert_eq!(FREQUENCIES.len(), BAND_COUNT);
}

#[test]
fn the_unit_is_told_what_the_settings_say() {
    let mut settings = Settings::default();
    settings.gains[0] = 6 * DECIBEL;
    settings.preamp = -DECIBEL;
    let parameters = Parameters::apply(&settings);
    assert_eq!(parameters.gains, settings.gains);
    assert_eq!(parameters.global_gain, -7 * DECIBEL);
    assert!(!parameters.bypass);
    settings.enabled = false;
    assert!(Parameters::apply(&settings).bypass);
}
