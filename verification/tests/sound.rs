use diseq::bridge::Bridge;
use diseq::devices::{Device, Listed, TRANSPORT_USB, TRANSPORT_VIRTUAL, UNITY};
use diseq::display::{Display, DisplayId, DisplaySnapshot};
use diseq::eq::{DECIBEL, MANUAL, RAMP_FRAMES};
use diseq::mixer::{Mixer, MixerError};
use diseq::names::AppFader;
use diseq::prefs::Config;
use diseq::processes::Process;
use diseq::router::{Action, PreviousDefaults, Readings, Route, RouteError};
use diseq::sound::{
    after_output_moved, output_outcome, remembered_target, Aftermath, Ask, Availability, LaunchStep,
    Look, MixAsk, Poll, SelectAsk, SoundService, Ticked, POLL_TICKS, SAVE_TICKS, SETTLE_TICKS,
    TICK_MS,
};
use diseq::tap::Tap;

fn process(id: u32, pid: i32, bundle: Option<&str>) -> Process {
    Process {
        id,
        pid,
        bundle_id: bundle.map(str::to_string),
        is_playing: true,
    }
}

fn fader(bundle: Option<&str>) -> AppFader {
    AppFader {
        process: process(1, 42, bundle),
        gain: UNITY,
    }
}

fn device(id: u32, name: &str) -> Device {
    Device {
        id,
        name: name.to_string(),
        uid: Some(format!("uid-{id}")),
        has_output: true,
        has_input: false,
        volume_is_settable: true,
        volume: Some(400_000),
        muted: None,
        sample_rate: Some(48_000_000),
        transport_type: Some(TRANSPORT_USB),
    }
}

fn driver() -> Device {
    Device {
        uid: Some("DisEQDevice".to_string()),
        transport_type: Some(TRANSPORT_VIRTUAL),
        ..device(99, "DisEQ")
    }
}

fn route(target: &Device, settings: diseq::eq::Settings) -> Route {
    Route {
        target: target.clone(),
        driver: Some(driver()),
        claim_status: 0,
        claimed: true,
        previous: PreviousDefaults {
            output: Some(7),
            system: Some(8),
        },
        device_volume: 250_000,
        volume_changed: None,
        rate: 48_000_000,
        settings,
        level: 0,
    }
}

fn mixer(processes: &[Process], destination: &Device) -> Mixer {
    let taps: Vec<Tap> = processes
        .iter()
        .map(|process| {
            Tap::muting(process, 1_000 + process.id, Some(format!("tap-{}", process.id)), Some(2))
                .expect("a tap")
        })
        .collect();
    Mixer::start(taps, destination, 0, 5)
}

fn service() -> SoundService {
    SoundService::new(
        Availability { driver: true },
        Config::default(),
        Some(device(1, "Speakers")),
    )
}

/// A service with a route to its target running.
fn routing() -> SoundService {
    let mut service = service();
    let Ask::Start {
        target, settings, ..
    } = service.set_routing(true)
    else {
        panic!("expected a start");
    };
    service
        .route_started(&target, Ok(route(&target, settings)))
        .expect("started");
    service.settle = 0;
    service.dirty = false;
    service
}

fn display(id: u32, serial: u32) -> Display {
    Display {
        snapshot: DisplaySnapshot {
            id: DisplayId(id),
            name: "Panel".to_string(),
            is_builtin: false,
            is_main: false,
            is_active: true,
            is_online: true,
            vendor: 0x10ac,
            model: 0x41b5,
            serial,
            unit: 2,
            origin: (0, 0),
            size: (100, 100),
            mirrors: None,
            current_mode: None,
        },
        modes: Vec::new(),
        native: None,
    }
}

#[test]
fn a_helper_process_is_named_after_the_application_it_belongs_to() {
    assert_eq!(fader(Some("com.brave.Browser.helper")).name(), "Browser");
    assert_eq!(fader(Some("com.spotify.client")).name(), "Client");
    assert_eq!(
        fader(Some("com.tinyspeck.slackmacgap")).name(),
        "Slackmacgap"
    );
}

#[test]
fn a_process_with_no_bundle_is_named_by_its_pid() {
    assert_eq!(fader(None).name(), "pid 42");
}

#[test]
fn the_equaliser_is_blocked_without_the_driver() {
    let availability = Availability { driver: false };
    assert!(availability.eq_blocked().is_some());
    // The mixer never answers in advance: finding out costs a tap, and the tap
    // is the thing that prompts.
    assert!(availability.mixer_blocked().is_none());
    assert_eq!(
        availability.eq_blocked().unwrap(),
        "Driver not installed — run 'make driver-install'"
    );
}

#[test]
fn nothing_is_blocked_once_the_driver_is_there() {
    let availability = Availability { driver: true };
    assert!(availability.eq_blocked().is_none());
    assert!(availability.mixer_blocked().is_none());
}

fn poll(routing: bool, output: &str) -> Poll {
    Poll {
        routing,
        output: output.to_string(),
    }
}

#[test]
fn a_steady_route_does_not_ask_for_a_redraw() {
    // The regression that made the panel flicker and swallow clicks: a route
    // that is simply still running is not news, however long it runs.
    let before = poll(true, "Scarlett 2i2 USB");
    assert!(!before.changed(&poll(true, "Scarlett 2i2 USB")));
}

#[test]
fn a_steady_silence_does_not_ask_for_a_redraw() {
    let before = poll(false, "MacBook Pro Speakers");
    assert!(!before.changed(&poll(false, "MacBook Pro Speakers")));
}

#[test]
fn starting_and_stopping_a_route_asks_for_a_redraw() {
    let idle = poll(false, "MacBook Pro Speakers");
    let routing = poll(true, "MacBook Pro Speakers");
    assert!(idle.changed(&routing));
    assert!(routing.changed(&idle));
}

#[test]
fn changing_the_output_asks_for_a_redraw() {
    let before = poll(true, "MacBook Pro Speakers");
    assert!(before.changed(&poll(true, "Scarlett 2i2 USB")));
}

// --- launch -----------------------------------------------------------------

#[test]
fn a_launch_comes_up_at_the_saved_volume_and_equaliser() {
    let mut config = Config::default();
    config.volume = 420_000;
    config.eq.gains[3] = 7 * DECIBEL;
    config.eq.preset = "rock".to_string();
    let service = SoundService::new(Availability { driver: true }, config, None);
    assert_eq!(service.volume(), 420_000);
    // The gains are the record, not the preset's name.
    assert_eq!(service.settings().gains[3], 7 * DECIBEL);
    assert_eq!(service.selected_preset(), MANUAL);
    assert!(!service.is_ramping());
    assert_eq!(service.output_name(), "No output");
    assert_eq!(TICK_MS, 33);
}

#[test]
fn a_volume_saved_too_loud_is_brought_back() {
    let mut config = Config::default();
    config.volume = 3 * UNITY;
    assert_eq!(
        SoundService::new(Availability { driver: true }, config, None).volume(),
        UNITY
    );
}

#[test]
fn a_launch_plays_to_the_system_s_output_unless_that_is_our_own() {
    let speakers = device(1, "Speakers");
    let remembered = device(2, "Scarlett");
    let fallback = device(3, "Monitor");
    let listed = [
        Listed { device: speakers.clone(), alive: true },
        Listed { device: remembered.clone(), alive: true },
    ];
    let id = |target: Option<Device>| target.map(|device| device.id);
    assert_eq!(
        id(remembered_target(
            Some(speakers.clone()),
            Some("uid-2"),
            &listed,
            Some(fallback.clone())
        )),
        Some(1)
    );
    assert_eq!(
        id(remembered_target(
            Some(driver()),
            Some("uid-2"),
            &listed,
            Some(fallback.clone())
        )),
        Some(2)
    );
    assert_eq!(
        id(remembered_target(None, Some("uid-9"), &listed, Some(fallback.clone()))),
        Some(3)
    );
    assert_eq!(
        id(remembered_target(None, None, &listed, Some(fallback.clone()))),
        Some(3)
    );
    // Routing to a device that has been unplugged since is silence.
    let unplugged = [Listed { device: remembered, alive: false }];
    assert_eq!(
        id(remembered_target(None, Some("uid-2"), &unplugged, Some(fallback))),
        Some(3)
    );
    assert_eq!(id(remembered_target(None, Some("uid-2"), &unplugged, None)), None);
}

// --- routing ----------------------------------------------------------------

#[test]
fn a_route_that_starts_is_followed_and_remembered() {
    let mut service = service();
    let Ask::Start {
        ended,
        target,
        settings,
        volume,
    } = service.set_routing(true)
    else {
        panic!("expected a start");
    };
    assert!(ended.is_none());
    assert_eq!(target.id, 1);
    assert_eq!(volume, UNITY);
    assert!(service
        .route_started(&target, Ok(route(&target, settings)))
        .is_ok());
    assert!(service.is_routing());
    assert_eq!(service.volume(), 250_000);
    assert_eq!(service.settle, SETTLE_TICKS);
    assert_eq!(service.generation, 1);
    assert_eq!(service.config.target_uid.as_deref(), Some("uid-1"));
    assert!(service.dirty);
    assert!(matches!(service.set_routing(true), Ask::Nothing));
}

#[test]
fn a_route_that_does_not_start_says_why() {
    let mut service = service();
    let Ask::Start { target, .. } = service.set_routing(true) else {
        panic!("expected a start");
    };
    assert_eq!(
        service.route_started(&target, Err(RouteError::WouldLoop)),
        Err(RouteError::WouldLoop.message())
    );
    assert!(!service.is_routing());
    assert_eq!(service.generation, 0);
}

#[test]
fn without_an_output_there_is_nothing_to_route_to() {
    let mut service = SoundService::new(Availability { driver: true }, Config::default(), None);
    assert!(matches!(
        service.set_routing(true),
        Ask::Refuse { reason: "No output device to play to" }
    ));
}

#[test]
fn switching_off_leaves_the_system_on_the_hardware() {
    let mut service = routing();
    let Ask::Stop { route } = service.set_routing(false) else {
        panic!("expected a stop");
    };
    assert_eq!(
        route.teardown()[..2],
        [
            Action::SetDefaultOutput { id: 1 },
            Action::SetDefaultSystemOutput { id: 1 }
        ]
    );
    assert!(!service.is_routing());
    assert!(!service.config.routing);
    assert_eq!(service.target.as_ref().map(|target| target.id), Some(1));
    assert!(matches!(service.set_routing(false), Ask::Nothing));
}

fn look(target: &Device) -> Look {
    Look {
        target_alive: true,
        driver: Some(99),
        rate: Some(48_000_000),
        target: target.clone(),
    }
}

#[test]
fn nothing_is_believed_while_the_output_settles() {
    let mut service = routing();
    service.settle = 12;
    let mut gone = look(&device(1, "Speakers"));
    gone.target_alive = false;
    let followed = service.follow_system_output(&gone);
    assert!(matches!(followed.ask, Ask::Nothing));
    assert!(!followed.look_on);
    assert_eq!(service.settle, 12 - POLL_TICKS);
    service.follow_system_output(&gone);
    assert_eq!(service.settle, 0);
    assert!(service.is_routing());
}

#[test]
fn a_route_whose_hardware_goes_away_starts_over_on_what_is_left() {
    let mut service = routing();
    let mut gone = look(&device(1, "Speakers"));
    gone.target_alive = false;
    let followed = service.follow_system_output(&gone);
    assert!(matches!(followed.ask, Ask::Replace { .. }));
    assert!(!service.is_routing());
    let Ask::Start { target, .. } = service.fall_back(Some(device(2, "Scarlett"))) else {
        panic!("expected a start");
    };
    assert_eq!(target.id, 2);
    assert_eq!(service.output_name(), "Scarlett");
    assert!(service.config.routing);
}

#[test]
fn a_route_with_nothing_left_to_play_to_says_so() {
    let mut service = routing();
    let mut gone = look(&device(1, "Speakers"));
    gone.target_alive = false;
    service.follow_system_output(&gone);
    assert!(matches!(service.fall_back(None), Ask::Refuse { .. }));
    assert_eq!(service.output_name(), "No output");
}

#[test]
fn a_replaced_virtual_device_rebuilds_the_route() {
    let mut service = routing();
    let mut replaced = look(&device(1, "Speakers"));
    replaced.driver = Some(100);
    let followed = service.follow_system_output(&replaced);
    let Ask::Start { ended, target, .. } = followed.ask else {
        panic!("expected a start");
    };
    assert!(ended.is_some());
    assert_eq!(target.id, 1);
    assert!(!followed.look_on);

    let mut service = routing();
    replaced.driver = None;
    assert!(matches!(
        service.follow_system_output(&replaced).ask,
        Ask::Start { .. }
    ));
}

#[test]
fn a_changed_rate_rebuilds_the_route_and_looks_on() {
    let mut service = routing();
    let mut retuned = look(&device(1, "Speakers"));
    retuned.rate = Some(44_100_000);
    retuned.target.sample_rate = Some(44_100_000);
    let followed = service.follow_system_output(&retuned);
    let Ask::Start { target, .. } = followed.ask else {
        panic!("expected a start");
    };
    assert_eq!(target.sample_rate, Some(44_100_000));
    assert!(followed.look_on);
}

#[test]
fn a_steady_route_only_looks_at_the_system_s_choice() {
    let mut service = routing();
    let followed = service.follow_system_output(&look(&device(1, "Speakers")));
    assert!(matches!(followed.ask, Ask::Nothing));
    assert!(followed.look_on);
    assert!(matches!(service.follow_default(None), Ask::Nothing));
    assert!(matches!(service.follow_default(Some(driver())), Ask::Nothing));
    assert!(matches!(
        service.follow_default(Some(device(1, "Speakers"))),
        Ask::Nothing
    ));
    assert!(service.is_routing());
}

#[test]
fn a_device_picked_in_sound_settings_is_followed() {
    let mut service = routing();
    let Ask::Start { target, ended, .. } = service.follow_default(Some(device(2, "Scarlett")))
    else {
        panic!("expected a start");
    };
    assert_eq!(target.id, 2);
    assert!(ended.is_some());
    assert_eq!(service.output_name(), "Scarlett");
}

#[test]
fn another_virtual_device_is_not_followed_but_our_own_double_is_left() {
    let mut service = routing();
    let mut virtual_device = device(5, "Loopback");
    virtual_device.transport_type = Some(TRANSPORT_VIRTUAL);
    assert!(matches!(
        service.follow_default(Some(virtual_device)),
        Ask::Nothing
    ));
    let mut input_only = device(6, "Microphone");
    input_only.has_output = false;
    assert!(matches!(service.follow_default(Some(input_only)), Ask::Nothing));
    let mut double = driver();
    double.id = 100;
    let Ask::Start { target, .. } = service.follow_default(Some(double)) else {
        panic!("expected a start");
    };
    assert_eq!(target.id, 1);
}

#[test]
fn a_refresh_shows_what_is_heard() {
    let mut service = routing();
    service.refresh(Availability { driver: false }, Some(device(2, "Scarlett")));
    assert_eq!(service.target.as_ref().map(|target| target.id), Some(1));
    assert!(!service.availability().driver);

    let mut idle = self::service();
    idle.settle = 3;
    idle.refresh(Availability { driver: true }, Some(device(2, "Scarlett")));
    assert_eq!(idle.output_name(), "Scarlett");
    assert_eq!(idle.volume(), 400_000);
    assert_eq!(idle.settle, 0);
    let mut mute = device(3, "Monitor");
    mute.volume = None;
    idle.refresh(Availability { driver: true }, Some(mute));
    assert_eq!(idle.volume(), 400_000);
}

// --- choosing an output -----------------------------------------------------

#[test]
fn choosing_an_output_moves_the_route_and_takes_the_mixer_down() {
    let mut service = routing();
    let targets = [device(1, "Speakers"), device(2, "Scarlett")];
    service.mixer = Some(mixer(&[process(10, 1, None)], &driver()));
    let SelectAsk::Reroute { mixer, ask } = service.select_output(2, &targets) else {
        panic!("expected a reroute");
    };
    assert!(mixer.is_some());
    assert!(!service.is_mixing());
    assert!(matches!(ask, Ask::Start { .. }));
    assert!(service.output_is_selected(&targets[1]));
}

#[test]
fn choosing_an_output_without_a_route_moves_the_system() {
    let mut service = service();
    let targets = [device(1, "Speakers"), device(2, "Scarlett")];
    assert!(matches!(service.select_output(1, &targets), SelectAsk::Nothing));
    assert!(matches!(
        service.select_output(3, &targets),
        SelectAsk::Refuse { reason: "That output is no longer available" }
    ));
    let SelectAsk::Move { target } = service.select_output(2, &targets) else {
        panic!("expected a move");
    };
    assert_eq!(
        service.output_moved(target.clone(), false).err(),
        Some("The system refused the output change")
    );
    assert_eq!(service.output_name(), "Speakers");
    assert!(service.output_moved(target, true).unwrap().is_none());
    assert_eq!(service.output_name(), "Scarlett");
    assert_eq!(service.volume(), 400_000);
    assert_eq!(service.config.target_uid.as_deref(), Some("uid-2"));
}

// --- equaliser and volume ---------------------------------------------------

#[test]
fn the_equaliser_s_changes_reach_the_route_and_the_file() {
    let mut service = routing();
    service.set_band(0, 3 * DECIBEL);
    assert_eq!(service.route.as_ref().unwrap().settings().gains[0], 3 * DECIBEL);
    assert_eq!(service.config.eq.gains[0], 3 * DECIBEL);
    assert_eq!(service.config.eq.preset, MANUAL);
    assert!(service.dirty);
    service.set_preamp(-2 * DECIBEL);
    service.set_auto_preamp(false);
    service.set_eq_enabled(false);
    let settings = *service.route.as_ref().unwrap().settings();
    assert_eq!(settings.preamp, -2 * DECIBEL);
    assert!(!settings.auto_preamp);
    assert!(!settings.enabled);
    assert_eq!(service.config.eq.preamp, -2 * DECIBEL);
    assert!(!service.config.eq.enabled);
}

#[test]
fn the_file_holds_where_a_ramp_is_headed() {
    let mut service = routing();
    assert!(service.set_preset("rock"));
    assert!(service.is_ramping());
    let rock = diseq::eq::preset("rock").unwrap().gains;
    assert_eq!(service.config.eq.gains, rock.to_vec());
    assert_eq!(service.config.eq.preset, "rock");
    assert_ne!(service.settings().gains, rock);
    assert!(!service.set_preset("nope"));
}

#[test]
fn the_volume_lands_where_the_route_puts_it() {
    let mut service = routing();
    let actions = service.set_volume(300_000);
    assert_eq!(
        actions,
        vec![
            Action::SetVolume { id: 1, volume: 300_000 },
            Action::SetMixerGain { gain: UNITY },
            Action::SetVolume { id: 99, volume: 300_000 },
        ]
    );
    assert_eq!(service.config.volume, 300_000);
    assert!(service.dirty);

    let mut idle = self::service();
    assert_eq!(
        idle.set_volume(2 * UNITY),
        vec![Action::SetVolume { id: 1, volume: UNITY }]
    );
    assert!(!idle.dirty);
    idle.target = None;
    assert!(idle.set_volume(0).is_empty());
}

#[test]
fn the_slider_works_with_a_route_or_a_volume_control() {
    let mut service = routing();
    assert!(service.volume_is_settable());
    service.route = None;
    assert!(service.volume_is_settable());
    service.target.as_mut().unwrap().volume_is_settable = false;
    assert!(!service.volume_is_settable());
    service.target = None;
    assert!(!service.volume_is_settable());
}

// --- cards ------------------------------------------------------------------

#[test]
fn a_card_toggled_twice_is_as_it_was() {
    let mut service = service();
    let panel = display(1, 0x1234);
    assert!(!service.display_card_is_open(&panel));
    assert!(service.toggle_display_card(&panel));
    assert!(service.dirty);
    // The same hardware under another id.
    assert!(service.display_card_is_open(&display(7, 0x1234)));
    assert!(!service.display_card_is_open(&display(1, 0x1235)));
    assert!(!service.toggle_display_card(&display(7, 0x1234)));
    assert!(!service.display_card_is_open(&panel));
    assert!(!service.close_display_card(&panel));
    service.toggle_display_card(&panel);
    assert!(service.close_display_card(&panel));
    assert!(!service.display_card_is_open(&panel));
}

#[test]
fn the_sound_card_and_the_driver_s_offer_are_remembered() {
    let mut service = service();
    assert!(!service.sound_card_is_open());
    assert!(service.toggle_sound_card());
    assert!(service.sound_card_is_open());
    assert!(!service.toggle_sound_card());
    service.save();
    assert!(!service.driver_prompt_declined());
    service.set_driver_prompt_declined(false);
    assert!(!service.dirty);
    service.set_driver_prompt_declined(true);
    assert!(service.dirty);
    assert!(service.driver_prompt_declined());
}

// --- mixer ------------------------------------------------------------------

#[test]
fn the_mixer_covers_what_is_playing_but_not_ourselves() {
    let mut processes: Vec<Process> = (0..20).map(|id| process(id, id as i32, None)).collect();
    processes[3].is_playing = false;
    let playing = SoundService::playing(&processes, 5);
    assert_eq!(playing.len(), 16);
    assert!(playing.iter().all(|process| process.pid != 5 && process.pid != 3));
    assert_eq!(playing[15].pid, 17);
    assert!(SoundService::playing(&[], 5).is_empty());
}

#[test]
fn the_mixer_needs_something_playing_and_somewhere_to_play() {
    let mut service = service();
    assert!(matches!(
        service.set_mixing(true, Vec::new()),
        MixAsk::Refuse { reason: "Nothing is playing audio right now" }
    ));
    let playing = vec![process(10, 1, Some("com.spotify.client"))];
    let MixAsk::Start { destination, .. } = service.set_mixing(true, playing.clone()) else {
        panic!("expected a start");
    };
    assert_eq!(destination.id, 1);
    service.target = None;
    assert!(matches!(
        service.set_mixing(true, playing.clone()),
        MixAsk::Refuse { reason: "No output device to mix into" }
    ));
    // In front of the equaliser while there is one.
    let mut routed = routing();
    let MixAsk::Start { destination, playing: asked } = routed.set_mixing(true, playing) else {
        panic!("expected a start");
    };
    assert_eq!(destination.id, 99);
    assert_eq!(asked.len(), 1);
    assert!(routed.config.mixing);
}

#[test]
fn applications_come_back_at_the_level_they_were_left_at() {
    let mut service = service();
    let spotify = process(10, 1, Some("com.spotify.client"));
    let brave = process(11, 2, Some("com.brave.Browser"));
    let bare = process(12, 3, None);
    let all = [spotify.clone(), brave.clone(), bare.clone()];
    service.mixer_started(Ok(mixer(&all, &device(1, "Speakers")))).unwrap();
    service.set_app_gain(10, 300_000);
    service.set_app_gain(12, 200_000);
    service.set_app_gain(77, 100_000);
    assert_eq!(service.config.app_gains.get("com.spotify.client"), Some(300_000));
    assert_eq!(service.config.app_gains.get("com.brave.Browser"), None);

    // New processes, the same applications.
    let MixAsk::Stop { .. } = service.set_mixing(false, Vec::new()) else {
        panic!("expected a stop");
    };
    let later = [process(20, 9, Some("com.spotify.client")), process(21, 8, None)];
    service.mixer_started(Ok(mixer(&later, &device(1, "Speakers")))).unwrap();
    let faders = service.app_faders();
    assert_eq!(faders.len(), 2);
    assert_eq!(faders[0].gain, 300_000);
    assert_eq!(faders[1].gain, UNITY);
}

#[test]
fn a_mixer_that_does_not_start_says_why() {
    let mut service = service();
    assert_eq!(
        service.mixer_started(Err(MixerError::TooMany)),
        Err(MixerError::TooMany.message())
    );
    assert!(!service.is_mixing());
    assert!(service.app_faders().is_empty());
    service.set_app_gain(1, 0);
    assert!(!service.dirty);
}

#[test]
fn a_rebuilt_mixer_keeps_the_levels_it_had() {
    let mut service = service();
    let first = process(10, 1, Some("com.spotify.client"));
    let second = process(11, 2, None);
    assert!(!service.mixer_is_stale(&[first.clone()]));
    service
        .mixer_started(Ok(mixer(&[first.clone()], &device(1, "Speakers"))))
        .unwrap();
    service.set_app_gain(10, 250_000);
    assert!(!service.mixer_is_stale(&[first.clone()]));
    let now = vec![first.clone(), second.clone()];
    assert!(service.mixer_is_stale(&now));
    let rebuild = service.refresh_mixer(now.clone());
    assert!(rebuild.ended.is_some());
    assert_eq!(rebuild.previous, vec![(10, 250_000)]);
    assert!(matches!(rebuild.ask, MixAsk::Start { .. }));
    service.config.app_gains = diseq::prefs::AppGains::new();
    service
        .mixer_started(Ok(mixer(&now, &device(1, "Speakers"))))
        .unwrap();
    assert_eq!(service.app_faders()[0].gain, UNITY);
    service.restore_levels(&rebuild.previous);
    assert_eq!(service.app_faders()[0].gain, 250_000);
    assert_eq!(service.config.app_gains.get("com.spotify.client"), Some(250_000));

    let mut off = self::service();
    let nothing = off.refresh_mixer(now);
    assert!(nothing.ended.is_none());
    assert!(matches!(nothing.ask, MixAsk::Nothing));
    off.restore_levels(&[(10, 1)]);
    assert!(!off.dirty);
}

// --- upkeep -----------------------------------------------------------------

fn readings(volume: Option<u32>) -> Readings {
    Readings {
        ring_running: true,
        engine_running: true,
        rate: 0,
        nominal_rate: 0,
        muted: Some(false),
        volume,
    }
}

#[test]
fn a_ramp_is_pushed_at_the_route_frame_by_frame() {
    let mut service = routing();
    let mut bridge: Bridge<f32> = Bridge::new(2, 64, 0.0);
    service.set_preset("rock");
    for _ in 0..RAMP_FRAMES {
        let (ticked, _) = service.tick(&mut bridge, readings(None));
        assert!(ticked.redraw);
        assert_eq!(
            service.route.as_ref().unwrap().settings().gains,
            service.settings().gains
        );
    }
    assert_eq!(
        service.route.as_ref().unwrap().settings().gains,
        diseq::eq::preset("rock").unwrap().gains
    );
    let (ticked, _) = service.tick(&mut bridge, readings(None));
    assert!(!ticked.redraw);
}

#[test]
fn the_menu_bar_s_volume_is_followed_and_saved() {
    let mut service = routing();
    let mut bridge: Bridge<f32> = Bridge::new(2, 64, 0.0);
    let (ticked, actions) = service.tick(&mut bridge, readings(Some(700_000)));
    assert!(ticked.redraw);
    assert_eq!(service.volume(), 700_000);
    assert_eq!(service.config.volume, 700_000);
    assert!(service.dirty);
    assert_eq!(
        actions,
        vec![
            Action::SetVolume { id: 1, volume: 700_000 },
            Action::SetMixerGain { gain: UNITY },
        ]
    );
}

#[test]
fn polls_and_writes_come_at_their_own_rates() {
    let mut service = service();
    let mut bridge: Bridge<f32> = Bridge::new(2, 64, 0.0);
    service.dirty = true;
    let mut polls = 0;
    let mut writes = 0;
    for _ in 0..120 {
        let (ticked, _) = service.tick(&mut bridge, readings(None));
        polls += usize::from(ticked.poll);
        writes += usize::from(ticked.save);
        assert!(!ticked.redraw);
    }
    assert_eq!(polls, 120 / POLL_TICKS as usize);
    assert_eq!(writes, 1);
    assert_eq!(120 % SAVE_TICKS, 0);
    service.ticks = u32::MAX;
    service.tick(&mut bridge, readings(None));
    assert_eq!(service.ticks, 0);
}

#[test]
fn the_timer_runs_while_anything_needs_it() {
    let mut service = SoundService::new(Availability { driver: false }, Config::default(), None);
    assert!(!service.wants_ticks());
    service.set_preset("rock");
    assert!(service.wants_ticks());
    assert!(self::service().wants_ticks());
    let mut routed = routing();
    routed.availability = Availability { driver: false };
    assert!(routed.wants_ticks());
}

#[test]
fn a_shutdown_writes_first_and_leaves_nothing_running() {
    let mut service = routing();
    service.mixer = Some(mixer(&[process(10, 1, None)], &driver()));
    service.dirty = true;
    let remains = service.shutdown();
    assert!(remains.save);
    assert!(remains.mixer.is_some());
    assert!(remains.route.is_some());
    assert!(!service.is_routing());
    assert!(!service.is_mixing());
    let nothing = service.shutdown();
    assert!(!nothing.save);
    assert!(nothing.mixer.is_none() && nothing.route.is_none());
}

#[test]
fn a_poll_is_what_the_card_draws() {
    let service = routing();
    let poll = service.poll();
    assert!(poll.routing);
    assert_eq!(poll.output, "Speakers");
}

#[test]
fn a_launch_restores_the_route_the_volume_and_the_mixer_in_that_order() {
    let launch = |routing: bool, mixing: bool| {
        let mut config = Config::default();
        config.volume = 420_000;
        config.routing = routing;
        config.mixing = mixing;
        SoundService::new(Availability { driver: true }, config, None).launch()
    };
    assert_eq!(launch(false, false), vec![]);
    assert_eq!(
        launch(true, false),
        vec![LaunchStep::Route, LaunchStep::Volume { volume: 420_000 }]
    );
    assert_eq!(launch(false, true), vec![LaunchStep::Mix]);
    assert_eq!(
        launch(true, true),
        vec![LaunchStep::Route, LaunchStep::Volume { volume: 420_000 }, LaunchStep::Mix]
    );
}

#[test]
fn a_move_puts_the_mixer_back_and_saves_only_what_worked() {
    assert_eq!(after_output_moved(true, true), Aftermath { remix: true, save: true });
    assert_eq!(after_output_moved(true, false), Aftermath { remix: true, save: false });
    assert_eq!(after_output_moved(false, true), Aftermath { remix: false, save: true });
    let failure = |text: &str| -> Result<(), String> { Err(text.to_string()) };
    assert_eq!(output_outcome(Ok(()), Ok(())), Ok(()));
    assert_eq!(output_outcome(failure("gone"), Ok(())), failure("gone"));
    assert_eq!(output_outcome(failure("gone"), failure("refused")), failure("gone"));
    assert_eq!(output_outcome(Ok(()), failure("refused")), failure("refused"));
}

#[test]
fn a_tick_redraws_for_itself_or_for_what_its_look_found() {
    let quiet = Ticked { redraw: false, save: false, poll: false };
    let looked = Ticked { poll: true, ..quiet };
    let moved = Ticked { redraw: true, ..quiet };
    let (off, on) = (poll(false, "Speakers"), poll(true, "Speakers"));
    assert!(!quiet.redraws(&off, &on));
    assert!(looked.redraws(&off, &on));
    assert!(looked.redraws(&on, &poll(true, "Headphones")));
    assert!(!looked.redraws(&on, &poll(true, "Speakers")));
    assert!(moved.redraws(&on, &poll(true, "Speakers")));
}
