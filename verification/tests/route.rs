use diseq::bridge::Bridge;
use diseq::devices::{
    Device, DISEQ_UID, TRANSPORT_BUILT_IN, TRANSPORT_USB, TRANSPORT_VIRTUAL, UNITY,
};
use diseq::eq::{Settings, DECIBEL};
use diseq::playback::{
    plan, render, tick, EngineEvent, EngineStage, Lags, PlaybackError, Rendered, Tick, HISTORY,
};
use diseq::router::{
    claim_default, default_target, ring_frames, safety_offset, targets, Action, Claim, Health,
    PreviousDefaults, Readings, Route, RouteError, StartEvent, Starting, CLAIM_ATTEMPTS,
};
use diseq::shared::{
    Header, OpenEvent, OpenStage, Release, SharedError, SharedRing, HEADER_BYTES, MAGIC, VERSION,
};

fn device(id: u32) -> Device {
    Device {
        id,
        name: format!("Output {id}"),
        uid: Some(format!("uid-{id}")),
        has_output: true,
        has_input: false,
        volume_is_settable: true,
        volume: Some(400_000),
        muted: None,
        sample_rate: Some(48_000_000),
        transport_type: Some(TRANSPORT_USB),
    }
}

fn driver() -> Device {
    Device {
        uid: Some(DISEQ_UID.to_string()),
        transport_type: Some(TRANSPORT_VIRTUAL),
        sample_rate: Some(44_100_000),
        ..device(99)
    }
}

fn header() -> Header {
    Header {
        magic: MAGIC,
        version: VERSION,
        channels: 2,
        capacity_frames: 8,
        sample_rate_bits: 48_000.0f64.to_bits(),
        written: 0,
        running: 1,
        reserved: 0,
    }
}

/// A route that has come all the way up.
fn started(target: &Device) -> (Route, Vec<Action>) {
    let mut all = Vec::new();
    let mut starting = Starting::begin(target, Settings::default(), 900_000).expect("suitable");
    for event in [
        StartEvent::Published {
            driver: Some(driver()),
            previous: PreviousDefaults { output: Some(5), system: Some(6) },
            hardware_volume: Some(300_000),
        },
        StartEvent::Claimed { claimed: true, status: 0 },
        StartEvent::Mapped { rate: 44_100_000, opened_rate: 48_000_000 },
        StartEvent::Playing,
    ] {
        let (next, actions) = starting.step(event);
        all.extend(actions);
        starting = next;
    }
    let Starting::Started { route } = starting else {
        panic!("expected a route");
    };
    (route, all)
}

// --- starting ---------------------------------------------------------------

#[test]
fn a_route_comes_up_at_the_hardware_s_volume() {
    let (route, actions) = started(&device(1));
    assert_eq!(route.volume(), 300_000);
    assert_eq!(route.target().id, 1);
    assert_eq!(route.driver().map(|device| device.id), Some(99));
    assert!(route.claimed_default());
    assert_eq!(route.claim_status(), 0);
    assert_eq!(route.rate(), 48_000_000);
    assert_eq!(
        actions,
        vec![
            Action::Rename { id: 99 },
            Action::SetRate { id: 99, rate: 48_000_000 },
            Action::SetVolume { id: 99, volume: 300_000 },
            Action::SetMuted { id: 99, muted: false },
            Action::Claim { id: 99 },
            Action::MapRing,
            Action::Play { input_rate: 48_000_000, gain: UNITY },
            Action::SetVolume { id: 1, volume: 300_000 },
            Action::SetMixerGain { gain: UNITY },
            Action::SetVolume { id: 99, volume: 300_000 },
        ]
    );
}

#[test]
fn hardware_without_a_volume_takes_the_one_asked_for() {
    let mut target = device(1);
    target.volume_is_settable = false;
    let (mut route, _) = started(&target);
    assert_eq!(route.volume(), 900_000);
    assert_eq!(
        route.set_volume(2 * UNITY),
        vec![
            Action::SetMixerGain { gain: UNITY },
            Action::SetVolume { id: 99, volume: UNITY },
        ]
    );
    assert_eq!(route.gain_stages(UNITY, Some(1)), (UNITY, None));
}

#[test]
fn a_virtual_target_or_one_without_output_is_refused() {
    assert!(matches!(
        Starting::begin(&driver(), Settings::default(), UNITY),
        Err(RouteError::WouldLoop)
    ));
    let mut microphone = device(1);
    microphone.has_output = false;
    assert!(matches!(
        Starting::begin(&microphone, Settings::default(), UNITY),
        Err(RouteError::NoHardwareOutput)
    ));
}

#[test]
fn a_failed_start_gives_the_output_back() {
    let begin = || Starting::begin(&device(1), Settings::default(), UNITY).unwrap();
    let published = || StartEvent::Published {
        driver: None,
        previous: PreviousDefaults { output: Some(5), system: None },
        hardware_volume: None,
    };
    let (mapping, actions) = begin().step(published());
    assert_eq!(actions, vec![Action::MapRing]);
    let (failed, actions) = mapping.step(StartEvent::NotMapped { error: SharedError::Absent });
    assert!(matches!(
        failed,
        Starting::Failed { error: RouteError::Capture(SharedError::Absent) }
    ));
    assert_eq!(
        actions,
        vec![Action::SetDefaultOutput { id: 5 }, Action::Unpublish]
    );

    let (mapping, _) = begin().step(published());
    let (playing, _) = mapping.step(StartEvent::Mapped { rate: 0, opened_rate: 0 });
    let (failed, actions) = playing.step(StartEvent::NotPlaying {
        cause: PlaybackError::NoOutputUnit,
    });
    assert!(matches!(
        failed,
        Starting::Failed { error: RouteError::Playback(PlaybackError::NoOutputUnit) }
    ));
    assert_eq!(actions.last(), Some(&Action::Unpublish));
}

#[test]
fn the_default_is_claimed_patiently() {
    assert_eq!(claim_default(0, 0, true), Claim::Done { claimed: true, status: 0 });
    assert_eq!(claim_default(0, 0, false), Claim::Again { attempt: 1, pause: false });
    assert_eq!(claim_default(1, 0, false), Claim::Again { attempt: 2, pause: true });
    assert_eq!(
        claim_default(CLAIM_ATTEMPTS - 1, -50, false),
        Claim::Done { claimed: false, status: -50 }
    );
}

#[test]
fn the_ring_holds_two_seconds_and_the_reader_keeps_its_distance() {
    assert_eq!(ring_frames(48_000_000), 96_000);
    assert_eq!(safety_offset(Some(100), Some(256)), 356 * 2 + 512);
    assert_eq!(safety_offset(None, None), 512 * 2 + 512);
}

#[test]
fn errors_are_told_apart() {
    assert_eq!(
        RouteError::NoHardwareOutput.message(),
        "there is no hardware output device to play to"
    );
    assert_eq!(
        RouteError::WouldLoop.message(),
        "the target device is a virtual device"
    );
    assert_eq!(
        RouteError::from(SharedError::NotReady).message(),
        "the driver is still starting up"
    );
    assert_eq!(
        RouteError::from(PlaybackError::Format).message(),
        "the output device published an unusable format"
    );
    assert_eq!(
        PlaybackError::NoOutputUnit.message(),
        "the engine has no output audio unit"
    );
    assert_eq!(
        PlaybackError::DeviceRefused(-1).message(),
        "the output device was refused (status -1)"
    );
    assert_eq!(
        PlaybackError::Start("busy".to_string()).message(),
        "the output engine would not start: busy"
    );
    assert_eq!(
        SharedError::Absent.message(),
        "the DisEQ driver is not loaded — run 'make driver-install'"
    );
    assert_eq!(
        SharedError::Unmappable(13).message(),
        "the driver's audio buffer could not be mapped (13)"
    );
    assert_eq!(
        SharedError::Version { found: 2, wanted: 1 }.message(),
        "the installed driver speaks version 2, this app speaks 1 — run 'make driver-install'"
    );
}

// --- a running route --------------------------------------------------------

fn readings(muted: Option<bool>, volume: Option<u32>) -> Readings {
    Readings {
        ring_running: true,
        engine_running: false,
        rate: 1.0f32.to_bits(),
        nominal_rate: 1.0f32.to_bits(),
        muted,
        volume,
    }
}

#[test]
fn the_virtual_device_s_volume_is_followed() {
    let (mut route, _) = started(&device(1));
    // Less than a step is not a move.
    let (moved, actions) = route.follow_device_volume(None, Some(300_500));
    assert_eq!(moved, None);
    assert!(actions.is_empty());
    let (moved, actions) = route.follow_device_volume(Some(false), Some(600_000));
    assert_eq!(moved, Some(600_000));
    assert_eq!(
        actions,
        vec![
            Action::SetVolume { id: 1, volume: 600_000 },
            Action::SetMixerGain { gain: UNITY },
        ]
    );
    let (moved, _) = route.follow_device_volume(Some(true), Some(600_000));
    assert_eq!(moved, Some(0));
    route.driver = None;
    assert_eq!(route.follow_device_volume(Some(true), Some(600_000)).0, None);
}

#[test]
fn a_tick_reads_the_meter_and_reports() {
    let (mut route, _) = started(&device(1));
    let mut bridge: Bridge<f32> = Bridge::new(2, 64, 0.0);
    bridge.set_safety_offset(16);
    bridge.observe_peak(0.5f32.to_bits());
    let (health, actions) = route.tick(&mut bridge, readings(None, Some(500_000)));
    assert!(!health.running);
    assert_eq!(f32::from_bits(health.level), 0.5);
    assert_eq!(health.wanted_offset, 16);
    assert_eq!(health.observed_offset, None);
    assert_eq!(health.drift(), None);
    assert_eq!(route.volume_changed(), Some(500_000));
    assert_eq!(actions.len(), 2);
    let (health, _) = route.tick(&mut bridge, readings(None, Some(500_000)));
    assert_eq!(health.level, 0);
    assert_eq!(route.volume_changed(), None);
    let drifted = Health { observed_offset: Some(20), ..health };
    assert_eq!(drifted.drift(), Some(4));
}

#[test]
fn a_rate_that_moves_by_a_hertz_is_noticed() {
    let (route, _) = started(&device(1));
    assert!(!route.rate_changed(Some(48_000_999)));
    assert!(route.rate_changed(Some(44_100_000)));
    assert!(route.rate_changed(Some(48_001_000)));
    assert!(!route.rate_changed(Some(0)));
    assert!(!route.rate_changed(None));
}

#[test]
fn a_route_that_ends_puts_the_system_back_first() {
    let (mut route, _) = started(&device(1));
    let mut settings = Settings::default();
    settings.preamp = -DECIBEL;
    route.apply(settings);
    assert_eq!(route.settings().preamp, -DECIBEL);
    assert_eq!(
        route.teardown(),
        vec![
            Action::SetDefaultOutput { id: 5 },
            Action::SetDefaultSystemOutput { id: 6 },
            Action::Unpublish,
            Action::ResetBridge,
        ]
    );
    assert_eq!(
        route.stop_on_target().teardown()[0],
        Action::SetDefaultOutput { id: 1 }
    );
    assert!(PreviousDefaults::default().restore().is_empty());
}

#[test]
fn only_hardware_is_routed_to() {
    let mut loopback = device(2);
    loopback.transport_type = Some(TRANSPORT_VIRTUAL);
    let mut listed = [driver(), device(1), loopback, device(3)];
    let ids: Vec<u32> = targets(&listed).iter().map(|device| device.id).collect();
    assert_eq!(ids, vec![1, 3]);
    let id = |target: Option<Device>| target.map(|device| device.id);
    assert_eq!(id(default_target(Some(device(7)), &listed)), Some(7));
    assert_eq!(id(default_target(Some(driver()), &listed)), Some(1));
    // Built-in output is the one device that can be relied on to make a sound.
    listed[3].transport_type = Some(TRANSPORT_BUILT_IN);
    assert_eq!(id(default_target(None, &listed)), Some(3));
    assert!(default_target(None, &[]).is_none());
}

// --- the output engine ------------------------------------------------------

#[test]
fn the_engine_is_planned_from_what_the_device_publishes() {
    let good = plan(&device(1), 44_100_000, 2 * UNITY).unwrap();
    assert_eq!(good.sample_rate, 48_000_000);
    assert_eq!((good.rate_numerator, good.rate_denominator), (44_100_000, 48_000_000));
    assert_eq!(good.mixer_gain, UNITY);
    assert_eq!(plan(&device(1), 0, 0).unwrap().rate_numerator, 1);
    let mut silent = device(1);
    silent.sample_rate = Some(0);
    assert!(matches!(plan(&silent, 1, 1), Err(PlaybackError::Format)));
    silent.sample_rate = None;
    assert!(matches!(plan(&silent, 1, 1), Err(PlaybackError::Format)));
}

#[test]
fn the_engine_starts_step_by_step() {
    let mut stage = EngineStage::Unit;
    for event in [
        EngineEvent::Unit { found: true },
        EngineEvent::Pointed { status: 0 },
        EngineEvent::Formatted { made: true },
        EngineEvent::Started { failure: None },
    ] {
        stage = stage.step(event);
    }
    assert!(matches!(stage, EngineStage::Running));
    assert!(matches!(
        EngineStage::Unit.step(EngineEvent::Unit { found: false }),
        EngineStage::Failed { error: PlaybackError::NoOutputUnit }
    ));
    assert!(matches!(
        EngineStage::Pointing.step(EngineEvent::Pointed { status: -5 }),
        EngineStage::Failed { error: PlaybackError::DeviceRefused(-5) }
    ));
    assert!(matches!(
        EngineStage::Formatting.step(EngineEvent::Formatted { made: false }),
        EngineStage::Failed { error: PlaybackError::Format }
    ));
    assert!(matches!(
        EngineStage::Starting.step(EngineEvent::Started { failure: Some("no".into()) }),
        EngineStage::Failed { error: PlaybackError::Start(_) }
    ));
}

fn shared(written: i64, running: u32) -> SharedRing {
    let mut ring = SharedRing::open(header()).expect("a ring");
    ring.refresh(Header { written, running, ..header() });
    ring
}

#[test]
fn a_callback_is_silent_until_the_clocks_are_related() {
    let mut bridge: Bridge<u32> = Bridge::new(2, 8, 0);
    bridge.set_safety_offset(2);
    let samples: Vec<u32> = (0..16).map(|index| (index as f32 / 16.0).to_bits()).collect();
    let mut left = [7u32; 2];
    let mut right = [7u32; 2];
    {
        let mut planes: [&mut [u32]; 2] = [&mut left, &mut right];
        assert_eq!(
            render(&mut bridge, &shared(6, 0), &samples, &mut planes, 100, 2),
            Rendered::Silence
        );
    }
    assert_eq!((left, right), ([0, 0], [0, 0]));
    {
        let mut planes: [&mut [u32]; 2] = [&mut left, &mut right];
        assert_eq!(
            render(&mut bridge, &shared(6, 1), &samples, &mut planes, 100, 2),
            Rendered::Silence
        );
        assert_eq!(
            render(&mut bridge, &shared(6, 1), &samples, &mut planes, 100, 2),
            Rendered::Audio
        );
    }
    // Two frames behind the writer, de-interleaved.
    assert_eq!(left, [samples[8], samples[10]]);
    assert_eq!(right, [samples[9], samples[11]]);
    assert_eq!(bridge.take_peak(), samples[11]);
}

#[test]
fn a_callback_that_asks_for_what_is_gone_realigns() {
    let mut bridge: Bridge<u32> = Bridge::new(2, 8, 0);
    bridge.set_safety_offset(2);
    let samples = [1u32; 16];
    let mut left = [7u32; 4];
    let mut right = [7u32; 4];
    let mut planes: [&mut [u32]; 2] = [&mut left, &mut right];
    render(&mut bridge, &shared(6, 1), &samples, &mut planes, 100, 4);
    assert_eq!(
        render(&mut bridge, &shared(6, 1), &samples, &mut planes, 100, 4),
        Rendered::Silence
    );
    assert_eq!(bridge.realignments(), 1);
    let mut none: [&mut [u32]; 0] = [];
    render(&mut bridge, &shared(6, 1), &samples, &mut none, 100, 2);
    assert_eq!(
        render(&mut bridge, &shared(6, 1), &samples, &mut none, 100, 2),
        Rendered::Nothing
    );
}

#[test]
fn the_drift_controller_averages_the_last_second() {
    let mut bridge: Bridge<u32> = Bridge::new(2, 64, 0);
    let mut lags = Lags::new();
    assert_eq!(tick(&mut lags, &bridge), Tick::Nominal);
    bridge.set_safety_offset(16);
    bridge.set_capturing(true);
    bridge.wrote_through(1_000);
    bridge.position_for(100);
    bridge.position_for(100);
    for round in 1..=HISTORY + 3 {
        let count = round.min(HISTORY);
        assert_eq!(
            tick(&mut lags, &bridge),
            Tick::Correct { wanted: 16, sum: 16 * count as i128, count }
        );
    }
    lags.reset();
    lags.observe(5);
    bridge.set_safety_offset(0);
    assert_eq!(tick(&mut lags, &bridge), Tick::Hold);
}

// --- the driver's ring ------------------------------------------------------

#[test]
fn the_segment_is_opened_checked_and_let_go_of() {
    let nothing = Release { close: false, unmap: false };
    let (stage, release) = OpenStage::Finding.step(OpenEvent::Found);
    assert_eq!(release, nothing);
    let (stage, release) = stage.step(OpenEvent::Measured { bytes: HEADER_BYTES + 64 });
    assert_eq!(release, nothing);
    let (stage, release) = stage.step(OpenEvent::Mapped);
    assert_eq!(release, Release { close: true, unmap: false });
    let (open, release) = stage.step(OpenEvent::HeaderRead { header: header() });
    assert_eq!(release, nothing);
    assert!(matches!(open, OpenStage::Open { bytes, .. } if bytes == HEADER_BYTES + 64));
    let (failed, release) = stage.step(OpenEvent::HeaderRead {
        header: Header { magic: 0, ..header() },
    });
    assert_eq!(release, Release { close: false, unmap: true });
    assert!(matches!(failed, OpenStage::Failed { error: SharedError::NotReady }));
}

#[test]
fn a_segment_that_cannot_be_had_is_closed() {
    let (stage, _) = OpenStage::Finding.step(OpenEvent::NotFound);
    assert!(matches!(stage, OpenStage::Failed { error: SharedError::Absent }));
    let (stage, release) = OpenStage::Measuring.step(OpenEvent::NotMeasured { errno: 9 });
    assert!(matches!(stage, OpenStage::Failed { error: SharedError::Unmappable(9) }));
    assert!(release.close);
    let (stage, _) = OpenStage::Measuring.step(OpenEvent::Measured { bytes: HEADER_BYTES - 1 });
    assert!(matches!(stage, OpenStage::Failed { error: SharedError::NotReady }));
    let (stage, _) = OpenStage::Mapping { bytes: 64 }.step(OpenEvent::NotMapped { errno: 12 });
    assert!(matches!(stage, OpenStage::Failed { error: SharedError::Unmappable(12) }));
}

#[test]
fn a_header_of_another_version_is_refused() {
    assert_eq!(
        SharedRing::open(Header { version: 7, ..header() }).err(),
        Some(SharedError::Version { found: 7, wanted: VERSION })
    );
    assert_eq!(
        SharedRing::open(Header { channels: 0, ..header() }).err(),
        Some(SharedError::NotReady)
    );
    assert_eq!(
        SharedRing::open(Header { capacity_frames: 0, ..header() }).err(),
        Some(SharedError::NotReady)
    );
    let ring = shared(3, 1);
    assert_eq!((ring.channels(), ring.capacity()), (2, 8));
    assert_eq!(ring.written(), 3);
    assert!(ring.is_running());
    assert_eq!(f64::from_bits(ring.sample_rate()), 48_000.0);
    assert_eq!(f64::from_bits(ring.opened_sample_rate()), 48_000.0);
}

#[test]
fn a_reader_gets_the_frames_that_are_held_and_no_others() {
    // Eight frames of capacity, ten written: frames 2 to 9 are held, wrapped.
    let ring = shared(10, 1);
    let samples: Vec<u32> = (0..16).collect();
    let mut mono = [0u32; 4];
    let mut planes: [&mut [u32]; 1] = [&mut mono];
    assert!(ring.read(&samples, &mut planes, 6, 4));
    assert_eq!(mono, [12, 14, 0, 2]);
    let mut planes: [&mut [u32]; 1] = [&mut mono];
    assert!(!ring.read(&samples, &mut planes, 1, 4));
    assert!(!ring.read(&samples, &mut planes, 7, 4));
    // More channels than the ring has: the last one is repeated.
    let (mut a, mut b, mut c) = ([0u32; 1], [0u32; 1], [0u32; 1]);
    let mut planes: [&mut [u32]; 3] = [&mut a, &mut b, &mut c];
    assert!(ring.read(&samples, &mut planes, 3, 1));
    assert_eq!((a, b, c), ([6], [7], [7]));
}

#[test]
fn a_short_plane_does_not_cost_the_others_their_frames() {
    let ring = shared(10, 1);
    let samples: Vec<u32> = (0..16).collect();
    let mut left: [u32; 0] = [];
    let mut right = [7u32; 3];
    {
        let mut planes: [&mut [u32]; 2] = [&mut left, &mut right];
        assert!(ring.read(&samples, &mut planes, 3, 2));
    }
    assert_eq!(right, [7, 9, 7]);
    let (mut long, mut short) = ([0u32; 3], [0u32; 1]);
    {
        let mut planes: [&mut [u32]; 2] = [&mut short, &mut long];
        assert!(ring.read(&samples, &mut planes, 3, 3));
    }
    assert_eq!((short, long), ([6], [7, 9, 11]));
}

#[test]
fn the_virtual_device_is_named_after_the_hardware() {
    let mut hardware = device(1);
    hardware.name = "Scarlett 2i2 USB".to_string();
    let starting = Starting::begin(&hardware, Settings::default(), UNITY).expect("suitable");
    let (claiming, actions) = starting.step(StartEvent::Published {
        driver: Some(driver()),
        previous: PreviousDefaults::default(),
        hardware_volume: None,
    });
    assert_eq!(actions[0], Action::Rename { id: 99 });
    let Starting::Claiming { setup } = claiming else {
        panic!("expected the output to be claimed");
    };
    assert_eq!(setup.device_name(), "Scarlett 2i2 USB (DisEQ)");
}

#[test]
fn an_unset_safety_offset_produces_no_correction() {
    let mut bridge: Bridge<u32> = Bridge::new(2, 4_096, 0);
    bridge.set_capturing(true);
    bridge.wrote_through(1_000);
    bridge.position_for(100);
    bridge.wrote_through(1_512);
    bridge.position_for(100);
    assert_eq!(bridge.safety_offset(), 0);
    assert_eq!(bridge.observed_offset(), Some(512));
    assert_eq!(tick(&mut Lags::new(), &bridge), Tick::Hold);
}
