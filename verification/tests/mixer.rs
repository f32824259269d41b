use diseq::devices::{Device, UNITY};
use diseq::mixer::{
    abandoned, create_aggregate, describe_aggregate, mix, Fader, Faders, Mixer, MixerError, Source,
    Undo, MAX_FADERS,
};
use diseq::processes::Process;
use diseq::tap::{are_permitted, created, tap_name, Tap, TapError};

fn destination() -> Device {
    Device {
        id: 7,
        name: "Speakers".into(),
        uid: Some("speakers".into()),
        has_output: true,
        has_input: false,
        volume_is_settable: true,
        volume: None,
        muted: None,
        sample_rate: Some(48_000_000),
        transport_type: None,
    }
}

fn process(id: u32) -> Process {
    Process {
        id,
        pid: id as i32,
        bundle_id: Some(format!("com.example.app{id}")),
        is_playing: true,
    }
}

fn tap(id: u32, channels: Option<u32>) -> Tap {
    Tap::muting(&process(id), 100 + id, Some(format!("tap-{id}")), channels).expect("a tap")
}

fn add(sum: f32, sample: f32, gain: u32) -> f32 {
    sum + sample * gain as f32 / UNITY as f32
}

#[test]
fn a_fader_clamps_to_the_range_a_slider_can_produce() {
    let mut fader = Fader::new();
    fader.set_gain(2 * UNITY as i64);
    assert_eq!(fader.gain(), UNITY);
    fader.set_gain(-(UNITY as i64));
    assert_eq!(fader.gain(), 0);
    fader.set_gain(250_000);
    assert_eq!(fader.gain(), 250_000);
}

#[test]
fn faders_start_at_unity_so_starting_the_mixer_is_inaudible() {
    let faders = Faders::new();
    assert!(faders.slots.iter().all(|slot| slot.gain() == UNITY));
}

#[test]
fn the_description_names_the_destination_and_every_tap() {
    let taps = [tap(1, None), tap(2, None)];
    let aggregate = describe_aggregate("speakers", &taps, 4321);
    assert_eq!(aggregate.uid, "com.koshka.DisEQ.mixer.4321");
    assert_eq!(aggregate.name, "DisEQ Mixer");
    assert_eq!(aggregate.is_private, 1);
    assert_eq!(aggregate.is_stacked, 0);
    assert_eq!(aggregate.main_sub_device, "speakers");
    assert_eq!(aggregate.sub_devices[0].uid, "speakers");
    assert_eq!(aggregate.sub_devices[0].drift_compensation, 0);
    assert_eq!(aggregate.taps[1].uid, "tap-2");
    assert_eq!(aggregate.taps[1].drift_compensation, 1);
    assert_eq!(aggregate.tap_auto_start, 1);
}

#[test]
fn every_tap_is_scaled_by_its_fader_and_summed() {
    let mut mixer = Mixer::start(vec![tap(1, Some(2)), tap(2, Some(1))], &destination(), 0, 5);
    assert!(mixer.set_gain(1, 500_000));
    let stereo = [1.0f32, 2.0, 3.0, 4.0];
    let mono = [10.0f32, 20.0];
    let inputs = [
        Some(Source { channels: 2, samples: &stereo[..] }),
        Some(Source { channels: 1, samples: &mono[..] }),
    ];
    let mut sink = [9.0f32; 4];
    let mut spare = [9.0f32; 4];
    {
        let mut others: [&mut [f32]; 1] = [&mut spare];
        mix(&mixer.faders, &inputs, &mut sink, 2, &mut others, 0.0, add);
    }
    // A mono source reaches both channels.
    assert_eq!(sink, [10.5, 11.0, 21.5, 22.0]);
    assert_eq!(spare, [0.0; 4]);
}

#[test]
fn a_muted_application_contributes_nothing() {
    let mut mixer = Mixer::start(vec![tap(1, Some(1))], &destination(), 0, 5);
    mixer.set_gain(1, 0);
    let samples = [1.0f32, 1.0];
    let inputs = [Some(Source { channels: 1, samples: &samples[..] })];
    let mut sink = [5.0f32; 2];
    let mut others: [&mut [f32]; 0] = [];
    mix(&mixer.faders, &inputs, &mut sink, 1, &mut others, 0.0, add);
    assert_eq!(sink, [0.0, 0.0]);
}

#[test]
fn the_destination_s_own_inputs_are_never_heard() {
    let mixer = Mixer::start(vec![tap(1, Some(1))], &destination(), 1, 5);
    let microphone = [7.0f32, 7.0];
    let tapped = [1.0f32, 2.0];
    let inputs = [
        Some(Source { channels: 1, samples: &microphone[..] }),
        Some(Source { channels: 1, samples: &tapped[..] }),
    ];
    let mut sink = [0.0f32; 2];
    let mut others: [&mut [f32]; 0] = [];
    mix(&mixer.faders, &inputs, &mut sink, 1, &mut others, 0.0, add);
    assert_eq!(sink, [1.0, 2.0]);
}

#[test]
fn a_short_or_missing_input_leaves_the_rest_silent() {
    let mixer = Mixer::start(vec![tap(1, Some(1)), tap(2, Some(1))], &destination(), 0, 5);
    let short = [1.0f32];
    let inputs = [Some(Source { channels: 1, samples: &short[..] }), None];
    let mut sink = [3.0f32; 3];
    let mut others: [&mut [f32]; 0] = [];
    mix(&mixer.faders, &inputs, &mut sink, 1, &mut others, 0.0, add);
    assert_eq!(sink, [1.0, 0.0, 0.0]);
}

#[test]
fn levels_are_set_and_read_by_process() {
    let mut mixer = Mixer::start(vec![tap(1, None), tap(2, None)], &destination(), 0, 5);
    assert!(mixer.set_gain(2, 400_000));
    assert!(!mixer.set_gain(3, 400_000));
    assert_eq!(mixer.gain(1), Some(UNITY));
    assert_eq!(mixer.gain(2), Some(400_000));
    assert_eq!(mixer.gain(3), None);
    assert_eq!(mixer.bundle_of(2).as_deref(), Some("com.example.app2"));
    assert_eq!(mixer.bundle_of(3), None);
    let faders = mixer.faders();
    assert_eq!(faders[1].0.id, 2);
    assert_eq!(faders[1].1, 400_000);
    assert_eq!(mixer.destination().id, 7);
    assert!(mixer.covers(&[process(2), process(1)]));
    assert!(!mixer.covers(&[process(1)]));
    assert!(!mixer.covers(&[process(1), process(3)]));
}

#[test]
fn a_mixer_is_checked_before_anything_is_tapped() {
    let few = [process(1)];
    assert_eq!(Mixer::check(&few, &destination()).unwrap(), "speakers");
    let many: Vec<Process> = (0..MAX_FADERS as u32 + 1).map(process).collect();
    assert_eq!(
        Mixer::check(&many, &destination()).err(),
        Some(MixerError::TooMany)
    );
    let mut nameless = destination();
    nameless.uid = None;
    assert_eq!(
        Mixer::check(&few, &nameless).err(),
        Some(MixerError::DestinationHasNoUid)
    );
}

#[test]
fn starting_fails_where_the_system_refuses() {
    let mut mixer = Mixer::start(vec![tap(1, None)], &destination(), 0, 5);
    assert_eq!(mixer.proc_created(-50, true), Err(MixerError::Io(-50)));
    assert_eq!(mixer.proc_created(0, false), Err(MixerError::Io(0)));
    assert_eq!(
        mixer.teardown(),
        vec![Undo::DestroyAggregate { id: 5 }, Undo::DestroyTap { id: 101 }]
    );
    assert_eq!(mixer.proc_created(0, true), Ok(()));
    assert_eq!(mixer.started(-1), Err(MixerError::Io(-1)));
    assert!(!mixer.is_running());
    assert_eq!(mixer.started(0), Ok(()));
    assert!(mixer.is_running());
    assert_eq!(
        mixer.teardown(),
        vec![
            Undo::StopProc,
            Undo::DestroyProc,
            Undo::DestroyAggregate { id: 5 },
            Undo::DestroyTap { id: 101 }
        ]
    );
    assert_eq!(create_aggregate(0, 9), Ok(9));
    assert_eq!(create_aggregate(0, 0), Err(MixerError::Aggregate(0)));
    assert_eq!(create_aggregate(-3, 9), Err(MixerError::Aggregate(-3)));
}

#[test]
fn errors_say_what_happened() {
    assert_eq!(
        MixerError::from(TapError::NoUid).message(),
        "the tap published no UID"
    );
    assert_eq!(
        MixerError::Tap(TapError::Refused(-4)).message(),
        "the system refused a process tap (status -4) — this needs macOS 14.4+ and permission to \
         record audio"
    );
    assert_eq!(
        MixerError::Aggregate(12).message(),
        "the aggregate device was refused (status 12)"
    );
    assert_eq!(
        MixerError::DestinationHasNoUid.message(),
        "the destination device publishes no UID"
    );
    assert_eq!(
        MixerError::Io(-50).message(),
        "the mixer's IO proc was refused (status -50)"
    );
    assert_eq!(
        MixerError::TooMany.message(),
        "at most 16 applications can have a fader"
    );
}

#[test]
fn a_tap_is_what_the_system_made() {
    assert_eq!(tap_name(42), "DisEQ fader for pid 42");
    assert_eq!(created(0, 5), Ok(5));
    assert_eq!(created(0, 0), Err(TapError::Refused(0)));
    assert_eq!(created(-4, 5), Err(TapError::Refused(-4)));
    assert_eq!(are_permitted(0, 5), Ok(()));
    assert_eq!(are_permitted(-4, 0), Err(TapError::Refused(-4)));
    assert_eq!(
        Tap::muting(&process(1), 5, None, None).err(),
        Some(TapError::NoUid)
    );
    let tap = tap(3, Some(0));
    assert_eq!(tap.id(), 103);
    assert_eq!(tap.uid(), "tap-3");
    assert_eq!(tap.process().id, 3);
    assert_eq!(tap.channels(), 2);
}

#[test]
fn channels_the_output_has_no_place_for_land_on_its_last() {
    let mixer = Mixer::start(vec![tap(1, Some(3))], &destination(), 0, 5);
    let samples = [1.0f32, 2.0, 4.0, 8.0, 16.0, 32.0];
    let inputs = [Some(Source { channels: 3, samples: &samples[..] })];
    let mut others: [&mut [f32]; 0] = [];

    let mut stereo = [9.0f32; 4];
    mix(&mixer.faders, &inputs, &mut stereo, 2, &mut others, 0.0, add);
    assert_eq!(stereo, [1.0, 6.0, 8.0, 48.0]);

    let mut mono = [9.0f32; 2];
    mix(&mixer.faders, &inputs, &mut mono, 1, &mut others, 0.0, add);
    assert_eq!(mono, [7.0, 56.0]);
}

#[test]
fn a_frame_cut_off_in_the_middle_is_not_heard() {
    let mixer = Mixer::start(vec![tap(1, Some(3))], &destination(), 0, 5);
    let samples = [1.0f32, 2.0, 4.0, 8.0, 16.0];
    let inputs = [Some(Source { channels: 3, samples: &samples[..] })];
    let mut others: [&mut [f32]; 0] = [];
    let mut stereo = [9.0f32; 4];
    mix(&mixer.faders, &inputs, &mut stereo, 2, &mut others, 0.0, add);
    assert_eq!(stereo, [1.0, 6.0, 0.0, 0.0]);
}

#[test]
fn a_mixer_that_does_not_come_about_gives_its_taps_back() {
    assert_eq!(abandoned(&[]), vec![]);
    assert_eq!(
        abandoned(&[tap(1, None), tap(4, Some(2))]),
        vec![Undo::DestroyTap { id: 101 }, Undo::DestroyTap { id: 104 }]
    );
}
