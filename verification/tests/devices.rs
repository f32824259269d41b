use diseq::devices::{
    by_uid, diseq, eqmac_is_installed, outputs, proxy_name, Device, Listed, Visibility,
    VisibilityEvent, DISEQ_UID, EQMAC_UID, PUBLISH_LOOKS, RETRACT_LOOKS, TRANSPORT_AGGREGATE,
    TRANSPORT_HDMI, TRANSPORT_USB, TRANSPORT_VIRTUAL,
};
use diseq::playable::{is_being_tried, needs_trying, Playable, Trying, STALE_MS};
use diseq::processes::{by_pid, playing, Process};

/// An id no Core Audio object has, so nothing here touches hardware.
const NO_SUCH_DEVICE: u32 = 0x7FFF_FFF0;

fn device(transport: &[u8; 4]) -> Device {
    Device {
        id: NO_SUCH_DEVICE,
        name: "test".into(),
        uid: None,
        has_output: true,
        has_input: false,
        volume_is_settable: false,
        volume: None,
        muted: None,
        sample_rate: Some(48_000_000),
        transport_type: Some(u32::from_be_bytes(*transport)),
    }
}

fn numbered(id: u32, uid: Option<&str>) -> Device {
    Device {
        id,
        uid: uid.map(str::to_string),
        ..device(b"usb ")
    }
}

#[test]
fn only_display_audio_is_held_back() {
    let playable = Playable::new();
    assert!(playable.offers(&device(b"usb "), false));
    assert!(playable.offers(&device(b"bltn"), false));
    assert!(playable.offers(&device(b"blue"), false));
    assert!(playable.offers(&device(b"airp"), false));
    assert!(!playable.offers(&device(b"dprt"), false));
    assert!(!playable.offers(&device(b"hdmi"), false));
}

/// Not yet tried is a reason not to list it, but not a reason to refuse it when
/// it is the only thing left to play to.
#[test]
fn an_untried_output_has_not_failed() {
    let playable = Playable::new();
    assert!(!playable.failed(&device(b"hdmi")));
}

#[test]
fn a_failure_in_use_stops_it_being_listed() {
    let mut playable = Playable::new();
    let before = playable.generation();
    let monitor = device(b"dprt");
    playable.record_failure(&monitor, 0);
    assert!(!playable.offers(&monitor, false));
    assert!(playable.failed(&monitor));
    assert_ne!(playable.generation(), before);
}

/// Hardware that is not display audio never gets a verdict to lose.
#[test]
fn a_failure_on_other_hardware_changes_nothing() {
    let mut playable = Playable::new();
    let interface = device(b"usb ");
    playable.record_failure(&interface, 0);
    assert!(playable.offers(&interface, false));
    assert!(!playable.failed(&interface));
}

#[test]
fn display_audio_is_tried_once_and_again_when_the_verdict_is_stale() {
    let mut playable = Playable::new();
    let mut trying = Trying::new();
    let monitor = device(b"hdmi");
    assert!(needs_trying(&monitor));
    assert!(!playable.check(&device(b"usb "), 0));
    assert!(playable.check(&monitor, 0));
    assert!(playable.begin_check(&mut trying, monitor.id, false, 0));
    assert!(is_being_tried(&trying, monitor.id));
    assert!(!playable.check(&monitor, 1));
    playable.finish_check(&mut trying, monitor.id, true, 10);
    assert!(!is_being_tried(&trying, monitor.id));
    assert!(playable.offers(&monitor, false));
    assert!(!playable.failed(&monitor));
    assert!(!playable.check(&monitor, 10 + STALE_MS - 1));
    assert!(playable.check(&monitor, 10 + STALE_MS));
    // A check that confirms what was known redraws nothing.
    let before = playable.generation();
    playable.begin_check(&mut trying, monitor.id, false, 10 + STALE_MS);
    playable.finish_check(&mut trying, monitor.id, true, 20 + STALE_MS);
    assert_eq!(playable.generation(), before);
    playable.finish_check(&mut trying, monitor.id, false, 30 + STALE_MS);
    assert_ne!(playable.generation(), before);
    assert!(playable.failed(&monitor));
}

#[test]
fn an_output_something_plays_through_needs_no_trying() {
    let mut playable = Playable::new();
    let mut trying = Trying::new();
    let monitor = device(b"dprt");
    assert!(!playable.begin_check(&mut trying, monitor.id, true, 5));
    assert!(!is_being_tried(&trying, monitor.id));
    assert!(playable.offers(&monitor, false));
    // One with no verdict yet is offered while it is running.
    let untried = Playable::new();
    assert!(untried.asks_whether_running(&monitor));
    assert!(untried.offers(&monitor, true));
    assert!(!untried.asks_whether_running(&device(b"usb ")));
}

#[test]
fn outputs_are_listed_but_for_those_being_tried() {
    let mut microphone = numbered(2, None);
    microphone.has_output = false;
    let devices = [numbered(1, None), microphone, numbered(3, None)];
    let mut trying = Trying::new();
    let ids = |listed: Vec<Device>| listed.iter().map(|device| device.id).collect::<Vec<u32>>();
    assert_eq!(ids(outputs(&devices, &trying)), vec![1, 3]);
    Playable::new().begin_check(&mut trying, 3, false, 0);
    assert_eq!(ids(outputs(&devices, &trying)), vec![1]);
}

#[test]
fn devices_are_found_by_uid() {
    let devices = [numbered(1, Some("a")), numbered(2, None), numbered(3, Some("b"))];
    assert_eq!(by_uid(&devices, "b").map(|device| device.id), Some(3));
    assert!(by_uid(&devices, "c").is_none());
    assert!(devices[0].is_uid("a") && !devices[1].is_uid("a"));
    assert!(!eqmac_is_installed(&devices));
    assert!(eqmac_is_installed(&[numbered(4, Some(EQMAC_UID))]));
}

#[test]
fn a_dead_virtual_device_is_not_ours() {
    let ours = numbered(5, Some(DISEQ_UID));
    assert!(ours.is_diseq());
    let listed = [
        Listed { device: ours.clone(), alive: false },
        Listed { device: Device { id: 6, ..ours.clone() }, alive: true },
    ];
    assert_eq!(diseq(&listed).map(|device| device.id), Some(6));
    assert!(diseq(&[Listed { device: ours, alive: false }]).is_none());
}

#[test]
fn the_proxy_is_named_after_what_it_stands_in_for() {
    assert_eq!(proxy_name("Scarlett 2i2 USB"), "Scarlett 2i2 USB (DisEQ)");
}

#[test]
fn a_device_without_a_name_is_called_by_its_number() {
    let mut bare = numbered(42, None);
    bare.name = String::new();
    assert_eq!(Device::describe(bare.clone(), Some("Speakers".into())).name, "Speakers");
    assert_eq!(Device::describe(bare, None).name, "device 42");
}

#[test]
fn transports_have_names_and_some_are_virtual() {
    let mut usb = numbered(1, None);
    usb.transport_type = Some(TRANSPORT_USB);
    assert_eq!(usb.transport_type_name(), "USB");
    assert!(!usb.is_virtual());
    assert!(usb.needs_software_volume());
    usb.volume_is_settable = true;
    assert!(!usb.needs_software_volume());
    usb.transport_type = Some(TRANSPORT_HDMI);
    assert_eq!(usb.transport_type_name(), "HDMI");
    usb.transport_type = Some(TRANSPORT_VIRTUAL);
    assert!(usb.is_virtual());
    usb.transport_type = Some(TRANSPORT_AGGREGATE);
    assert!(usb.is_virtual());
    usb.transport_type = Some(1);
    assert_eq!(usb.transport_type_name(), "other");
    usb.transport_type = None;
    assert_eq!(usb.transport_type_name(), "unknown");
}

#[test]
fn publishing_waits_for_the_device_and_gives_up() {
    let mut state = Visibility::Finding;
    state = state.publish(VisibilityEvent::Plugin { found: true });
    state = state.publish(VisibilityEvent::Written { accepted: true });
    for _ in 0..PUBLISH_LOOKS - 1 {
        state = state.publish(VisibilityEvent::Looked { device: None });
        assert!(matches!(state, Visibility::Waiting { .. }));
    }
    assert!(matches!(
        state.publish(VisibilityEvent::Looked { device: None }),
        Visibility::Refused
    ));
    let waiting = Visibility::Waiting { looks: 3 };
    let Visibility::Settled { device } = waiting.publish(VisibilityEvent::Looked {
        device: Some(numbered(9, Some(DISEQ_UID))),
    }) else {
        panic!("expected the device");
    };
    assert_eq!(device.map(|device| device.id), Some(9));
    assert!(matches!(
        Visibility::Finding.publish(VisibilityEvent::Plugin { found: false }),
        Visibility::Refused
    ));
    assert!(matches!(
        Visibility::Writing.publish(VisibilityEvent::Written { accepted: false }),
        Visibility::Refused
    ));
}

#[test]
fn retracting_settles_once_the_device_is_gone() {
    let gone = Visibility::Waiting { looks: 0 }.retract(VisibilityEvent::Looked { device: None });
    assert!(matches!(gone, Visibility::Settled { device: None }));
    let mut state = Visibility::Waiting { looks: 0 };
    let mut looks = 0;
    while matches!(state, Visibility::Waiting { .. }) {
        state = state.retract(VisibilityEvent::Looked {
            device: Some(numbered(9, Some(DISEQ_UID))),
        });
        looks += 1;
    }
    assert_eq!(looks, RETRACT_LOOKS);
    assert!(matches!(state, Visibility::Settled { device: None }));
}

// --- processes --------------------------------------------------------------

#[test]
fn the_short_name_is_the_last_component_of_the_bundle_id() {
    let process = Process {
        id: 1,
        pid: 2,
        bundle_id: Some("com.spotify.client".into()),
        is_playing: true,
    };
    assert_eq!(process.short_name(), Some("client"));
}

#[test]
fn a_process_is_described_by_what_it_publishes() {
    let bare = Process::describe(3, None, Some(String::new()), false);
    assert_eq!((bare.id, bare.pid), (3, 0));
    assert!(bare.bundle_id.is_none());
    assert_eq!(bare.short_name(), None);
    let named = Process::describe(4, Some(77), Some("Finder".into()), true);
    assert_eq!(named.short_name(), Some("Finder"));
    let listed = [bare, named];
    assert_eq!(by_pid(&listed, 77).map(|process| process.id), Some(4));
    assert!(by_pid(&listed, 78).is_none());
    assert_eq!(playing(&listed).len(), 1);
}
