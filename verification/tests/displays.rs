use diseq::ddc::{collapse, find, Command};
use diseq::display::{Attachment, Display, DisplayCatalog, DisplayId, DisplayMode, DisplaySnapshot};
use diseq::offline::{read_file, write_file, Offline, Registry, Strategy};
use diseq::power::{
    dark_panels, is_real, may_connect, orphaned_panels, settle_for, AttachedPanel, Compared, Look,
    PowerError, Recovery, Sweep, SweepAction, SweepEvent,
};
use diseq::protection::{is_worth_restoring, Change, Protection, Restore};
use diseq::service::{
    forget_connected, is_own_mirror, panel_power, reconnected, BrightnessAction, BrightnessBackend,
    Level, Probe, ReconnectAction, ReconnectEvent, Reconnecting, Service, SwitchAction,
    SwitchEvent, Switching, DEFAULT_SCALE,
};

fn sample() -> Offline {
    Offline {
        id: DisplayId(3),
        name: "DELL U2720Q".to_string(),
        is_builtin: false,
        vendor: 0x10AC,
        model: 0x41B5,
        serial: 0x4237314C,
        unit: 2,
        strategy: Strategy::HardDisconnect,
    }
}

fn mode(width: u32, height: u32, io_mode_id: i32) -> DisplayMode {
    DisplayMode {
        width,
        height,
        hidpi: false,
        refresh_rate: 60_000,
        io_mode_id,
    }
}

fn snapshot(is_builtin: bool, vendor: u32, model: u32, serial: u32) -> DisplaySnapshot {
    DisplaySnapshot {
        id: DisplayId(1),
        name: "test".into(),
        is_builtin,
        is_main: false,
        is_active: false,
        is_online: false,
        vendor,
        model,
        serial,
        unit: 0,
        origin: (0, 0),
        size: (0, 0),
        mirrors: None,
        current_mode: None,
    }
}

fn display(id: u32, is_main: bool, is_builtin: bool) -> Display {
    Display {
        snapshot: DisplaySnapshot {
            id: DisplayId(id),
            is_main,
            is_active: true,
            is_online: true,
            ..snapshot(is_builtin, id, id, id)
        },
        modes: Vec::new(),
        native: None,
    }
}

// --- records ----------------------------------------------------------------

#[test]
fn round_trips_through_a_line() {
    let entry = sample();
    let parsed = Offline::from_line(&entry.to_line()).expect("parses");

    assert_eq!(parsed.id, entry.id);
    assert_eq!(parsed.name, entry.name);
    assert_eq!(parsed.vendor, entry.vendor);
    assert_eq!(parsed.model, entry.model);
    assert_eq!(parsed.serial, entry.serial);
    assert_eq!(parsed.unit, entry.unit);
    assert_eq!(parsed.is_builtin, entry.is_builtin);
    assert_eq!(parsed.strategy, entry.strategy);
}

#[test]
fn mirror_strategy_survives_the_round_trip() {
    let mut entry = sample();
    entry.strategy = Strategy::Mirror;
    let parsed = Offline::from_line(&entry.to_line()).expect("parses");
    assert_eq!(parsed.strategy, Strategy::Mirror);
}

#[test]
fn rejects_junk_lines() {
    assert!(Offline::from_line("").is_none());
    assert!(Offline::from_line("3\t1\t2").is_none());
    assert!(Offline::from_line("3\t1\t2\t3\t4\t0\tsomething\tName").is_none());
}

/// The id changes between sessions; the panel behind it does not.
#[test]
fn matches_the_same_panel_under_a_new_id() {
    let entry = sample();
    let mut snapshot = entry.ghost().snapshot;
    snapshot.id = DisplayId(7);
    assert!(entry.matches(&snapshot));

    snapshot.serial = 0xDEADBEEF;
    assert!(!entry.matches(&snapshot));
}

/// Built-in panels report zeroed vendor/model/serial, so identity falls back to
/// the unit number.
#[test]
fn matches_a_built_in_panel_by_unit() {
    let entry = Offline {
        id: DisplayId(1),
        name: "Built-in Display".to_string(),
        is_builtin: true,
        vendor: 0,
        model: 0,
        serial: 0,
        unit: 0,
        strategy: Strategy::HardDisconnect,
    };

    let mut snapshot = entry.ghost().snapshot;
    snapshot.id = DisplayId(4);
    assert!(entry.matches(&snapshot));

    snapshot.unit = 1;
    assert!(!entry.matches(&snapshot));
}

#[test]
fn a_ghost_card_reads_as_disconnected() {
    let ghost = sample().ghost();
    assert!(!ghost.snapshot.is_active);
    assert!(!ghost.snapshot.is_online);
    assert!(ghost.snapshot.mirrors.is_none());
    assert!(ghost.snapshot.current_mode.is_none());
    assert_eq!(ghost.name(), "DELL U2720Q");
}

#[test]
fn the_file_gives_back_every_record() {
    let mut other = sample();
    other.id = DisplayId(9);
    other.name = "Studio Display".to_string();
    let text = write_file(&[sample(), other]);
    assert_eq!(text.lines().count(), 2);
    let read = read_file(&text);
    assert_eq!(read.len(), 2);
    assert_eq!(read[1].name, "Studio Display");
    // Lines that are no records are passed over.
    assert_eq!(read_file(&format!("junk\n{text}\n")).len(), 2);
    assert!(read_file("").is_empty());
}

#[test]
fn a_registry_records_and_forgets() {
    let mut registry = Registry::load(vec![sample()]);
    assert!(registry.is_offline(DisplayId(3)));
    assert_eq!(registry.strategy(DisplayId(3)), Some(Strategy::HardDisconnect));
    registry.record(&display(5, false, false), Strategy::Mirror);
    assert_eq!(registry.strategy(DisplayId(5)), Some(Strategy::Mirror));
    assert_eq!(registry.all().len(), 2);
    assert!(registry.forget(DisplayId(5)));
    assert!(!registry.forget(DisplayId(5)));
    assert_eq!(registry.strategy(DisplayId(5)), None);
    assert!(!registry.is_offline(DisplayId(5)));
}

#[test]
fn a_record_follows_its_panel() {
    let mut registry = Registry::load(vec![sample()]);
    let mut back = sample().ghost().snapshot;
    back.id = DisplayId(12);
    assert!(registry.rekey(&back));
    assert!(registry.is_offline(DisplayId(12)));
    assert!(!registry.is_offline(DisplayId(3)));
    assert!(!registry.rekey(&snapshot(false, 1, 2, 3)));
}

// --- the catalogue ----------------------------------------------------------

#[test]
fn the_panel_lists_the_main_display_first() {
    let mut registry = Registry::load(Vec::new());
    let displays = vec![
        display(9, false, false),
        display(2, false, false),
        display(5, false, true),
        display(7, true, false),
    ];
    let (catalog, forgot) = DisplayCatalog::load(displays, &mut registry, &[]);
    let ids: Vec<u32> = catalog.displays.iter().map(|display| display.id().0).collect();
    assert_eq!(ids, vec![7, 5, 2, 9]);
    assert!(!forgot);
    assert!(catalog.get(DisplayId(5)).is_some());
    assert!(catalog.get(DisplayId(6)).is_none());
}

#[test]
fn a_switched_off_display_keeps_its_card() {
    let mut registry = Registry::load(vec![sample()]);
    let (catalog, forgot) = DisplayCatalog::load(
        vec![display(1, true, true)],
        &mut registry,
        &[Attachment::Attached],
    );
    assert_eq!(catalog.displays.len(), 2);
    assert_eq!(catalog.displays[1].name(), "DELL U2720Q");
    assert!(!forgot);
    // A panel that is gone takes its card with it.
    let (catalog, forgot) = DisplayCatalog::load(
        vec![display(1, true, true)],
        &mut registry,
        &[Attachment::Absent],
    );
    assert_eq!(catalog.displays.len(), 1);
    assert!(forgot);
    assert!(!registry.is_offline(DisplayId(3)));
}

#[test]
fn a_display_that_is_back_loses_its_record() {
    let mut registry = Registry::load(vec![sample()]);
    let mut back = display(3, true, false);
    back.snapshot.vendor = 0x10AC;
    assert!(!DisplayCatalog::asks_for(&[back.clone()], &sample()));
    let (catalog, forgot) = DisplayCatalog::load(vec![back], &mut registry, &[Attachment::Unknown]);
    assert_eq!(catalog.displays.len(), 1);
    assert!(forgot);
    assert!(registry.all().is_empty());
}

#[test]
fn the_slider_offers_each_size_once() {
    let mut panel = display(1, true, false);
    panel.modes = vec![
        mode(2560, 1440, 1),
        mode(1920, 1080, 2),
        mode(1024, 768, 3),
        mode(1920, 1080, 4),
        mode(1280, 720, 5),
    ];
    panel.native = Some(mode(2560, 1440, 1));
    panel.snapshot.current_mode = Some(mode(1920, 1080, 4));
    let widths: Vec<u32> = panel.selectable_modes().iter().map(|mode| mode.width).collect();
    assert_eq!(widths, vec![1280, 1920, 2560]);
    assert_eq!(panel.current_mode_index(), Some(1));
    assert_eq!(panel.resolution_scale(), Some((1920, 2560)));
    let service = Service::start(true);
    assert_eq!(service.set_resolution(&panel, 2), Some(1));
    assert_eq!(service.set_resolution(&panel, 3), None);
    panel.snapshot.current_mode = None;
    assert_eq!(panel.current_mode_index(), None);
    assert_eq!(panel.resolution_scale(), None);
    panel.native = None;
    assert!(panel.selectable_modes().is_empty());
}

#[test]
fn the_slider_keeps_the_shape_that_is_in_force() {
    let mut panel = display(1, true, false);
    panel.modes = vec![
        mode(1600, 900, 1),
        mode(800, 600, 2),
        mode(1024, 768, 3),
        mode(1280, 720, 4),
    ];
    panel.native = Some(mode(1600, 900, 1));
    panel.snapshot.current_mode = Some(mode(800, 600, 2));
    let widths = |panel: &Display| -> Vec<u32> {
        panel.selectable_modes().iter().map(|mode| mode.width).collect()
    };
    assert_eq!(widths(&panel), vec![800, 1024]);
    assert_eq!(panel.current_mode_index(), Some(0));
    // While no mode is in force, the panel's own shape is the one to keep.
    panel.snapshot.current_mode = None;
    assert_eq!(widths(&panel), vec![1280, 1600]);
}

// --- the monitor bus --------------------------------------------------------

#[test]
fn only_the_last_write_to_a_control_is_sent() {
    let write = |display: u32, code: u8, value: u16| Command::Write {
        display: DisplayId(display),
        code,
        value,
    };
    let batch: Vec<Command<&str>> = vec![
        write(1, 0x10, 10),
        Command::Read { display: DisplayId(1), code: 0x10, reply: "first" },
        write(1, 0x10, 20),
        write(2, 0x10, 30),
        Command::Rediscover,
        write(1, 0x12, 40),
        write(1, 0x10, 50),
    ];
    let kept: Vec<String> = collapse(batch)
        .iter()
        .map(|command| match command {
            Command::Read { reply, .. } => format!("read {reply}"),
            Command::Write { display, code, value } => format!("{}:{code:x}={value}", display.0),
            Command::Rediscover => "rediscover".to_string(),
        })
        .collect();
    assert_eq!(
        kept,
        vec!["read first", "2:10=30", "rediscover", "1:12=40", "1:10=50"]
    );
}

#[test]
fn a_link_is_found_by_display() {
    let links = [DisplayId(4), DisplayId(7)];
    assert_eq!(find(&links, DisplayId(7)), Some(1));
    assert_eq!(find(&links, DisplayId(8)), None);
}

// --- power ------------------------------------------------------------------

/// The rule that fixes lighting the panel on a shut laptop.
#[test]
fn the_built_in_panel_follows_the_lid() {
    let built_in = snapshot(true, 0, 0, 0);
    assert!(matches!(
        may_connect(&built_in, Some(true), Attachment::Unknown),
        Err(PowerError::LidClosed)
    ));
    assert!(may_connect(&built_in, Some(false), Attachment::Unknown).is_ok());
    assert!(may_connect(&built_in, None, Attachment::Unknown).is_ok());
}

/// A display with no identity cannot be looked up, and an unanswerable question
/// must not read as "not there".
#[test]
fn an_unidentifiable_display_is_not_refused() {
    assert!(may_connect(&snapshot(false, 0, 0, 0), None, Attachment::Unknown).is_ok());
}

/// A vendor and product that belong to nothing plugged in is the case the whole
/// module exists for.
#[test]
fn a_display_that_is_not_plugged_in_is_refused() {
    let invented = snapshot(false, 0xFFFE, 0xFFFE, 0xFFFF_FFFE);
    assert!(matches!(
        may_connect(&invented, None, Attachment::Absent),
        Err(PowerError::NotAttached)
    ));
}

fn panel(number: u32) -> AttachedPanel {
    AttachedPanel { vendor: number, model: number, serial: number }
}

/// Every panel the machine can see is, by definition, one a reconnect may
/// target.
#[test]
fn every_attached_panel_is_allowed() {
    for attached in [panel(1), panel(2)] {
        let candidate = snapshot(false, attached.vendor, attached.model, attached.serial);
        assert!(
            may_connect(&candidate, None, Attachment::Attached).is_ok(),
            "{attached:?} is plugged in but was refused"
        );
        assert!(is_real(&candidate, None, true, true));
    }
}

#[test]
fn dark_panels_are_a_subset_of_attached_ones() {
    let attached = [
        Compared { panel: panel(1), lit: true, recorded: false },
        Compared { panel: panel(2), lit: false, recorded: true },
        Compared { panel: panel(3), lit: false, recorded: false },
    ];
    let dark = dark_panels(&attached);
    assert_eq!(dark.len(), 2);
    for dark in dark {
        assert!(attached.iter().any(|other| other.panel == dark.panel));
    }
    assert_eq!(orphaned_panels(&attached), vec![panel(3)]);
}

#[test]
fn a_fabricated_display_is_not_real() {
    assert!(!is_real(&snapshot(false, 1, 2, 3), None, true, false));
    assert!(is_real(&snapshot(false, 1, 2, 3), None, false, false));
    assert!(!is_real(&snapshot(true, 0, 0, 0), Some(true), true, true));
    assert!(is_real(&snapshot(true, 0, 0, 0), Some(false), true, false));
}

#[test]
fn an_orphan_is_tried_once() {
    let mut recovery = Recovery::new();
    assert!(recovery.recover_orphaned_panels(&[panel(1)]));
    // One pass at a time.
    assert!(!recovery.recover_orphaned_panels(&[panel(1), panel(2)]));
    recovery.finished();
    assert!(!recovery.recover_orphaned_panels(&[panel(1), panel(2)]));
    // Unplugged and back is a fresh attempt.
    assert!(!recovery.recover_orphaned_panels(&[]));
    assert!(recovery.recover_orphaned_panels(&[panel(1)]));
}

#[test]
fn a_display_is_waited_for_only_so_long() {
    assert_eq!(settle_for(true, 0), Look::Appeared);
    assert_eq!(settle_for(false, 0), Look::Again);
    assert_eq!(settle_for(false, u64::MAX), Look::GaveUp);
}

#[test]
fn a_sweep_keeps_what_is_real_and_puts_the_rest_back() {
    let ids = vec![DisplayId(1), DisplayId(2), DisplayId(3), DisplayId(4)];
    let mut sweep = Sweep::restore_disabled(ids, true, false, Some(true));
    let mut undone = Vec::new();
    while let Some(action) = sweep.action() {
        let event = match action {
            SweepAction::LookAt { id } => SweepEvent::Looked {
                online: id.0 == 1,
                is_builtin: id.0 == 2,
            },
            SweepAction::Enable { .. } => SweepEvent::Enabled { accepted: true },
            SweepAction::Settle { id } => SweepEvent::Settled { genuine: id.0 == 3 },
            SweepAction::PutBack { .. } => panic!("never asked for next"),
        };
        if let Some(SweepAction::PutBack { id }) = sweep.step(event) {
            undone.push(id.0);
        }
    }
    assert_eq!(sweep.restored(), 1);
    assert_eq!(undone, vec![4]);
}

#[test]
fn a_sweep_with_nothing_dark_does_nothing() {
    let ids = || vec![DisplayId(1)];
    assert!(Sweep::restore_disabled(ids(), false, true, None).action().is_none());
    assert!(Sweep::restore_disabled(ids(), false, false, Some(true)).action().is_none());
    assert!(Sweep::restore_disabled(Vec::new(), true, false, None).action().is_none());
    let mut sweep = Sweep::restore_disabled(ids(), false, false, None);
    assert!(sweep.action().is_some());
    sweep.step(SweepEvent::Looked { online: false, is_builtin: false });
    sweep.step(SweepEvent::Enabled { accepted: false });
    assert!(sweep.action().is_none());
    assert_eq!(sweep.restored(), 0);
}

#[test]
fn refusals_say_what_happened() {
    assert_eq!(
        PowerError::LastActiveDisplay.message(),
        "Cannot disconnect the only active display"
    );
    assert_eq!(
        PowerError::NoMirrorTarget.message(),
        "No other display to mirror onto"
    );
    assert_eq!(
        PowerError::NotAttached.message(),
        "Nothing is plugged into this display's port"
    );
    assert_eq!(
        PowerError::LidClosed.message(),
        "The built-in display stays off while the lid is closed"
    );
    assert_eq!(
        PowerError::Unavailable.message(),
        "Disconnect is unavailable on this macOS build"
    );
    assert_eq!(PowerError::Failed.message(), "The system refused the change");
}

// --- protection -------------------------------------------------------------

#[test]
fn a_pinned_layout_is_put_back() {
    let mut protection = Protection::new();
    let mut state = display(1, true, false).snapshot;
    state.current_mode = Some(mode(1920, 1080, 7));
    state.origin = (10, -20);
    assert!(!protection.is_protected(DisplayId(1)));
    assert!(protection.restore(&state).is_empty());
    protection.protect(&state);
    assert!(protection.is_protected(DisplayId(1)));
    assert_eq!(
        protection.describe(DisplayId(1)).as_deref(),
        Some("mode 7 at 10,-20")
    );
    assert!(protection.restore(&state).is_empty());
    state.current_mode = Some(mode(1280, 720, 8));
    state.origin = (0, 0);
    state.mirrors = Some(DisplayId(2));
    assert_eq!(
        protection.restore(&state),
        vec![
            Restore::SetMode { display: DisplayId(1), io_mode_id: 7 },
            Restore::SetOrigin { display: DisplayId(1), x: 10, y: -20 },
            Restore::ClearMirror { display: DisplayId(1) },
        ]
    );
    protection.unprotect(DisplayId(1));
    assert!(protection.describe(DisplayId(1)).is_none());
}

#[test]
fn only_a_reconfiguration_is_put_back() {
    assert!(is_worth_restoring(Change::Reconfigured));
    assert!(!is_worth_restoring(Change::Added));
    assert!(!is_worth_restoring(Change::Removed));
}

// --- the service ------------------------------------------------------------

#[test]
fn the_probe_asks_only_what_decides() {
    assert_eq!(
        Probe::start(true, true, true),
        Probe::Settled(BrightnessBackend::Panel)
    );
    // The panel frameworks answer for external displays too, and ignore writes.
    assert_eq!(Probe::start(false, true, true), Probe::AskDdc);
    assert_eq!(Probe::start(false, true, false), Probe::AskGamma);
    assert_eq!(
        Probe::ddc_answered(true),
        Probe::Settled(BrightnessBackend::Ddc)
    );
    assert_eq!(Probe::ddc_answered(false), Probe::AskGamma);
    assert_eq!(
        Probe::gamma_answered(true),
        Probe::Settled(BrightnessBackend::Software)
    );
    assert_eq!(
        Probe::gamma_answered(false),
        Probe::Settled(BrightnessBackend::Unavailable)
    );
    assert!(BrightnessBackend::Panel.is_available());
    assert!(!BrightnessBackend::Unavailable.is_available());
}

#[test]
fn brightness_goes_to_what_drives_the_display() {
    let mut service = Service::start(false);
    let id = DisplayId(1);
    assert_eq!(service.brightness(id), None);
    assert!(!service.probed(id, BrightnessBackend::Panel, Some(0.5f64.to_bits())));
    assert_eq!(
        service.brightness(id),
        Some(Level::Value { bits: 0.5f64.to_bits() })
    );
    assert_eq!(
        service.set_brightness(id, 2.0f64.to_bits()),
        BrightnessAction::Panel { display: id, bits: 1.0f64.to_bits() }
    );
    let monitor = DisplayId(2);
    assert!(service.probed(monitor, BrightnessBackend::Ddc, None));
    assert_eq!(
        service.set_brightness(monitor, (-1.0f64).to_bits()),
        BrightnessAction::Ddc { display: monitor, bits: 0.0f64.to_bits(), max: DEFAULT_SCALE }
    );
    service.monitor_answered(monitor, 30, 0);
    service.monitor_answered(monitor, 30, 255);
    assert_eq!(
        service.brightness(monitor),
        Some(Level::Ratio { current: 30, max: 255 })
    );
    assert_eq!(
        service.set_brightness(monitor, 0.25f64.to_bits()),
        BrightnessAction::Ddc { display: monitor, bits: 0.25f64.to_bits(), max: 255 }
    );
    let dimmed = DisplayId(3);
    service.probed(dimmed, BrightnessBackend::Software, None);
    assert_eq!(
        service.set_brightness(dimmed, 0.75f64.to_bits()),
        BrightnessAction::Gamma { display: dimmed, bits: 0.75f64.to_bits() }
    );
    assert_eq!(
        service.set_brightness(DisplayId(4), 0.75f64.to_bits()),
        BrightnessAction::Nothing
    );
    service.begin_probe();
    assert_eq!(service.backend(id), BrightnessBackend::Unavailable);
}

#[test]
fn backends_are_probed_again_once_the_layout_changed() {
    let mut service = Service::start(true);
    assert!(!service.refresh_if_stale());
    service.layout_changed();
    assert!(service.refresh_if_stale());
    assert!(!service.refresh_if_stale());
    assert_eq!(service.strategy(), Strategy::HardDisconnect);
    let registry = Registry::load(vec![sample()]);
    assert!(!service.is_connected(&registry, DisplayId(3), true));
    assert!(service.is_connected(&registry, DisplayId(4), true));
    assert!(!service.is_connected(&registry, DisplayId(4), false));
}

#[test]
fn a_refused_hard_disconnect_falls_back_to_the_mirror() {
    let (state, actions) = Switching::disconnect(Strategy::HardDisconnect);
    assert_eq!(
        actions,
        vec![SwitchAction::Disconnect { strategy: Strategy::HardDisconnect }]
    );
    let (state, actions) = state.step(SwitchEvent::Disconnected { result: Err(PowerError::Failed) });
    assert_eq!(
        actions,
        vec![
            SwitchAction::PanelPower { on: false },
            SwitchAction::Disconnect { strategy: Strategy::Mirror }
        ]
    );
    // The mirror failed too: the panel is woken again.
    let (state, actions) =
        state.step(SwitchEvent::Disconnected { result: Err(PowerError::NoMirrorTarget) });
    assert_eq!(actions, vec![SwitchAction::PanelPower { on: true }]);
    assert_eq!(
        state,
        Switching::Done { result: Err(PowerError::NoMirrorTarget) }
    );
}

#[test]
fn the_last_display_is_not_mirrored_away() {
    let (state, _) = Switching::disconnect(Strategy::HardDisconnect);
    let (state, actions) =
        state.step(SwitchEvent::Disconnected { result: Err(PowerError::LastActiveDisplay) });
    assert_eq!(
        state,
        Switching::Done { result: Err(PowerError::LastActiveDisplay) }
    );
    assert!(actions.is_empty());
}

#[test]
fn the_record_follows_what_became_of_the_display() {
    // Switched off by mirroring, and on record as such.
    let (state, _) = Switching::disconnect(Strategy::Mirror);
    let (state, actions) = state.step(SwitchEvent::Disconnected { result: Ok(()) });
    assert_eq!(actions, vec![SwitchAction::Record { strategy: Strategy::Mirror }]);
    assert_eq!(state, Switching::Done { result: Ok(()) });

    // Brought back by mirroring, though the hard disconnect is preferred by now.
    let (state, actions) = Switching::reconnect(
        &snapshot(false, 1, 2, 3),
        Some(Strategy::Mirror),
        false,
        Strategy::HardDisconnect,
        None,
        Attachment::Attached,
    );
    assert_eq!(actions, vec![SwitchAction::Connect { strategy: Strategy::Mirror }]);
    let (failed, actions) = state.step(SwitchEvent::Connected { result: Err(PowerError::Failed) });
    assert!(actions.is_empty());
    assert_eq!(failed, Switching::Done { result: Err(PowerError::Failed) });
    let (done, actions) = state.step(SwitchEvent::Connected { result: Ok(()) });
    assert_eq!(actions.last(), Some(&SwitchAction::Forget));
    assert_eq!(done, Switching::Done { result: Ok(()) });
}

#[test]
fn a_display_is_brought_back_the_way_it_went() {
    let panel = snapshot(false, 1, 2, 3);
    let (state, actions) = Switching::reconnect(
        &panel,
        Some(Strategy::Mirror),
        false,
        Strategy::HardDisconnect,
        None,
        Attachment::Attached,
    );
    assert_eq!(actions, vec![SwitchAction::Connect { strategy: Strategy::Mirror }]);
    let (state, actions) = state.step(SwitchEvent::Connected { result: Ok(()) });
    assert_eq!(state, Switching::Done { result: Ok(()) });
    assert_eq!(
        actions,
        vec![
            SwitchAction::Rediscover,
            SwitchAction::PanelPower { on: true },
            SwitchAction::Forget
        ]
    );
    let (state, actions) = Switching::reconnect(
        &panel,
        None,
        false,
        Strategy::HardDisconnect,
        None,
        Attachment::Absent,
    );
    assert_eq!(state, Switching::Done { result: Err(PowerError::NotAttached) });
    assert!(actions.is_empty());
}

#[test]
fn a_stale_id_is_swept_for() {
    let (state, _) = Switching::reconnect(
        &snapshot(false, 1, 2, 3),
        None,
        false,
        Strategy::HardDisconnect,
        None,
        Attachment::Unknown,
    );
    let (state, actions) = state.step(SwitchEvent::Connected { result: Err(PowerError::Failed) });
    assert_eq!(actions, vec![SwitchAction::Sweep]);
    let (failed, _) = state.step(SwitchEvent::Swept { restored: 0 });
    assert_eq!(failed, Switching::Done { result: Err(PowerError::Failed) });
    let (done, actions) = state.step(SwitchEvent::Swept { restored: 1 });
    assert_eq!(done, Switching::Done { result: Ok(()) });
    assert_eq!(actions, vec![SwitchAction::Forget]);
}

#[test]
fn reconnecting_everything_undoes_only_our_own() {
    let mut registry = Registry::load(vec![sample()]);
    let mut mirrored = snapshot(false, 1, 2, 3);
    mirrored.mirrors = Some(DisplayId(9));
    assert!(!is_own_mirror(&registry, &mirrored));
    mirrored.id = DisplayId(3);
    assert!(is_own_mirror(&registry, &mirrored));
    mirrored.mirrors = None;
    assert!(!is_own_mirror(&registry, &mirrored));
    assert!(!forget_connected(&mut registry, &[DisplayId(1)]));
    assert!(forget_connected(&mut registry, &[DisplayId(1), DisplayId(3), DisplayId(3)]));
    assert!(registry.all().is_empty());
    assert_eq!(reconnected(1, 3), 2);
    assert_eq!(reconnected(3, 1), 0);
    assert_eq!(panel_power(true), 1);
    assert_eq!(panel_power(false), 5);
}

#[test]
fn a_switch_that_ended_leaves_stale_handles_and_backends_behind() {
    let settled = vec![SwitchAction::Rediscover, SwitchAction::MarkStale];
    assert_eq!((Switching::Done { result: Ok(()) }).settle(), settled);
    assert_eq!(
        (Switching::Done { result: Err(PowerError::NotAttached) }).settle(),
        settled
    );
    assert_eq!(Switching::HardOff.settle(), vec![]);
}

#[test]
fn everything_comes_back_in_order() {
    let (state, actions) = Reconnecting::begin(1);
    assert_eq!(actions, vec![ReconnectAction::Sweep]);
    let (state, actions) = state.step(ReconnectEvent::Swept {
        online: vec![DisplayId(1), DisplayId(7)],
    });
    assert_eq!(actions, vec![ReconnectAction::Look { id: DisplayId(1) }]);
    // One that the user mirrored is left alone.
    let (state, actions) = state.step(ReconnectEvent::Seen { own: false });
    assert_eq!(actions, vec![ReconnectAction::Look { id: DisplayId(7) }]);
    let (state, actions) = state.step(ReconnectEvent::Seen { own: true });
    assert_eq!(actions, vec![ReconnectAction::Reconnect { id: DisplayId(7) }]);
    let (state, actions) = state.step(ReconnectEvent::Returned);
    assert_eq!(
        actions,
        vec![
            ReconnectAction::ForgetConnected,
            ReconnectAction::Rediscover,
            ReconnectAction::MarkStale,
            ReconnectAction::Count,
        ]
    );
    let (state, actions) = state.step(ReconnectEvent::Counted { after: 3 });
    assert!(matches!(state, Reconnecting::Done { count: 2 }));
    assert_eq!(actions, vec![]);

    // With nothing online after the sweep, the records go at once.
    let (state, _) = Reconnecting::begin(2);
    let (state, actions) = state.step(ReconnectEvent::Swept { online: vec![] });
    assert_eq!(actions.len(), 4);
    let (state, _) = state.step(ReconnectEvent::Counted { after: 1 });
    assert!(matches!(state, Reconnecting::Done { count: 0 }));
}
