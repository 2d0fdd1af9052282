use ear_trainer::ble_midi::{
    backoff_secs, check_ble_prerequisites, classify_midi_name, encode_ble_midi_packet,
    select_adapter, BleConnectionState, BleEvent, BleMidiBackend, ConnectAttempt, HostProbe,
    LinkProbe, PeripheralProps, BLE_MIDI_CHAR_UUID,
};
use ear_trainer::manager::{AudioConfig, BleStatus, StatusAction};

fn all_pass_probe() -> HostProbe {
    HostProbe {
        bluetoothctl_found: true,
        service_stdout: Some("active\n".to_string()),
        list_stdout: Some("Controller 00:11:22:33:44:55 host [default]\n".to_string()),
        show_stdout: Some("Controller 00:11:22:33:44:55\n\tPowered: yes\n".to_string()),
    }
}

fn all_fail_probe() -> HostProbe {
    HostProbe {
        bluetoothctl_found: false,
        service_stdout: None,
        list_stdout: None,
        show_stdout: None,
    }
}

fn ready_backend() -> BleMidiBackend {
    let infos = vec!["hci0 00:11:22:33:44:55".to_string()];
    match BleMidiBackend::new(&infos) {
        Ok((backend, chosen)) => {
            assert_eq!(chosen, 0);
            backend
        }
        Err(_) => panic!("an enumerated adapter must be accepted"),
    }
}

fn good_attempt() -> ConnectAttempt {
    ConnectAttempt {
        connected: true,
        services_discovered: true,
        characteristics: vec![0x1800u128, BLE_MIDI_CHAR_UUID],
        subscribe_error: None,
    }
}

fn widi(address: &str) -> PeripheralProps {
    PeripheralProps {
        local_name: Some("Widi Master".to_string()),
        address: address.to_string(),
    }
}

fn connect(backend: &mut BleMidiBackend) {
    let probe = all_pass_probe();
    assert!(backend.start_scan(&probe));
    let seen = vec![widi("AA:BB:CC:DD:EE:FF")];
    let candidate = backend.scan_poll(&seen, 0);
    assert_eq!(candidate, Some(0));
    assert!(backend.try_establish(&seen[0], &good_attempt()));
    assert_eq!(backend.get_state(), BleConnectionState::Connected);
    backend.poll_events();
}

#[test]
fn prerequisite_failure_keeps_state_disconnected() {
    // Prerequisites all fail: four check events, then one issue and one
    // guidance error per failing check, and the state never leaves
    // Disconnected.
    let mut backend = BleMidiBackend::new_dummy();
    let proceed = backend.start_scan(&all_fail_probe());
    assert!(!proceed);
    assert_eq!(backend.get_state(), BleConnectionState::Disconnected);
    assert!(!backend.is_connected());

    let events = backend.poll_events();
    assert_eq!(events.len(), 12);
    for event in &events[0..4] {
        match event {
            BleEvent::PrerequisiteCheck(_, passed, _) => assert!(!passed),
            other => panic!("expected a prerequisite event, got {:?}", other),
        }
    }
    let issues: Vec<String> = events[4..8]
        .iter()
        .map(|e| match e {
            BleEvent::Error(m) => m.clone(),
            other => panic!("expected an error event, got {:?}", other),
        })
        .collect();
    assert_eq!(
        issues,
        vec![
            "BlueZ not installed".to_string(),
            "Bluetooth service not running".to_string(),
            "No Bluetooth adapter found".to_string(),
            "Bluetooth adapter not powered on".to_string(),
        ]
    );
    for event in &events[8..12] {
        match event {
            BleEvent::Error(m) => assert!(m.starts_with("Fix: ")),
            other => panic!("expected an error event, got {:?}", other),
        }
    }
}

#[test]
fn a_failing_check_always_carries_its_issue() {
    // Even when a diagnostic could not be run at all, the failing check
    // still contributes its issue and guidance line.
    let mut probe = all_pass_probe();
    probe.service_stdout = None;
    let report = check_ble_prerequisites(&probe);
    assert!(!report.bluetooth_service_running);
    assert_eq!(report.issues, vec!["Bluetooth service not running".to_string()]);
    assert_eq!(
        report.guidance,
        vec!["Start bluetooth: sudo systemctl enable --now bluetooth".to_string()]
    );
}

#[test]
fn prerequisite_checks_pass_on_healthy_host() {
    let report = check_ble_prerequisites(&all_pass_probe());
    assert!(report.bluetooth_installed);
    assert!(report.bluetooth_service_running);
    assert!(report.adapter_available);
    assert!(report.adapter_powered);
    assert!(report.all_passed());
    assert!(report.issues.is_empty());
    assert!(report.guidance.is_empty());
}

#[test]
fn prerequisite_checks_count_adapters() {
    let mut probe = all_pass_probe();
    probe.list_stdout = Some("Controller 00:11\nController 00:22\n".to_string());
    let report = check_ble_prerequisites(&probe);
    assert!(report.all_passed());
    assert_eq!(report.guidance.len(), 1);
    assert_eq!(
        report.guidance[0],
        "Multiple adapters detected (2). USB BLE dongle preferred for better BLE support."
    );
}

#[test]
fn widi_master_is_discovered_and_selected() {
    // A peripheral named "Widi Master" with no configured preference is
    // classified as MIDI-looking and picked for an automatic connection.
    let mut backend = ready_backend();
    assert!(backend.start_scan(&all_pass_probe()));
    backend.poll_events();

    let seen = vec![
        PeripheralProps {
            local_name: Some("Fitness Tracker".to_string()),
            address: "11:11:11:11:11:11".to_string(),
        },
        widi("AA:BB:CC:DD:EE:FF"),
    ];
    let candidate = backend.scan_poll(&seen, 0);
    assert_eq!(candidate, Some(1));
    assert_eq!(backend.get_state(), BleConnectionState::Connecting);

    let events = backend.poll_events();
    assert_eq!(events.len(), 2);
    match &events[0] {
        BleEvent::DeviceDiscovered(info) => {
            assert_eq!(info.name, "Widi Master");
            assert_eq!(info.address, "AA:BB:CC:DD:EE:FF");
        }
        other => panic!("expected a discovery event, got {:?}", other),
    }
    assert!(matches!(
        events[1],
        BleEvent::StateChanged(BleConnectionState::Connecting)
    ));
}

#[test]
fn missing_characteristic_never_connects() {
    // An otherwise connectable peripheral without the MIDI characteristic
    // fails the establish step and the state never becomes Connected.
    let mut backend = ready_backend();
    assert!(backend.start_scan(&all_pass_probe()));
    let seen = vec![widi("AA:BB:CC:DD:EE:FF")];
    assert_eq!(backend.scan_poll(&seen, 0), Some(0));

    let attempt = ConnectAttempt {
        connected: true,
        services_discovered: true,
        characteristics: vec![0x1800u128, 0x180Au128],
        subscribe_error: None,
    };
    assert!(!backend.try_establish(&seen[0], &attempt));
    assert_ne!(backend.get_state(), BleConnectionState::Connected);
    assert!(!backend.is_connected());

    backend.end_scan_window();
    assert_eq!(backend.get_state(), BleConnectionState::Disconnected);
}

#[test]
fn subscribe_failure_is_reported_but_tolerated() {
    let mut backend = ready_backend();
    assert!(backend.start_scan(&all_pass_probe()));
    let seen = vec![widi("AA:BB:CC:DD:EE:FF")];
    assert_eq!(backend.scan_poll(&seen, 0), Some(0));
    backend.poll_events();

    let attempt = ConnectAttempt {
        subscribe_error: Some("handle busy".to_string()),
        ..good_attempt()
    };
    assert!(backend.try_establish(&seen[0], &attempt));
    assert!(backend.is_connected());
    assert_eq!(backend.get_connected_device_name(), Some("Widi Master".to_string()));

    let events = backend.poll_events();
    assert_eq!(events.len(), 3);
    match &events[0] {
        BleEvent::Error(m) => assert_eq!(m, "Subscribe failed: handle busy"),
        other => panic!("expected an error event, got {:?}", other),
    }
    assert!(matches!(&events[1], BleEvent::Connected(n) if n == "Widi Master"));
    assert!(matches!(
        events[2],
        BleEvent::StateChanged(BleConnectionState::Connected)
    ));
}

#[test]
fn transport_probe_failure_fails_send_and_disconnects() {
    // Connect, then the connectivity probe reports false: the send fails,
    // the state flips to Disconnected, and the event pair is queued.
    let mut backend = ready_backend();
    connect(&mut backend);

    let link = LinkProbe {
        connected: false,
        characteristics: vec![BLE_MIDI_CHAR_UUID],
    };
    let data = vec![0x90u8, 60, 100];
    let result = backend.send_midi(&data, &link);
    assert_eq!(result.unwrap_err(), "Peripheral disconnected");
    assert_eq!(backend.get_state(), BleConnectionState::Disconnected);

    let events = backend.poll_events();
    assert_eq!(events.len(), 2);
    assert!(matches!(events[0], BleEvent::Disconnected));
    assert!(matches!(
        events[1],
        BleEvent::StateChanged(BleConnectionState::Disconnected)
    ));
}

#[test]
fn playback_is_a_noop_when_disconnected() {
    // The playback calls succeed without doing anything when no
    // connection is established.
    let mut backend = BleMidiBackend::new_dummy();
    let link = LinkProbe {
        connected: true,
        characteristics: vec![BLE_MIDI_CHAR_UUID],
    };
    assert_eq!(backend.play_note(60, 100, &link).unwrap(), None);
    assert_eq!(backend.stop_note(60, &link).unwrap(), None);
    assert_eq!(backend.stop_all(&link).unwrap(), None);
    let chord = vec![60u8, 64, 67];
    assert_eq!(backend.play_chord(&chord, 100, &link).unwrap(), Vec::<Vec<u8>>::new());
    assert!(backend.poll_events().is_empty());
}

#[test]
fn playback_frames_packets_when_connected() {
    let mut backend = ready_backend();
    connect(&mut backend);
    let link = LinkProbe {
        connected: true,
        characteristics: vec![BLE_MIDI_CHAR_UUID],
    };
    let packet = backend.play_note(60, 100, &link).unwrap().unwrap();
    assert_eq!(packet, vec![0x80, 0x80, 0x90, 60, 100]);
    let packet = backend.stop_note(60, &link).unwrap().unwrap();
    assert_eq!(packet, vec![0x80, 0x80, 0x80, 60, 0]);
    let packet = backend.stop_all(&link).unwrap().unwrap();
    assert_eq!(packet, vec![0x80, 0x80, 0xB0, 123, 0]);
    let packets = backend.play_chord(&vec![60u8, 64], 90, &link).unwrap();
    assert_eq!(packets.len(), 2);
    assert_eq!(packets[0], vec![0x80, 0x80, 0x90, 60, 90]);
    assert_eq!(packets[1], vec![0x80, 0x80, 0x90, 64, 90]);
}

#[test]
fn reconnect_attempts_increase_and_exhaust() {
    // Attempt numbers strictly increase one to five with the matching
    // Reconnecting state at each step; after the fifth failure the state
    // is Disconnected and the exhaustion error is queued.
    let mut backend = ready_backend();
    connect(&mut backend);

    assert!(backend.start_reconnect());
    let failing = ConnectAttempt {
        connected: false,
        services_discovered: false,
        characteristics: Vec::new(),
        subscribe_error: None,
    };
    for expected in 1..=5u32 {
        let issued = backend.reconnect_next().unwrap();
        assert_eq!(issued, expected);
        assert_eq!(
            backend.get_state(),
            BleConnectionState::Reconnecting(expected)
        );
        assert!(backoff_secs(issued) == 1 << (issued - 1));
        assert!(!backend.reconnect_establish_known(&failing));
    }
    assert_eq!(backend.reconnect_next(), None);
    assert_eq!(backend.get_state(), BleConnectionState::Disconnected);

    let events = backend.poll_events();
    let reconnecting: Vec<u32> = events
        .iter()
        .filter_map(|e| match e {
            BleEvent::StateChanged(BleConnectionState::Reconnecting(n)) => Some(*n),
            _ => None,
        })
        .collect();
    assert_eq!(reconnecting, vec![1, 2, 3, 4, 5]);
    assert!(events.iter().any(|e| matches!(
        e,
        BleEvent::Error(m) if m == "Reconnection failed after 5 attempts"
    )));
}

#[test]
fn reconnect_can_succeed_against_remembered_peripheral() {
    let mut backend = ready_backend();
    connect(&mut backend);

    assert!(backend.start_reconnect());
    assert_eq!(backend.reconnect_next(), Some(1));
    assert!(backend.reconnect_establish_known(&good_attempt()));
    assert!(backend.is_connected());

    let events = backend.poll_events();
    assert!(matches!(
        events.last().unwrap(),
        BleEvent::StateChanged(BleConnectionState::Connected)
    ));
}

#[test]
fn intentional_disconnect_disarms_recovery() {
    // After disconnect() the state is Disconnected, is_connected is
    // false, and the supervisor refuses to run.
    let mut backend = ready_backend();
    connect(&mut backend);

    backend.disconnect();
    assert_eq!(backend.get_state(), BleConnectionState::Disconnected);
    assert!(!backend.is_connected());
    // The remembered handle and device name return to their initial
    // empty values.
    assert!(!backend.has_peripheral());
    assert_eq!(backend.get_connected_device_name(), None);
    assert!(!backend.start_reconnect());

    let events = backend.poll_events();
    assert_eq!(events.len(), 1);
    assert!(matches!(
        events[0],
        BleEvent::StateChanged(BleConnectionState::Disconnected)
    ));
}

#[test]
fn poll_events_delivers_at_most_once() {
    // Draining twice with no intervening activity yields nothing the
    // second time.
    let mut backend = BleMidiBackend::new_dummy();
    backend.start_scan(&all_fail_probe());
    let first = backend.poll_events();
    assert!(!first.is_empty());
    let second = backend.poll_events();
    assert!(second.is_empty());
}

#[test]
fn preferred_address_overrides_the_heuristic() {
    let mut backend = ready_backend();
    backend.set_preferred_device(Some("11:11".to_string()));
    assert!(backend.start_scan(&all_pass_probe()));
    backend.poll_events();

    let seen = vec![
        widi("AA:BB:CC:DD:EE:FF"),
        PeripheralProps {
            local_name: Some("Plain Speaker".to_string()),
            address: "11:11:11:11:11:11".to_string(),
        },
    ];
    // The MIDI-looking device is reported but not selected; the preferred
    // address wins.
    let candidate = backend.scan_poll(&seen, 0);
    assert_eq!(candidate, Some(1));
}

#[test]
fn nameless_and_addressless_sightings_are_discarded() {
    let mut backend = ready_backend();
    assert!(backend.start_scan(&all_pass_probe()));
    backend.poll_events();

    let seen = vec![PeripheralProps {
        local_name: None,
        address: String::new(),
    }];
    assert_eq!(backend.scan_poll(&seen, 0), None);
    assert!(backend.poll_events().is_empty());
}

#[test]
fn scan_window_expiry_reverts_to_disconnected() {
    let mut backend = ready_backend();
    assert!(backend.start_scan(&all_pass_probe()));
    backend.poll_events();
    backend.end_scan_window();
    assert_eq!(backend.get_state(), BleConnectionState::Disconnected);
    let events = backend.poll_events();
    assert_eq!(events.len(), 1);
    assert!(matches!(
        events[0],
        BleEvent::StateChanged(BleConnectionState::Disconnected)
    ));
}

#[test]
fn midi_name_heuristic() {
    assert!(classify_midi_name("Widi Master"));
    assert!(classify_midi_name("yamaha md-bt01"));
    assert!(classify_midi_name("KORG microKEY"));
    assert!(classify_midi_name("Roland GO:PIANO"));
    assert!(classify_midi_name("Some MIDI Thing"));
    assert!(!classify_midi_name("Kitchen Speaker"));
    assert!(!classify_midi_name(""));
}

#[test]
fn adapter_selection_prefers_the_usb_dongle() {
    let infos = vec![
        "hci0 built-in".to_string(),
        "hci1 dongle 60:F8:1D:CA:DF:95".to_string(),
    ];
    assert_eq!(select_adapter(&infos), Some(1));
    let plain = vec!["hci0 built-in".to_string()];
    assert_eq!(select_adapter(&plain), Some(0));
    assert_eq!(select_adapter(&Vec::new()), None);
}

#[test]
fn construction_without_adapters_reports_the_failure() {
    // With no radio at all, construction fails, but the failure is also
    // queued as an error event on the inert manager that comes back.
    let mut fallback = match BleMidiBackend::new(&Vec::new()) {
        Ok(_) => panic!("construction without adapters must not succeed"),
        Err(b) => b,
    };
    assert_eq!(fallback.get_state(), BleConnectionState::Disconnected);
    let events = fallback.poll_events();
    assert_eq!(events.len(), 1);
    assert!(matches!(&events[0], BleEvent::Error(m) if m == "No Bluetooth adapter found"));
}

#[test]
fn discoveries_are_deduplicated_by_address() {
    // The same peripheral sighted in two polls of one scan pass yields
    // exactly one DeviceDiscovered event.
    let mut backend = ready_backend();
    assert!(backend.start_scan(&all_pass_probe()));
    backend.poll_events();

    let seen = vec![widi("AA:BB:CC:DD:EE:FF")];
    assert_eq!(backend.scan_poll(&seen, 0), Some(0));
    let failing = ConnectAttempt {
        connected: false,
        services_discovered: false,
        characteristics: Vec::new(),
        subscribe_error: None,
    };
    assert!(!backend.try_establish(&seen[0], &failing));
    assert_eq!(backend.scan_poll(&seen, 1), None);
    let first_poll = backend.poll_events();
    assert_eq!(
        first_poll
            .iter()
            .filter(|e| matches!(e, BleEvent::DeviceDiscovered(_)))
            .count(),
        1
    );

    // The next 500ms poll of the same pass sights the device again: it
    // is selected again, but not reported again.
    assert_eq!(backend.scan_poll(&seen, 0), Some(0));
    let second_poll = backend.poll_events();
    assert_eq!(second_poll.len(), 1);
    assert!(matches!(
        second_poll[0],
        BleEvent::StateChanged(BleConnectionState::Connecting)
    ));

    // A fresh pass reports the device anew.
    backend.end_scan_window();
    assert!(backend.start_scan(&all_pass_probe()));
    assert_eq!(backend.scan_poll(&seen, 0), Some(0));
    let fresh_pass = backend.poll_events();
    assert_eq!(
        fresh_pass
            .iter()
            .filter(|e| matches!(e, BleEvent::DeviceDiscovered(_)))
            .count(),
        1
    );
}

#[test]
fn automatic_scans_run_once_per_session() {
    // The gated entry starts at most one automatic scan; a forced rescan
    // disconnects first and scans regardless.
    let mut backend = ready_backend();
    assert_eq!(backend.auto_start_scan(&all_pass_probe()), Some(true));
    assert_eq!(backend.get_state(), BleConnectionState::Scanning);
    assert_eq!(backend.auto_start_scan(&all_pass_probe()), None);

    let seen = vec![widi("AA:BB:CC:DD:EE:FF")];
    assert_eq!(backend.scan_poll(&seen, 0), Some(0));
    assert!(backend.try_establish(&seen[0], &good_attempt()));
    backend.poll_events();

    let proceed = backend.force_rescan(&all_pass_probe());
    assert!(proceed);
    assert_eq!(backend.get_state(), BleConnectionState::Scanning);
    assert!(!backend.has_peripheral());
    let events = backend.poll_events();
    assert!(matches!(
        events[0],
        BleEvent::StateChanged(BleConnectionState::Disconnected)
    ));
    assert!(matches!(
        events.last().unwrap(),
        BleEvent::StateChanged(BleConnectionState::Scanning)
    ));
}

#[test]
fn packet_framing_prefixes_the_timestamp_header() {
    let packet = encode_ble_midi_packet(&vec![0x90u8, 60, 100]);
    assert_eq!(packet, vec![0x80, 0x80, 0x90, 60, 100]);
    let empty = encode_ble_midi_packet(&Vec::new());
    assert_eq!(empty, vec![0x80, 0x80]);
}

#[test]
fn send_without_peripheral_fails_cleanly() {
    let mut backend = BleMidiBackend::new_dummy();
    let link = LinkProbe {
        connected: true,
        characteristics: vec![BLE_MIDI_CHAR_UUID],
    };
    let err = backend.send_midi(&vec![0x90u8, 60, 100], &link).unwrap_err();
    assert_eq!(err, "No peripheral connected");
    assert!(backend.poll_events().is_empty());
}

#[test]
fn status_snapshot_follows_events() {
    let mut status = BleStatus::default();
    assert!(matches!(
        status.apply_event(BleEvent::StateChanged(BleConnectionState::Connected)),
        StatusAction::Nothing
    ));
    assert_eq!(status.state, BleConnectionState::Connected);

    // A discovery while connected is remembered in the configuration.
    let info = ear_trainer::ble_midi::BleDeviceInfo {
        id: "AA".to_string(),
        name: "Widi Master".to_string(),
        address: "AA".to_string(),
    };
    match status.apply_event(BleEvent::DeviceDiscovered(info)) {
        StatusAction::RememberDevice(address, name) => {
            assert_eq!(address, "AA");
            assert_eq!(name, "Widi Master");
        }
        other => panic!("expected a remember action, got {:?}", other),
    }

    // An unexpected loss of an established link starts recovery.
    assert!(matches!(
        status.apply_event(BleEvent::Disconnected),
        StatusAction::StartReconnect
    ));

    status.apply_event(BleEvent::Error("radio gone".to_string()));
    assert_eq!(status.last_error, Some("radio gone".to_string()));

    status.apply_event(BleEvent::PrerequisiteCheck(
        "BlueZ installed".to_string(),
        true,
        "OK".to_string(),
    ));
    assert_eq!(status.prerequisites.len(), 1);
    status.apply_event(BleEvent::PrerequisiteCheck(
        "BlueZ installed".to_string(),
        false,
        "Install".to_string(),
    ));
    assert_eq!(status.prerequisites.len(), 1);
    assert!(!status.prerequisites[0].passed);

    status.apply_event(BleEvent::Connected("Widi Master".to_string()));
    assert_eq!(status.device_name, Some("Widi Master".to_string()));
    assert_eq!(status.last_error, None);
    assert!(status.prerequisites.is_empty());
}

#[test]
fn scan_start_failure_is_reported() {
    let mut backend = ready_backend();
    assert!(backend.start_scan(&all_pass_probe()));
    backend.poll_events();
    backend.scan_start_failed("radio busy");
    let events = backend.poll_events();
    assert_eq!(events.len(), 1);
    assert!(matches!(&events[0], BleEvent::Error(m) if m == "Scan failed: radio busy"));
    // The pass never completed, so the window close reverts the state.
    backend.end_scan_window();
    assert_eq!(backend.get_state(), BleConnectionState::Disconnected);
}

#[test]
fn disconnect_during_recovery_ends_the_run() {
    let mut backend = ready_backend();
    connect(&mut backend);
    assert!(backend.start_reconnect());
    assert_eq!(backend.reconnect_next(), Some(1));
    // The user disconnects while the supervisor sleeps: the flag is
    // cleared, so the next step terminates the run.
    backend.disconnect();
    assert_eq!(backend.reconnect_next(), None);
    assert_eq!(backend.get_state(), BleConnectionState::Disconnected);
    assert!(!backend.start_reconnect());
}

#[test]
fn preference_changes_do_not_affect_a_running_scan() {
    let mut backend = ready_backend();
    assert!(backend.start_scan(&all_pass_probe()));
    backend.poll_events();
    // The hint set after the scan started applies only to future passes.
    backend.set_preferred_device(Some("11:11".to_string()));
    let seen = vec![
        PeripheralProps {
            local_name: Some("Plain Speaker".to_string()),
            address: "11:11:11:11:11:11".to_string(),
        },
        widi("AA:BB:CC:DD:EE:FF"),
    ];
    // Without a snapshot hint the heuristic picks the MIDI-looking name.
    assert_eq!(backend.scan_poll(&seen, 0), Some(1));
}

#[test]
fn known_devices_are_updated_in_place() {
    let mut config = AudioConfig::default();
    config.add_known_device("AA".to_string(), "Widi".to_string(), 100);
    config.add_known_device("BB".to_string(), "Korg".to_string(), 200);
    config.add_known_device("AA".to_string(), "Widi Master".to_string(), 300);
    assert_eq!(config.known_ble_devices.len(), 2);
    assert_eq!(config.known_ble_devices[0].name, "Widi Master");
    assert_eq!(config.known_ble_devices[0].last_connected, 300);
    assert_eq!(config.preferred_ble_device, Some("AA".to_string()));
}
