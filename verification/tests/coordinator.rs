use linuxpods::aap::battery::{Battery, BatteryInfo, BatteryParseError, Component, Status};
use linuxpods::aap::link::{DeviceCommand, SwitchFailure};
use linuxpods::aap::noise::NoiseMode;
use linuxpods::ble::{PodSide, ProximityData};
use linuxpods::coordinator::{identify, Coordinator, PacketReport, ReadAction, ReadEvent};
use linuxpods::mac_map::MacMap;
use linuxpods::podstate::DataSource;

const NOW: u128 = 1_000_000_000_000_000;

fn secs(n: u128) -> u128 {
    n * 1_000_000_000
}

fn with_keys(keys: &[(&str, u8)]) -> Coordinator {
    let mut map = MacMap::new();
    for (mac, key) in keys {
        map.insert(mac.to_string(), vec![*key; 16]);
    }
    Coordinator::new(Ok::<_, String>(map))
}

fn advertisement() -> ProximityData {
    ProximityData {
        left_battery: Some(80),
        right_battery: Some(70),
        case_battery: None,
        left_charging: false,
        right_charging: true,
        case_charging: false,
        left_in_ear: true,
        right_in_ear: false,
        lid_open: Some(true),
        connection_state: 5,
        device_model: 0x2014,
        model_name: "AirPods Pro 2".to_string(),
        color: 3,
        primary_pod: PodSide::Right,
        encrypted_portion: Some(vec![9; 16]),
    }
}

fn no_key(_: &Vec<u8>, _: &Vec<u8>, _: &String) -> Option<ProximityData> {
    None
}

fn battery(component: Component, level: u8, status: Status) -> Option<Battery> {
    Some(Battery {
        component,
        level,
        status,
    })
}

/// The window must not come up blank when no device is connected and none is in
/// range.
#[test]
fn subscribe_delivers_current_state_immediately() {
    let mut coordinator = with_keys(&[("bb", 1), ("aa", 2)]);
    let rx = coordinator.subscribe();

    let snapshot = rx
        .try_recv()
        .expect("a subscriber must receive the current state without waiting");

    // The snapshot must carry the loaded key list so that known devices can be
    // shown before anything is heard over the air.
    assert_eq!(snapshot.known_keys.len(), coordinator.known_key_count());
    assert_eq!(snapshot.known_keys, vec!["aa", "bb"]);
    assert!(coordinator.has_encryption_keys());
}

#[test]
fn keys_that_cannot_be_loaded_leave_none() {
    let coordinator = Coordinator::new(Err("no such file"));
    assert!(!coordinator.has_encryption_keys());
    assert_eq!(coordinator.known_key_count(), 0);
    assert_eq!(coordinator.device_count(), 0);
    assert_eq!(coordinator.connected_mac(), None);
}

/// The case must not show a confident 0% the moment the earbuds come out of it.
#[test]
fn a_disconnected_case_reports_no_battery_rather_than_zero() {
    let mut coordinator = with_keys(&[]);
    let rx = coordinator.subscribe();
    let _ = rx.try_recv();

    // Earbuds in the ears, case shut and reporting nothing: status 4.
    let info = BatteryInfo {
        left: battery(Component::Left, 100, Status::Discharging),
        right: None,
        case: battery(Component::Case, 0, Status::Disconnected),
    };
    coordinator.handle_battery_info(info, "aa", NOW);

    let snapshot = rx.try_recv().expect("a snapshot per battery packet");
    let state = snapshot.states.get("aa").unwrap();
    assert_eq!(state.left_battery, Some(100), "a real reading survives");
    assert_eq!(
        state.case_battery, None,
        "a disconnected case has no level to show"
    );
    assert!(!state.case_charging);
}

#[test]
fn a_battery_packet_carries_the_identity_forward() {
    let mut coordinator = with_keys(&[("aa", 1)]);
    coordinator.record_advertisement(advertisement(), Some("aa".into()), "r1".into(), NOW);
    let info = BatteryInfo {
        left: battery(Component::Left, 55, Status::Charging),
        right: None,
        case: None,
    };
    coordinator.handle_battery_info(info, "aa", NOW + 1);

    let snapshot = coordinator.inner.snapshot();
    let state = snapshot.states.get("aa").unwrap();
    assert_eq!(state.source, DataSource::Aap);
    assert_eq!(state.left_battery, Some(55));
    assert!(state.left_charging);
    assert_eq!(state.right_battery, None);
    assert_eq!(state.device_model, 0x2014);
    assert_eq!(state.model_name, "AirPods Pro 2");
    assert_eq!(state.color, 3);
    assert_eq!(state.primary_pod, PodSide::Right);
    assert_eq!(state.connection_state, None);
    assert_eq!(state.lid_open, None);
    assert!(!state.left_in_ear);
    assert_eq!(state.real_mac, "aa");
    assert_eq!(state.current_ble_mac, "");
    assert_eq!(state.encryption_key, Some(vec![1; 16]));
    assert!(state.identified);
}

#[test]
fn an_unidentified_advertisement_is_kept_under_the_address_it_came_from() {
    let mut coordinator = with_keys(&[("aa", 1), ("bb", 2)]);
    coordinator.handle_advertisement(advertisement(), "random".into(), no_key, NOW);

    let snapshot = coordinator.inner.snapshot();
    assert_eq!(snapshot.states.len(), 1);
    let state = snapshot.states.get("random").unwrap();
    assert!(!state.identified);
    assert_eq!(state.source, DataSource::Ble);
    assert_eq!(state.real_mac, "");
    assert_eq!(state.current_ble_mac, "random");
    assert_eq!(state.connection_state, Some(5));
    assert_eq!(state.left_battery, Some(80));
    assert_eq!(state.right_battery, Some(70));
    assert_eq!(state.case_battery, None);
    assert!(state.right_charging && !state.left_charging);
    assert!(state.left_in_ear && !state.right_in_ear);
    assert_eq!(state.lid_open, Some(true));
    assert_eq!(state.noise_mode, None);
    assert_eq!(state.encryption_key, None);
    assert!(snapshot.primary().is_none());
}

#[test]
fn the_key_that_reads_an_advertisement_identifies_its_sender() {
    let mut coordinator = with_keys(&[("aa", 1), ("bb", 2), ("cc", 3)]);
    coordinator.handle_advertisement(
        advertisement(),
        "random".into(),
        |encrypted, key, mac| {
            if encrypted == &vec![9; 16] && key == &vec![2; 16] && mac == "bb" {
                Some(ProximityData {
                    left_battery: Some(83),
                    ..advertisement()
                })
            } else {
                None
            }
        },
        NOW,
    );

    let snapshot = coordinator.inner.snapshot();
    assert_eq!(snapshot.states.len(), 1);
    let state = snapshot.states.get("bb").unwrap();
    assert!(state.identified);
    assert_eq!(state.left_battery, Some(83));
    assert_eq!(state.real_mac, "bb");
    assert_eq!(state.current_ble_mac, "random");
    assert_eq!(state.encryption_key, Some(vec![2; 16]));
}

#[test]
fn without_an_encrypted_portion_no_key_is_tried() {
    let coordinator = with_keys(&[("aa", 1)]);
    let mut data = ProximityData {
        encrypted_portion: None,
        ..advertisement()
    };
    let found = coordinator.identify_and_decrypt(&mut data, |_, _, _| {
        panic!("there is nothing to decrypt")
    });
    assert_eq!(found, None);
    assert_eq!(data.left_battery, Some(80));
}

#[test]
fn a_link_supersedes_only_its_own_device() {
    let mut coordinator = with_keys(&[]);
    let rx = coordinator.subscribe();
    coordinator.connect_aap("aa");
    let _ = rx.try_recv();
    assert_eq!(
        rx.try_recv().unwrap().connected_mac,
        Some("aa".to_string()),
        "a connection is announced"
    );

    coordinator.record_advertisement(advertisement(), Some("aa".into()), "r1".into(), NOW);
    assert_eq!(coordinator.device_count(), 0);
    assert!(rx.try_recv().is_err(), "nothing changed, nothing to tell");

    coordinator.record_advertisement(advertisement(), Some("bb".into()), "r2".into(), NOW);
    assert!(rx.try_recv().unwrap().states.contains_key("bb"));
}

#[test]
fn publishing_drops_what_has_gone_stale() {
    let mut coordinator = with_keys(&[]);
    coordinator.record_advertisement(advertisement(), None, "old".into(), NOW);
    coordinator.record_advertisement(advertisement(), None, "mid".into(), NOW + secs(60));
    assert_eq!(coordinator.device_count(), 2);
    coordinator.record_advertisement(advertisement(), None, "new".into(), NOW + secs(120));
    assert_eq!(coordinator.device_count(), 3);
    coordinator.record_advertisement(advertisement(), None, "new".into(), NOW + secs(120) + 1);
    assert_eq!(coordinator.device_count(), 2);
    assert!(!coordinator.inner.devices.contains_key("old"));
}

#[test]
fn hanging_up_forgets_the_aap_reading_and_tells_everyone() {
    let mut coordinator = with_keys(&[("aa", 1)]);
    coordinator.connect_aap("aa");
    coordinator.handle_battery_info(BatteryInfo::default(), "aa", NOW);
    coordinator.record_advertisement(advertisement(), None, "r".into(), NOW);
    let rx = coordinator.subscribe();
    assert_eq!(rx.try_recv().unwrap().states.len(), 2);

    coordinator.disconnect_aap();
    let snapshot = rx.try_recv().unwrap();
    assert_eq!(snapshot.connected_mac, None);
    assert!(!snapshot.states.contains_key("aa"));
    assert!(snapshot.states.contains_key("r"));
    assert_eq!(snapshot.known_keys, vec!["aa"]);

    coordinator.disconnect_aap();
    assert!(rx.try_recv().is_ok(), "told again even without a link");
}

#[test]
fn every_subscriber_receives_every_snapshot() {
    let mut coordinator = with_keys(&[]);
    let first = coordinator.subscribe();
    let second = coordinator.subscribe();
    let gone = coordinator.subscribe();
    drop(gone);
    assert_eq!(coordinator.subscribers.len(), 3);

    coordinator.connect_aap("aa");
    coordinator.connect_aap("bb");
    assert_eq!(coordinator.subscribers.len(), 2);
    for rx in [&first, &second] {
        let seen: Vec<Option<String>> = std::iter::from_fn(|| rx.try_recv().ok())
            .map(|s| s.connected_mac)
            .collect();
        assert_eq!(
            seen,
            vec![None, Some("aa".to_string()), Some("bb".to_string())]
        );
    }
}

#[test]
fn unchanged_names_are_not_told_again() {
    let mut coordinator = with_keys(&[]);
    let rx = coordinator.subscribe();
    let _ = rx.try_recv();

    let mut names = MacMap::new();
    names.insert("AA".to_string(), "Mine".to_string());
    coordinator.set_device_names(names.clone());
    assert_eq!(rx.try_recv().unwrap().device_name("aa"), Some("Mine"));

    coordinator.set_device_names(names);
    assert!(rx.try_recv().is_err());

    coordinator.set_device_names(MacMap::new());
    assert_eq!(rx.try_recv().unwrap().device_name("aa"), None);
}

#[test]
fn an_unchanged_mode_is_not_told_again() {
    let mut coordinator = with_keys(&[]);
    let rx = coordinator.subscribe();
    let _ = rx.try_recv();

    coordinator.handle_noise_mode(NoiseMode::Adaptive, "aa");
    assert!(rx.try_recv().is_ok());
    coordinator.handle_noise_mode(NoiseMode::Adaptive, "aa");
    assert!(rx.try_recv().is_err());
    coordinator.handle_noise_mode(NoiseMode::Off, "aa");
    assert!(rx.try_recv().is_ok());
}

#[test]
fn a_mode_is_set_for_the_connected_device() {
    let mut coordinator = with_keys(&[]);
    let rx = coordinator.subscribe();
    let _ = rx.try_recv();

    assert_eq!(
        coordinator.set_noise_control(NoiseMode::Transparency, true, &[true]),
        Ok(())
    );
    assert!(rx.try_recv().is_err(), "no link, no device to set it for");

    coordinator.connect_aap("aa");
    coordinator.handle_battery_info(BatteryInfo::default(), "aa", NOW);
    coordinator
        .set_noise_control(NoiseMode::NoiseCancellation, true, &[true])
        .unwrap();
    let last = std::iter::from_fn(|| rx.try_recv().ok()).last().unwrap();
    assert_eq!(
        last.states.get("aa").unwrap().noise_mode,
        Some(NoiseMode::NoiseCancellation)
    );
}

#[test]
fn a_stored_key_is_listed_and_shown() {
    let mut coordinator = with_keys(&[("zz", 1)]);
    coordinator.record_advertisement(advertisement(), None, "aa".into(), NOW);
    let rx = coordinator.subscribe();
    let _ = rx.try_recv();

    coordinator.store_encryption_key("aa", &vec![7; 16]);
    assert!(rx.try_recv().is_err(), "announced once it has been saved");
    coordinator.announce();
    let snapshot = rx.try_recv().unwrap();
    assert_eq!(snapshot.known_keys, vec!["aa", "zz"]);
    assert_eq!(
        snapshot.states.get("aa").unwrap().encryption_key,
        Some(vec![7; 16])
    );
    assert_eq!(coordinator.known_key_count(), 2);
}

#[test]
fn the_read_loop_stops_when_the_link_is_gone() {
    let mut coordinator = with_keys(&[]);
    assert!(matches!(
        coordinator.aap_read_step(ReadEvent::ClientGone, "aa", NOW),
        ReadAction::Exit
    ));
    assert!(matches!(
        coordinator.aap_read_step(ReadEvent::Failed, "aa", NOW),
        ReadAction::HangUp
    ));
}

#[test]
fn the_read_loop_takes_in_what_a_packet_reports() {
    let mut coordinator = with_keys(&[]);
    coordinator.connect_aap("aa");
    let battery_packet = vec![4, 0, 4, 0, 4, 0, 1, 4, 1, 80, 2, 1];

    match coordinator.aap_read_step(
        ReadEvent::Packet(PacketReport {
            bytes: battery_packet.clone(),
            noise_mode: Some(NoiseMode::Adaptive),
            encryption_key: Some(vec![5; 16]),
        }),
        "aa",
        NOW,
    ) {
        ReadAction::Continue {
            battery_error,
            save_key,
        } => {
            assert_eq!(battery_error, None);
            assert_eq!(save_key, Some(vec![5; 16]));
        }
        _ => panic!("the loop goes on"),
    }
    let snapshot = coordinator.inner.snapshot();
    let state = snapshot.states.get("aa").unwrap();
    assert_eq!(state.left_battery, Some(80));
    assert_eq!(state.noise_mode, Some(NoiseMode::Adaptive));
    assert_eq!(state.encryption_key, Some(vec![5; 16]));

    // A battery packet that ends too soon changes nothing and is complained about.
    match coordinator.aap_read_step(
        ReadEvent::Packet(PacketReport {
            bytes: battery_packet[..9].to_vec(),
            noise_mode: None,
            encryption_key: None,
        }),
        "aa",
        NOW,
    ) {
        ReadAction::Continue {
            battery_error,
            save_key,
        } => {
            assert_eq!(battery_error, Some(BatteryParseError::Incomplete(7)));
            assert_eq!(save_key, None);
        }
        _ => panic!("the loop goes on"),
    }
    // A packet of another kind is not.
    match coordinator.aap_read_step(
        ReadEvent::Packet(PacketReport {
            bytes: vec![4, 0, 4, 0, 9, 0, 1],
            noise_mode: None,
            encryption_key: None,
        }),
        "aa",
        NOW,
    ) {
        ReadAction::Continue { battery_error, .. } => assert_eq!(battery_error, None),
        _ => panic!("the loop goes on"),
    }
}

#[test]
fn every_entry_agrees_with_its_address() {
    let mut coordinator = with_keys(&[("aa", 1)]);
    coordinator.record_advertisement(advertisement(), None, "r".into(), NOW);
    coordinator.record_advertisement(advertisement(), Some("aa".into()), "s".into(), NOW);
    coordinator.connect_aap("bb");
    coordinator.handle_battery_info(BatteryInfo::default(), "bb", NOW);
    coordinator.store_encryption_key("bb", &vec![4; 16]);
    coordinator.handle_noise_mode(NoiseMode::Off, "aa");

    let snapshot = coordinator.inner.snapshot();
    for mac in ["r", "aa", "bb"] {
        let state = snapshot.states.get(mac).unwrap();
        if state.identified {
            assert_eq!(state.real_mac, mac);
        } else {
            assert_eq!(state.current_ble_mac, mac);
        }
        assert_eq!(
            state.encryption_key.as_ref(),
            coordinator.inner.encryption_keys.get(mac)
        );
        assert_eq!(state.noise_mode, None);
    }
}

#[test]
fn the_last_mode_is_shown_only_while_the_link_is_up() {
    let mut coordinator = with_keys(&[]);
    coordinator.connect_aap("aa");
    coordinator.handle_noise_mode(NoiseMode::Adaptive, "aa");
    coordinator
        .set_noise_control(NoiseMode::Transparency, true, &[true])
        .unwrap();
    coordinator.handle_noise_mode(NoiseMode::Off, "bb");
    coordinator.handle_battery_info(BatteryInfo::default(), "aa", NOW);
    let mode = |c: &Coordinator| c.inner.snapshot().states.get("aa").unwrap().noise_mode;
    assert_eq!(mode(&coordinator), Some(NoiseMode::Transparency));

    coordinator.disconnect_aap();
    coordinator.record_advertisement(advertisement(), Some("aa".into()), "r".into(), NOW);
    assert_eq!(mode(&coordinator), None);

    coordinator.connect_aap("aa");
    assert_eq!(mode(&coordinator), Some(NoiseMode::Transparency));
}

#[test]
fn a_key_is_replaced_only_by_a_new_one_from_its_device() {
    let mut coordinator = with_keys(&[("aa", 1)]);
    coordinator.connect_aap("aa");
    coordinator.store_encryption_key("bb", &vec![2; 16]);
    coordinator.handle_battery_info(BatteryInfo::default(), "aa", NOW);
    coordinator.disconnect_aap();
    coordinator.record_advertisement(advertisement(), None, "r".into(), NOW + secs(1000));
    assert_eq!(coordinator.inner.encryption_keys.get("aa"), Some(&vec![1; 16]));

    coordinator.store_encryption_key("aa", &vec![3; 16]);
    assert_eq!(coordinator.inner.encryption_keys.get("aa"), Some(&vec![3; 16]));
    assert_eq!(coordinator.known_key_count(), 2);
}

#[test]
fn a_failed_command_records_nothing() {
    let mut coordinator = with_keys(&[]);
    coordinator.connect_aap("aa");
    let rx = coordinator.subscribe();
    let _ = rx.try_recv();

    assert_eq!(
        coordinator.set_noise_control(NoiseMode::Adaptive, false, &[true]),
        Err(SwitchFailure::NoConnection)
    );
    assert_eq!(
        coordinator.set_noise_control(NoiseMode::Adaptive, true, &[false]),
        Err(SwitchFailure::Command(DeviceCommand::SetNoiseMode(
            NoiseMode::Adaptive
        )))
    );
    assert_eq!(
        coordinator.set_noise_control(NoiseMode::Off, true, &[false]),
        Err(SwitchFailure::Command(
            DeviceCommand::AllowOffListeningMode(true)
        ))
    );
    for outcomes in [vec![true], vec![true, false]] {
        assert_eq!(
            coordinator.set_noise_control(NoiseMode::Off, true, &outcomes),
            Err(SwitchFailure::Command(DeviceCommand::SetNoiseMode(
                NoiseMode::Off
            )))
        );
    }
    assert!(rx.try_recv().is_err(), "nobody is told of a failed command");
    assert!(coordinator.inner.noise_modes.is_empty());

    assert_eq!(
        coordinator.set_noise_control(NoiseMode::Off, true, &[true, true]),
        Ok(())
    );
    assert!(rx.try_recv().is_ok());
    assert_eq!(
        coordinator.inner.noise_modes.get("aa"),
        Some(&NoiseMode::Off)
    );
}

#[test]
fn an_advertisement_says_whether_it_was_taken_in() {
    let mut coordinator = with_keys(&[]);
    coordinator.connect_aap("aa");
    assert!(!coordinator.record_advertisement(
        advertisement(),
        Some("aa".into()),
        "r".into(),
        NOW
    ));
    assert!(coordinator.record_advertisement(advertisement(), None, "r".into(), NOW));
}

#[test]
fn copied_keys_identify_a_sender_too() {
    let coordinator = with_keys(&[("aa", 1), ("bb", 2)]);
    let keys = coordinator.keys_to_try();
    assert_eq!(keys.len(), 2);
    let mut data = advertisement();
    let found = identify(&keys, &mut data, |_, key, _| {
        if key[0] == 2 {
            let mut revealed = advertisement();
            revealed.left_battery = Some(83);
            Some(revealed)
        } else {
            None
        }
    });
    assert_eq!(found, Some("bb".to_string()));
    assert_eq!(data.left_battery, Some(83));
}

#[test]
fn a_closed_subscriber_is_dropped_and_the_others_keep_their_order() {
    let mut coordinator = with_keys(&[]);
    let first = coordinator.subscribe();
    let second = coordinator.subscribe();
    let third = coordinator.subscribe();
    drop(second);
    coordinator.connect_aap("aa");
    assert_eq!(coordinator.subscribers.len(), 2);
    for rx in [&first, &third] {
        assert_eq!(rx.try_recv().unwrap().connected_mac, None);
        assert_eq!(rx.try_recv().unwrap().connected_mac.as_deref(), Some("aa"));
        assert!(rx.try_recv().is_err(), "one copy each");
    }
}
