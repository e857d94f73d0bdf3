use linuxpods::aap::noise::NoiseMode;
use linuxpods::inner::{Entry, Inner};
use linuxpods::mac_map::MacMap;
use linuxpods::podstate::{supersedes_ble, DataSource, PodState, Snapshot, DEVICE_TTL};

/// A moment, in nanoseconds, with plenty of time before it.
const NOW: u128 = 1_000_000_000_000_000;

fn secs(n: u128) -> u128 {
    n * 1_000_000_000
}

fn entry(age: u128) -> Entry {
    Entry {
        state: PodState::default(),
        last_seen: NOW - age,
    }
}

fn inner_with(devices: Vec<(&str, u128)>) -> Inner {
    let mut map = MacMap::new();
    for (mac, age) in devices {
        map.insert(mac.to_string(), entry(age));
    }
    Inner {
        devices: map,
        encryption_keys: MacMap::new(),
        connected_mac: None,
        device_names: MacMap::new(),
        noise_modes: MacMap::new(),
    }
}

#[test]
fn prune_drops_only_stale_devices() {
    let mut inner = inner_with(vec![("fresh", secs(1)), ("stale", secs(300))]);
    inner.prune(NOW, DEVICE_TTL);

    assert!(inner.devices.contains_key("fresh"));
    assert!(!inner.devices.contains_key("stale"));
}

#[test]
fn prune_keeps_a_device_at_exactly_its_time() {
    let mut inner = inner_with(vec![("just in", secs(120)), ("just out", secs(120) + 1)]);
    inner.prune(NOW, DEVICE_TTL);

    assert!(inner.devices.contains_key("just in"));
    assert!(!inner.devices.contains_key("just out"));
}

#[test]
fn prune_takes_a_later_moment_for_now() {
    let mut inner = inner_with(vec![]);
    inner.devices.insert(
        "ahead".to_string(),
        Entry {
            state: PodState::default(),
            last_seen: NOW + secs(500),
        },
    );
    inner.prune(NOW, DEVICE_TTL);
    assert!(inner.devices.contains_key("ahead"));
    inner.prune(NOW, 0);
    assert!(inner.devices.contains_key("ahead"));
    inner.prune(NOW + secs(500) + 1, 0);
    assert!(!inner.devices.contains_key("ahead"));
}

/// A run of rotating BLE addresses must not grow the map without bound.
#[test]
fn rotating_ble_macs_do_not_accumulate() {
    let mut inner = inner_with(vec![]);
    let start = NOW;

    // 500 rotations, one every 30s - far past the TTL.
    for i in 0..500 {
        let now = start + secs(i * 30);
        inner.devices.insert(
            format!("random-mac-{i}"),
            Entry {
                state: PodState::default(),
                last_seen: now,
            },
        );
        inner.prune(now, DEVICE_TTL);
    }

    // Only entries inside the 120s window survive.
    assert!(
        inner.devices.len() <= 5,
        "expected bounded map, got {} entries",
        inner.devices.len()
    );
    assert_eq!(inner.devices.len(), 5);
}

/// A dropped AAP link must not leave the device reported as on AAP.
#[test]
fn disconnect_drops_stale_aap_state() {
    let mut inner = inner_with(vec![]);
    inner.devices.insert(
        "aa".into(),
        Entry {
            state: PodState {
                source: DataSource::Aap,
                ..Default::default()
            },
            last_seen: NOW,
        },
    );

    inner.drop_aap_state("aa");
    assert!(!inner.devices.contains_key("aa"));
}

#[test]
fn disconnect_keeps_ble_state() {
    let mut inner = inner_with(vec![]);
    inner.devices.insert(
        "aa".into(),
        Entry {
            state: PodState {
                source: DataSource::Ble,
                ..Default::default()
            },
            last_seen: NOW,
        },
    );

    // A BLE reading is still the best we have; only AAP state goes stale here.
    inner.drop_aap_state("aa");
    assert!(inner.devices.contains_key("aa"));
}

/// The mode is only reported over AAP, so it may only be shown for the device that
/// link is up to. Attached in `snapshot` rather than carried on every battery
/// packet.
#[test]
fn snapshot_attaches_the_mode_to_the_connected_device_only() {
    let mut inner = inner_with(vec![("aa", secs(1)), ("bb", secs(1))]);
    inner.noise_modes.insert("aa".into(), NoiseMode::Adaptive);
    inner
        .noise_modes
        .insert("bb".into(), NoiseMode::Transparency);
    inner.connected_mac = Some("aa".into());

    let snap = inner.snapshot();
    assert_eq!(
        snap.states.get("aa").unwrap().noise_mode,
        Some(NoiseMode::Adaptive)
    );
    assert_eq!(
        snap.states.get("bb").unwrap().noise_mode,
        None,
        "a device we cannot command must not show a selected mode"
    );

    // A battery packet replaces the whole entry; the mode survives because it
    // never lived there.
    inner.devices.insert(
        "aa".into(),
        Entry {
            state: PodState {
                source: DataSource::Aap,
                left_battery: Some(80),
                ..Default::default()
            },
            last_seen: NOW,
        },
    );
    assert_eq!(
        inner.snapshot().states.get("aa").unwrap().noise_mode,
        Some(NoiseMode::Adaptive)
    );
}

/// A device that has not reported a mode yet gets no selection, rather than the
/// first mode in the list looking active.
#[test]
fn snapshot_leaves_an_unreported_mode_unset() {
    let mut inner = inner_with(vec![("aa", secs(1))]);
    inner.connected_mac = Some("aa".into());
    assert_eq!(inner.snapshot().states.get("aa").unwrap().noise_mode, None);
}

#[test]
fn snapshot_lists_known_keys_in_order() {
    let mut inner = inner_with(vec![]);
    for mac in ["b", "", "ab", "Z", "aa", "\u{e9}", "a", "~"] {
        inner.encryption_keys.insert(mac.to_string(), vec![1]);
    }
    inner.encryption_keys.insert("aa".to_string(), vec![2]);

    let mut expected: Vec<String> = ["b", "", "ab", "Z", "aa", "\u{e9}", "a", "~"]
        .iter()
        .map(|m| m.to_string())
        .collect();
    expected.sort();
    assert_eq!(inner.snapshot().known_keys, expected);
    assert_eq!(expected[0], "");
    assert_eq!(expected[7], "\u{e9}");
}

#[test]
fn aap_supersedes_ble_only_for_the_connected_device() {
    // The connected device's own advertisements are dropped...
    assert!(supersedes_ble(Some("aa"), "aa"));
    // ...but a second pair of AirPods keeps being tracked over BLE.
    assert!(!supersedes_ble(Some("aa"), "bb"));
    // With nothing connected, everything is processed.
    assert!(!supersedes_ble(None, "aa"));
    // An unidentified advertisement is keyed by its random MAC, so it is never
    // mistaken for the connected device.
    assert!(!supersedes_ble(Some("aa"), "5C:4D:3F:B5:41:B6"));
}

#[test]
fn lowest_earbud_handles_missing_values() {
    let mut s = PodState {
        left_battery: Some(80),
        right_battery: Some(60),
        ..Default::default()
    };
    assert_eq!(s.lowest_earbud(), Some(60));

    s.right_battery = None;
    assert_eq!(s.lowest_earbud(), Some(80));

    s.left_battery = None;
    assert_eq!(s.lowest_earbud(), None);

    s.right_battery = Some(7);
    assert_eq!(s.lowest_earbud(), Some(7));
}

#[test]
fn snapshot_primary_prefers_connected_device() {
    let mut states = MacMap::new();
    states.insert(
        "aa".into(),
        PodState {
            device_model: 1,
            ..Default::default()
        },
    );
    states.insert(
        "bb".into(),
        PodState {
            device_model: 2,
            ..Default::default()
        },
    );

    let snap = Snapshot {
        states,
        connected_mac: Some("bb".into()),
        known_keys: vec!["aa".into(), "bb".into()],
        device_names: MacMap::new(),
    };
    assert_eq!(snap.primary().unwrap().device_model, 2);
}

/// Unidentified advertisements must not become the primary device: with rotating
/// addresses, strangers nearby would otherwise drive the tray and the GNOME battery
/// reading.
#[test]
fn primary_ignores_unidentified_devices() {
    let mut states = MacMap::new();
    states.insert(
        "known".into(),
        PodState {
            device_model: 7,
            identified: true,
            ..Default::default()
        },
    );
    states.insert(
        "stranger".into(),
        PodState {
            device_model: 9,
            identified: false,
            ..Default::default()
        },
    );

    let snap = Snapshot {
        states,
        connected_mac: None,
        known_keys: vec![],
        device_names: MacMap::new(),
    };
    assert_eq!(snap.primary().unwrap().device_model, 7);
}

#[test]
fn primary_falls_back_to_an_identified_device() {
    let mut states = MacMap::new();
    states.insert(
        "stranger".into(),
        PodState {
            identified: false,
            ..Default::default()
        },
    );

    let snap = Snapshot {
        states,
        connected_mac: None,
        known_keys: vec![],
        device_names: MacMap::new(),
    };
    assert!(
        snap.primary().is_none(),
        "an unidentified device is not a primary"
    );
}

#[test]
fn primary_falls_back_when_the_connected_device_has_no_state() {
    let mut states = MacMap::new();
    states.insert(
        "known".into(),
        PodState {
            device_model: 7,
            identified: true,
            ..Default::default()
        },
    );
    let snap = Snapshot {
        states,
        connected_mac: Some("elsewhere".into()),
        ..Default::default()
    };
    assert_eq!(snap.primary().unwrap().device_model, 7);
}

#[test]
fn a_device_name_is_found_however_the_address_is_written() {
    let mut device_names = MacMap::new();
    device_names.insert("5C:4D:3F:B5:41:B6".to_string(), "My AirPods".to_string());
    let snap = Snapshot {
        device_names,
        ..Default::default()
    };
    assert_eq!(snap.device_name("5c:4d:3f:b5:41:b6"), Some("My AirPods"));
    assert_eq!(snap.device_name("5C:4D:3F:B5:41:B6"), Some("My AirPods"));
    assert_eq!(snap.device_name("5c:4d:3f:b5:41:b7"), None);
    assert_eq!(snap.name_under("5c:4d:3f:b5:41:b6"), None);
    assert_eq!(snap.name_under("5C:4D:3F:B5:41:B6"), Some("My AirPods"));
}

#[test]
fn sources_have_names() {
    assert_eq!(DataSource::Ble.to_string(), "BLE");
    assert_eq!(DataSource::Aap.to_string(), "AAP");
    assert_eq!(DataSource::Unknown.to_string(), "Unknown");
    assert_eq!(DataSource::default(), DataSource::Unknown);
}

#[test]
fn a_map_keeps_one_value_per_key() {
    let mut map: MacMap<String> = MacMap::new();
    assert!(map.is_empty());
    map.insert("a".into(), "1".into());
    map.insert("b".into(), "2".into());
    map.insert("a".into(), "3".into());
    assert_eq!(map.len(), 2);
    assert_eq!(map.get("a"), Some(&"3".to_string()));
    assert_eq!(map.get("c"), None);

    let copy = map.clone();
    assert!(copy.same_entries(&map));
    assert_eq!(map.remove("a"), Some("3".to_string()));
    assert_eq!(map.remove("a"), None);
    assert!(!copy.same_entries(&map));
    assert!(!map.same_entries(&copy));

    // The order in which the pairs went in does not matter.
    map.insert("a".into(), "3".into());
    assert!(copy.same_entries(&map));
}
