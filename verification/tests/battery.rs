use linuxpods::aap::battery::{
    is_battery_packet, parse_battery_packet, Battery, BatteryInfo, BatteryParseError, Component,
    Status,
};

fn packet(entries: &[(u8, u8, u8)]) -> Vec<u8> {
    let mut p = vec![0x04, 0x00, 0x04, 0x00, 0x04, 0x00, entries.len() as u8];
    for (component, level, status) in entries {
        p.extend_from_slice(&[*component, 0x01, *level, *status, 0x01]);
    }
    p
}

#[test]
fn rejects_non_battery_packets() {
    assert!(!is_battery_packet(&[0x04, 0x00]));
    assert!(!is_battery_packet(&[
        0x04, 0x00, 0x04, 0x00, 0x31, 0x00, 0x01
    ]));
    assert_eq!(
        parse_battery_packet(&[0x00; 7]),
        Err(BatteryParseError::NotBatteryPacket)
    );
}

#[test]
fn parses_all_three_components() {
    // 4 = left, 2 = right, 8 = case; status 1 = charging, 2 = discharging
    let p = packet(&[(4, 80, 2), (2, 75, 1), (8, 42, 2)]);
    let info = parse_battery_packet(&p).unwrap();

    let left = info.left.unwrap();
    assert_eq!(left.level, 80);
    assert_eq!(left.status, Status::Discharging);
    assert!(!left.is_charging());

    let right = info.right.unwrap();
    assert_eq!(right.level, 75);
    assert!(right.is_charging());

    assert_eq!(info.case.unwrap().level, 42);
}

#[test]
fn tolerates_missing_components() {
    let info = parse_battery_packet(&packet(&[(4, 80, 2)])).unwrap();
    assert!(info.left.is_some());
    assert!(info.right.is_none());
    assert!(info.case.is_none());
}

#[test]
fn detects_truncated_entries() {
    let mut p = packet(&[(4, 80, 2), (2, 75, 1)]);
    p.truncate(p.len() - 3); // cut into the second entry
    assert_eq!(
        parse_battery_packet(&p),
        Err(BatteryParseError::Incomplete(12))
    );
}

#[test]
fn ignores_unknown_components() {
    let info = parse_battery_packet(&packet(&[(99, 50, 2)])).unwrap();
    assert_eq!(info, BatteryInfo::default());
}

#[test]
fn a_disconnected_component_has_no_usable_level() {
    // Status 4 is what the case reports once the earbuds are out of it. The
    // level byte that rides along is 0, and 0 is not a reading - showing it
    // would claim a flat case.
    let info = parse_battery_packet(&packet(&[(8, 0, 4)])).unwrap();
    assert_eq!(info.case.unwrap().available_level(), None);
}

#[test]
fn a_level_above_100_is_not_a_reading() {
    let info = parse_battery_packet(&packet(&[(8, 255, 2)])).unwrap();
    assert_eq!(info.case.unwrap().available_level(), None);
}

#[test]
fn a_normal_reading_keeps_its_level() {
    let info = parse_battery_packet(&packet(&[(8, 42, 2)])).unwrap();
    assert_eq!(info.case.unwrap().available_level(), Some(42));
}

#[test]
fn a_disconnected_component_is_not_charging() {
    let info = parse_battery_packet(&packet(&[(8, 0, 4)])).unwrap();
    assert!(!info.case.unwrap().is_charging());
}

#[test]
fn the_later_of_two_entries_counts() {
    let info = parse_battery_packet(&packet(&[(4, 80, 2), (99, 1, 1), (4, 79, 1)])).unwrap();
    assert_eq!(
        info.left,
        Some(Battery {
            component: Component::Left,
            level: 79,
            status: Status::Charging,
        })
    );
    assert_eq!(info.right, None);
}

#[test]
fn bytes_after_the_counted_entries_are_ignored() {
    let p = packet(&[(4, 80, 2), (2, 75, 1)]);
    let mut longer = p.clone();
    longer.extend_from_slice(&[4, 1, 3, 1, 1, 0xff]);
    assert_eq!(parse_battery_packet(&longer), parse_battery_packet(&p));
}

#[test]
fn every_cut_is_refused_at_its_entry() {
    let p = packet(&[(4, 80, 2), (2, 75, 1)]);
    for n in 0..p.len() {
        let expected = if n < 7 {
            BatteryParseError::NotBatteryPacket
        } else if n < 12 {
            BatteryParseError::Incomplete(7)
        } else {
            BatteryParseError::Incomplete(12)
        };
        assert_eq!(parse_battery_packet(&p[..n]), Err(expected));
    }
}

#[test]
fn a_packet_with_the_largest_count_is_read() {
    let entries: Vec<(u8, u8, u8)> = (0..255).map(|i| (8, (i % 101) as u8, 2)).collect();
    let info = parse_battery_packet(&packet(&entries)).unwrap();
    assert_eq!(info.case.unwrap().level, 254 % 101);
}

#[test]
fn an_empty_battery_packet_has_no_readings() {
    assert!(is_battery_packet(&[4, 0, 4, 0, 4, 0, 0]));
    assert_eq!(
        parse_battery_packet(&[4, 0, 4, 0, 4, 0, 0]),
        Ok(BatteryInfo::default())
    );
}

#[test]
fn codes_have_names() {
    assert_eq!(Component::from(2), Component::Right);
    assert_eq!(Component::from(4), Component::Left);
    assert_eq!(Component::from(8), Component::Case);
    assert_eq!(Component::from(0), Component::Unknown(0));
    assert_eq!(Status::from(1), Status::Charging);
    assert_eq!(Status::from(2), Status::Discharging);
    assert_eq!(Status::from(4), Status::Disconnected);
    assert_eq!(Status::from(3), Status::Unknown(3));

    assert_eq!(Component::Right.to_string(), "Right");
    assert_eq!(Component::Left.to_string(), "Left");
    assert_eq!(Component::Case.to_string(), "Case");
    assert_eq!(Component::Unknown(7).to_string(), "Unknown");
    assert_eq!(Status::Charging.to_string(), "Charging");
    assert_eq!(Status::Discharging.to_string(), "Discharging");
    assert_eq!(Status::Disconnected.to_string(), "Disconnected");
    assert_eq!(Status::Unknown(7).to_string(), "Unknown");
}

#[test]
fn errors_say_what_is_wrong() {
    assert_eq!(
        BatteryParseError::NotBatteryPacket.to_string(),
        "not a battery packet"
    );
    assert_eq!(
        BatteryParseError::Incomplete(12).to_string(),
        "incomplete battery data at offset 12"
    );
    assert_eq!(
        BatteryParseError::Incomplete(1207).to_string(),
        "incomplete battery data at offset 1207"
    );
}

#[test]
fn a_level_of_100_is_a_reading() {
    let info = parse_battery_packet(&packet(&[(8, 100, 1), (4, 101, 1), (2, 0, 77)])).unwrap();
    assert_eq!(info.case.unwrap().available_level(), Some(100));
    assert_eq!(info.left.unwrap().available_level(), None);
    assert_eq!(info.right.unwrap().available_level(), Some(0));
}
