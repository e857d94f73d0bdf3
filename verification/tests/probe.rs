use linuxpods::aap::battery::parse_battery_packet;
use linuxpods::probe::{describe, hex};
use linuxpods::text::{decimal_text, not_after, same_text, sort_strings};

#[test]
fn a_packet_is_shown_raw_and_decoded() {
    let packet = [
        0x04, 0x00, 0x04, 0x00, 0x04, 0x00, 0x03, 0x02, 0x01, 0x64, 0x02, 0x01, 0x04, 0x01, 0x64,
        0x02, 0x01, 0x08, 0x01, 0x00, 0x04, 0x01,
    ];
    assert_eq!(
        hex(&packet),
        "04 00 04 00 04 00 03 02 01 64 02 01 04 01 64 02 01 08 01 00 04 01"
    );
    let info = parse_battery_packet(&packet).unwrap();
    assert_eq!(
        describe("left", info.left),
        "  left  level 100 status Discharging -> Some(100)"
    );
    assert_eq!(
        describe("right", info.right),
        "  right level 100 status Discharging -> Some(100)"
    );
    assert_eq!(
        describe("case", info.case),
        "  case  level 0 status Disconnected -> None"
    );
    assert_eq!(describe("case", None), "  case  absent from this packet");
    assert_eq!(
        describe("starboard", None),
        "  starboard absent from this packet"
    );
}

#[test]
fn bytes_are_written_in_lower_case() {
    assert_eq!(hex(&[]), "");
    assert_eq!(hex(&[0xff]), "ff");
    assert_eq!(hex(&[0xab, 0x0c]), "ab 0c");
}

#[test]
fn numbers_are_written_without_leading_zeros() {
    for n in [0usize, 7, 10, 99, 100, 4096, usize::MAX] {
        assert_eq!(decimal_text(n), format!("{n}"));
    }
}

#[test]
fn strings_are_ordered_by_their_bytes() {
    let words = ["", "a", "aa", "ab", "b", "B", "\u{e9}", "\u{1f600}"];
    for x in words {
        for y in words {
            assert_eq!(not_after(x, y), x <= y);
            assert_eq!(same_text(x, y), x == y);
        }
    }
    let mut sorted: Vec<String> = words.iter().map(|w| w.to_string()).collect();
    sorted.reverse();
    let ours = sort_strings(sorted.clone());
    sorted.sort();
    assert_eq!(ours, sorted);
}
