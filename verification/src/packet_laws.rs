//! What packets, levels and texts mean, byte by byte and character by character.

use vstd::prelude::*;
use vstd::utf8::encode_utf8;

use crate::aap::battery::{
    component_of, entry, has_battery_header, latest, parsed, status_of, Battery, BatteryInfo,
    BatteryParseError, Component, Status,
};
use crate::probe::{description, hex_dump, level_text, padded};
use crate::text::{ascii_uppercase, bytes_le, decimal, digit, hex_byte, is_ascii_text, text_le};

verus! {

// Codes.

/// `status` is what a status byte stands for: 1 is charging, 2 discharging, 4
/// disconnected, and any other byte is kept as it is.
pub open spec fn status_is(status: Status, byte: u8) -> bool {
    match status {
        Status::Charging => byte == 1,
        Status::Discharging => byte == 2,
        Status::Disconnected => byte == 4,
        Status::Unknown(kept) => byte == kept && byte != 1 && byte != 2 && byte != 4,
    }
}

/// `component` is what a component byte stands for: 2 is the right earbud, 4 the
/// left one, 8 the case, and any other byte is kept as it is.
pub open spec fn component_is(component: Component, byte: u8) -> bool {
    match component {
        Component::Right => byte == 2,
        Component::Left => byte == 4,
        Component::Case => byte == 8,
        Component::Unknown(kept) => byte == kept && byte != 2 && byte != 4 && byte != 8,
    }
}

/// Every component byte stands for its component and every status byte for its
/// status, and no two bytes for the same.
pub proof fn law_each_code_has_its_meaning(a: u8, b: u8)
    ensures
        component_is(component_of(a), a),
        status_is(status_of(a), a),
        component_of(a) == component_of(b) <==> a == b,
        status_of(a) == status_of(b) <==> a == b,
{
}

/// Components, statuses and parse errors go by their own names.
pub proof fn law_names_are_their_own(code: u8)
    ensures
        Component::Left.name() == "Left"@,
        Component::Right.name() == "Right"@,
        Component::Case.name() == "Case"@,
        Component::Unknown(code).name() == "Unknown"@,
        Status::Charging.name() == "Charging"@,
        Status::Discharging.name() == "Discharging"@,
        Status::Disconnected.name() == "Disconnected"@,
        Status::Unknown(code).name() == "Unknown"@,
        BatteryParseError::NotBatteryPacket.spoken() == "not a battery packet"@,
{
}

// Levels.

/// A level is usable exactly if the device is talking to the component and the
/// byte is a percentage, and it is that byte.
pub proof fn law_every_reading_has_its_level(battery: Battery, level: u8)
    ensures
        battery.usable_level() == Some(level) <==> battery.status != Status::Disconnected
            && battery.level <= 100 && level == battery.level,
        battery.usable_level() is None <==> battery.status == Status::Disconnected
            || battery.level > 100,
{
}

/// A usable level does not depend on which component it is of, nor on what the
/// component is doing, as long as it is not disconnected.
pub proof fn law_levels_depend_on_the_byte_alone(a: Battery, b: Battery)
    requires
        a.level == b.level,
        a.status != Status::Disconnected,
        b.status != Status::Disconnected,
    ensures
        a.usable_level() == b.usable_level(),
{
}

// Packets.

/// The six bytes that battery packets start with, and a count byte.
pub open spec fn starts_like_a_battery_packet(packet: Seq<u8>) -> bool {
    &&& packet.len() >= 7
    &&& packet[0] == 4 && packet[1] == 0
    &&& packet[2] == 4 && packet[3] == 0
    &&& packet[4] == 4 && packet[5] == 0
}

/// A battery packet is known by its first six bytes and a count, whatever follows.
pub proof fn law_battery_packets_are_known_by_their_first_bytes(packet: Seq<u8>)
    ensures
        has_battery_header(packet) <==> starts_like_a_battery_packet(packet),
{
    if packet.len() >= 7 {
        let head = packet.subrange(0, 6);
        let expected = seq![0x04u8, 0x00, 0x04, 0x00, 0x04, 0x00];
        assert(head =~= seq![packet[0], packet[1], packet[2], packet[3], packet[4], packet[5]]);
        assert(head == expected ==> head[0] == 4 && head[1] == 0 && head[2] == 4 && head[3] == 0
            && head[4] == 4 && head[5] == 0);
    }
}

/// A packet is read exactly if it is a battery packet with five bytes for each of
/// the entries it counts. One that is no battery packet is refused as such. One
/// that ends too soon is refused at the start of the first entry that is not whole.
pub proof fn law_packets_are_read_or_refused_by_their_length(packet: Seq<u8>)
    requires
        packet.len() <= usize::MAX,
    ensures
        parsed(packet) is Ok <==> starts_like_a_battery_packet(packet) && packet.len() >= 7 + 5
            * packet[6],
        parsed(packet) == Err::<BatteryInfo, BatteryParseError>(BatteryParseError::NotBatteryPacket)
            <==> !starts_like_a_battery_packet(packet),
        parsed(packet) matches Err(BatteryParseError::Incomplete(offset)) ==> {
            &&& offset <= packet.len() < offset + 5
            &&& offset >= 7
            &&& (offset - 7) % 5 == 0
            &&& (offset - 7) / 5 < packet[6]
        },
{
    law_battery_packets_are_known_by_their_first_bytes(packet);
}

/// The component byte of entry `i`.
pub open spec fn code_at(packet: Seq<u8>, i: int) -> u8 {
    packet[7 + 5 * i]
}

/// `reading` is what entry `i` says: its level byte and its status byte.
pub open spec fn is_reading_of(packet: Seq<u8>, i: int, reading: Battery) -> bool {
    &&& component_is(reading.component, packet[7 + 5 * i])
    &&& reading.level == packet[7 + 5 * i + 2]
    &&& status_is(reading.status, packet[7 + 5 * i + 3])
}

/// `reading` is that of the last of the first `n` entries with the component byte
/// `code`, and there is none exactly if no entry has it.
pub open spec fn is_last_reading(
    packet: Seq<u8>,
    n: int,
    code: u8,
    reading: Option<Battery>,
) -> bool {
    match reading {
        Some(reading) => exists|i: int|
            {
                &&& 0 <= i < n
                &&& #[trigger] code_at(packet, i) == code
                &&& is_reading_of(packet, i, reading)
                &&& forall|j: int| i < j < n ==> #[trigger] code_at(packet, j) != code
            },
        None => forall|j: int| 0 <= j < n ==> #[trigger] code_at(packet, j) != code,
    }
}

proof fn lemma_latest_is_last(packet: Seq<u8>, n: nat, component: Component, code: u8)
    requires
        component == component_of(code),
    ensures
        is_last_reading(packet, n as int, code, latest(packet, n, component)),
    decreases n,
{
    if n > 0 {
        let last = n - 1;
        law_each_code_has_its_meaning(code_at(packet, last), code);
        law_each_code_has_its_meaning(packet[7 + 5 * last + 3], code);
        if code_at(packet, last) == code {
            assert(is_reading_of(packet, last, entry(packet, last)));
        } else {
            lemma_latest_is_last(packet, last as nat, component, code);
            let earlier = latest(packet, last as nat, component);
            if earlier is Some {
                let i = choose|i: int|
                    {
                        &&& 0 <= i < last
                        &&& #[trigger] code_at(packet, i) == code
                        &&& is_reading_of(packet, i, earlier->0)
                        &&& forall|j: int| i < j < last ==> #[trigger] code_at(packet, j) != code
                    };
                assert(code_at(packet, i) == code);
            }
        }
    }
}

/// A packet that is read gives of the left earbud, the right one and the case what
/// the last of its counted entries about each says, and of one that no entry is
/// about nothing.
pub proof fn law_the_last_entry_about_a_component_counts(packet: Seq<u8>)
    ensures
        parsed(packet) matches Ok(info) ==> {
            &&& is_last_reading(packet, packet[6] as int, 4, info.left)
            &&& is_last_reading(packet, packet[6] as int, 2, info.right)
            &&& is_last_reading(packet, packet[6] as int, 8, info.case)
        },
{
    lemma_latest_is_last(packet, packet[6] as nat, Component::Left, 4);
    lemma_latest_is_last(packet, packet[6] as nat, Component::Right, 2);
    lemma_latest_is_last(packet, packet[6] as nat, Component::Case, 8);
}

// Numbers.

/// The number that a string of decimal digits stands for.
pub open spec fn decimal_value(s: Seq<char>) -> int
    decreases s.len(),
{
    if s.len() == 0 {
        0
    } else {
        decimal_value(s.drop_last()) * 10 + (s.last() as u32 - '0' as u32)
    }
}

/// A number written in decimal stands for that number, has digits only, and starts
/// with a zero only if it is zero.
pub proof fn law_decimal_reads_back(n: nat)
    ensures
        decimal_value(decimal(n)) == n,
        decimal(n).len() > 0,
        forall|i: int|
            0 <= i < decimal(n).len() ==> '0' <= #[trigger] decimal(n)[i] && decimal(n)[i] <= '9',
        n > 0 ==> decimal(n)[0] != '0',
    decreases n,
{
    if n < 10 {
        let s = decimal(n);
        assert(s.drop_last() =~= Seq::empty());
        assert(decimal_value(Seq::<char>::empty()) == 0);
        assert(s.last() as u32 == '0' as u32 + n);
    } else {
        law_decimal_reads_back(n / 10);
        let s = decimal(n);
        assert(s.drop_last() =~= decimal(n / 10));
        assert(s.last() as u32 == '0' as u32 + n % 10);
        assert forall|i: int| 0 <= i < s.len() implies '0' <= #[trigger] s[i] && s[i] <= '9' by {
            if i < s.len() - 1 {
                assert(s[i] == decimal(n / 10)[i]);
            }
        }
        assert(s[0] == decimal(n / 10)[0]);
    }
}

/// The number that a hexadecimal digit stands for, letters in lower case.
pub open spec fn hex_value(c: char) -> Option<int> {
    if '0' <= c && c <= '9' {
        Some(c as u32 - '0' as u32)
    } else if 'a' <= c && c <= 'f' {
        Some(c as u32 - 'a' as u32 + 10)
    } else {
        None
    }
}

/// A byte in hexadecimal is two digits that stand for it.
pub proof fn law_hex_byte_reads_back(b: u8)
    ensures
        hex_byte(b).len() == 2,
        hex_value(hex_byte(b)[0]) is Some,
        hex_value(hex_byte(b)[1]) is Some,
        hex_value(hex_byte(b)[0])->0 * 16 + hex_value(hex_byte(b)[1])->0 == b,
{
    let high = (b / 16) as nat;
    let low = (b % 16) as nat;
    assert(digit(high) as u32 == if high < 10 {
        '0' as u32 + high
    } else {
        'a' as u32 + (high - 10)
    });
    assert(digit(low) as u32 == if low < 10 {
        '0' as u32 + low
    } else {
        'a' as u32 + (low - 10)
    });
}

/// The two characters of `dump` at place `at` are hexadecimal digits that stand for
/// `byte`.
pub open spec fn shows_byte(dump: Seq<char>, at: int, byte: u8) -> bool {
    &&& 0 <= at < dump.len() - 1
    &&& hex_value(dump[at]) is Some
    &&& hex_value(dump[at + 1]) is Some
    &&& hex_value(dump[at])->0 * 16 + hex_value(dump[at + 1])->0 == byte
}

/// There is a space before the digits of byte `i`.
pub open spec fn space_before(dump: Seq<char>, i: int) -> bool {
    dump[3 * i - 1] == ' '
}

/// A dump gives every byte of the packet in its place, two digits each, with a
/// space before the next.
pub proof fn law_dump_reads_back(packet: Seq<u8>)
    ensures
        hex_dump(packet).len() == if packet.len() == 0 {
            0
        } else {
            3 * packet.len() - 1
        },
        forall|i: int|
            0 <= i < packet.len() ==> shows_byte(hex_dump(packet), 3 * i, #[trigger] packet[i]),
        forall|i: int|
            0 < i < packet.len() ==> #[trigger] space_before(hex_dump(packet), i),
    decreases packet.len(),
{
    let dump = hex_dump(packet);
    if packet.len() == 1 {
        law_hex_byte_reads_back(packet[0]);
        assert(shows_byte(dump, 0, packet[0]));
    } else if packet.len() > 1 {
        let rest = packet.drop_last();
        let shorter = hex_dump(rest);
        law_dump_reads_back(rest);
        law_hex_byte_reads_back(packet.last());
        assert(dump == shorter + seq![' '] + hex_byte(packet.last()));
        assert forall|i: int| 0 <= i < packet.len() implies shows_byte(
            dump,
            3 * i,
            #[trigger] packet[i],
        ) by {
            if i < rest.len() {
                assert(shows_byte(shorter, 3 * i, rest[i]));
            } else {
                assert(dump[3 * i] == hex_byte(packet.last())[0]);
                assert(dump[3 * i + 1] == hex_byte(packet.last())[1]);
            }
        }
        assert forall|i: int| 0 < i < packet.len() implies #[trigger] space_before(dump, i) by {
            if i < rest.len() {
                assert(space_before(shorter, i));
                assert(dump[3 * i - 1] == shorter[3 * i - 1]);
            }
        }
    }
}

/// What is said of a packet that ends too soon ends in the offset.
pub proof fn law_incomplete_packets_name_the_offset(offset: usize)
    ensures
        ({
            let head = "incomplete battery data at offset "@;
            let said = BatteryParseError::Incomplete(offset).spoken();
            &&& said.len() > head.len()
            &&& said.take(head.len() as int) == head
            &&& decimal_value(said.skip(head.len() as int)) == offset
        }),
{
    let head = "incomplete battery data at offset "@;
    let said = BatteryParseError::Incomplete(offset).spoken();
    law_decimal_reads_back(offset as nat);
    assert(said.take(head.len() as int) =~= head);
    assert(said.skip(head.len() as int) =~= decimal(offset as nat));
}

/// A name is filled up with spaces to five characters, behind it, and a longer one
/// is left as it is.
pub proof fn law_padding_goes_behind_the_name(name: Seq<char>)
    ensures
        padded(name).len() == if name.len() < 5 {
            5
        } else {
            name.len()
        },
        padded(name).take(name.len() as int) == name,
        forall|i: int| name.len() <= i < padded(name).len() ==> #[trigger] padded(name)[i] == ' ',
{
    assert(padded(name).take(name.len() as int) =~= name);
}

/// `line` is `parts` one after the other.
pub open spec fn made_of(line: Seq<char>, parts: Seq<Seq<char>>) -> bool
    decreases parts.len(),
{
    if parts.len() == 0 {
        line.len() == 0
    } else {
        &&& line.len() >= parts.last().len()
        &&& line.skip(line.len() - parts.last().len()) == parts.last()
        &&& made_of(line.take(line.len() - parts.last().len()), parts.drop_last())
    }
}

proof fn lemma_made_of_one_more(line: Seq<char>, parts: Seq<Seq<char>>, part: Seq<char>)
    requires
        made_of(line, parts),
    ensures
        made_of(line + part, parts.push(part)),
{
    let longer = line + part;
    assert(parts.push(part).drop_last() =~= parts);
    assert(longer.skip(longer.len() - part.len()) =~= part);
    assert(longer.take(longer.len() - part.len()) =~= line);
}

/// The line for a component names it, then gives its raw level and its status as
/// the packet has them, and last the level that is usable: the number in
/// parentheses, or that there is none.
pub proof fn law_a_line_gives_raw_fields_and_the_usable_level(name: Seq<char>, battery: Battery)
    ensures
        made_of(
            description(name, Some(battery)),
            seq![
                "  "@,
                padded(name),
                " level "@,
                decimal(battery.level as nat),
                " status "@,
                battery.status.name(),
                " -> "@,
                level_text(battery.usable_level()),
            ],
        ),
        battery.status != Status::Disconnected && battery.level <= 100 ==> made_of(
            level_text(battery.usable_level()),
            seq!["Some("@, decimal(battery.level as nat), ")"@],
        ),
        battery.status == Status::Disconnected || battery.level > 100 ==> level_text(
            battery.usable_level(),
        ) == "None"@,
        made_of(
            description(name, None),
            seq!["  "@, padded(name), " absent from this packet"@],
        ),
{
    let none = Seq::<Seq<char>>::empty();
    let nothing = Seq::<char>::empty();
    let level = decimal(battery.level as nat);
    let usable = level_text(battery.usable_level());
    let p1 = none.push("  "@);
    let p2 = p1.push(padded(name));
    let p3 = p2.push(" level "@);
    let p4 = p3.push(level);
    let p5 = p4.push(" status "@);
    let p6 = p5.push(battery.status.name());
    let p7 = p6.push(" -> "@);
    let l1 = nothing + "  "@;
    let l2 = l1 + padded(name);
    let l3 = l2 + " level "@;
    let l4 = l3 + level;
    let l5 = l4 + " status "@;
    let l6 = l5 + battery.status.name();
    let l7 = l6 + " -> "@;
    assert(made_of(nothing, none));
    lemma_made_of_one_more(nothing, none, "  "@);
    lemma_made_of_one_more(l1, p1, padded(name));
    lemma_made_of_one_more(l2, p2, " level "@);
    lemma_made_of_one_more(l3, p3, level);
    lemma_made_of_one_more(l4, p4, " status "@);
    lemma_made_of_one_more(l5, p5, battery.status.name());
    lemma_made_of_one_more(l6, p6, " -> "@);
    lemma_made_of_one_more(l7, p7, usable);
    lemma_made_of_one_more(l2, p2, " absent from this packet"@);
    assert(l1 =~= "  "@);
    assert(p7.push(usable) =~= seq![
        "  "@,
        padded(name),
        " level "@,
        level,
        " status "@,
        battery.status.name(),
        " -> "@,
        usable,
    ]);
    assert(p2.push(" absent from this packet"@) =~= seq![
        "  "@,
        padded(name),
        " absent from this packet"@,
    ]);
    let q1 = none.push("Some("@);
    let q2 = q1.push(level);
    lemma_made_of_one_more(nothing, none, "Some("@);
    assert(nothing + "Some("@ =~= "Some("@);
    lemma_made_of_one_more("Some("@, q1, level);
    lemma_made_of_one_more("Some("@ + level, q2, ")"@);
    assert(q2.push(")"@) =~= seq!["Some("@, level, ")"@]);
}

// Strings.

/// `a` is where `b` starts, or they differ somewhere and at the first such place `a`
/// has the smaller byte.
pub open spec fn comes_first(a: Seq<u8>, b: Seq<u8>) -> bool {
    ||| a.len() <= b.len() && b.take(a.len() as int) == a
    ||| exists|i: int|
        {
            &&& 0 <= i < a.len()
            &&& i < b.len()
            &&& #[trigger] a.take(i) == b.take(i)
            &&& a[i] < b[i]
        }
}

proof fn lemma_same_start(a: Seq<u8>, b: Seq<u8>, i: int)
    requires
        0 <= i <= a.len(),
        i <= b.len(),
        a.take(i) == b.take(i),
    ensures
        bytes_le(a, b) == bytes_le(a.skip(i), b.skip(i)),
    decreases i,
{
    if i == 0 {
        assert(a.skip(0) =~= a);
        assert(b.skip(0) =~= b);
    } else {
        assert(a[0] == a.take(i)[0]);
        assert(b[0] == b.take(i)[0]);
        assert(bytes_le(a, b) == bytes_le(a.drop_first(), b.drop_first()));
        let x = a.drop_first();
        let y = b.drop_first();
        assert(x.take(i - 1) =~= a.take(i).drop_first());
        assert(y.take(i - 1) =~= b.take(i).drop_first());
        lemma_same_start(x, y, i - 1);
        assert(x.skip(i - 1) =~= a.skip(i));
        assert(y.skip(i - 1) =~= b.skip(i));
    }
}

proof fn lemma_ordered_bytes_differ_somewhere(a: Seq<u8>, b: Seq<u8>)
    requires
        bytes_le(a, b),
    ensures
        comes_first(a, b),
    decreases a.len(),
{
    if a.len() == 0 {
        assert(b.take(0) =~= a);
    } else if a[0] != b[0] {
        assert(a.take(0) =~= b.take(0));
    } else {
        let x = a.drop_first();
        let y = b.drop_first();
        lemma_ordered_bytes_differ_somewhere(x, y);
        if x.len() <= y.len() && y.take(x.len() as int) == x {
            assert forall|k: int| 0 <= k < a.len() implies b.take(a.len() as int)[k] == a[k] by {
                if k > 0 {
                    assert(y.take(x.len() as int)[k - 1] == x[k - 1]);
                }
            }
            assert(b.take(a.len() as int) =~= a);
        } else {
            let i = choose|i: int|
                {
                    &&& 0 <= i < x.len()
                    &&& i < y.len()
                    &&& #[trigger] x.take(i) == y.take(i)
                    &&& x[i] < y[i]
                };
            assert forall|k: int| 0 <= k < i + 1 implies #[trigger] a[k] == b[k] by {
                if k > 0 {
                    assert(x.take(i)[k - 1] == y.take(i)[k - 1]);
                }
            }
            assert(a.take(i + 1) =~= b.take(i + 1));
        }
    }
}

/// Strings are in order as their bytes are: where one is the start of the other it
/// comes first, and otherwise the first place where they differ decides.
pub proof fn law_the_first_difference_decides(a: Seq<char>, b: Seq<char>)
    ensures
        text_le(a, b) <==> comes_first(encode_utf8(a), encode_utf8(b)),
{
    let x = encode_utf8(a);
    let y = encode_utf8(b);
    if text_le(a, b) {
        lemma_ordered_bytes_differ_somewhere(x, y);
    }
    if x.len() <= y.len() && y.take(x.len() as int) == x {
        assert(x.take(x.len() as int) =~= x);
        lemma_same_start(x, y, x.len() as int);
    } else if comes_first(x, y) {
        let i = choose|i: int|
            {
                &&& 0 <= i < x.len()
                &&& i < y.len()
                &&& #[trigger] x.take(i) == y.take(i)
                &&& x[i] < y[i]
            };
        lemma_same_start(x, y, i);
        assert(x.skip(i)[0] == x[i]);
        assert(y.skip(i)[0] == y[i]);
    }
}

/// A string is ASCII exactly if no character is past the first 128.
pub proof fn law_ascii_is_the_first_128_characters(s: Seq<char>)
    ensures
        is_ascii_text(s) <==> forall|c: char| #[trigger] s.contains(c) ==> (c as u32) < 128,
{
    if forall|c: char| #[trigger] s.contains(c) ==> (c as u32) < 128 {
        assert forall|i: int| 0 <= i < s.len() implies ((#[trigger] s[i]) as u32) < 128 by {
            assert(s.contains(s[i]));
        }
    }
}

/// In upper case every letter from a to z is the capital 32 places before it, and
/// every other character is itself; so a string already in upper case stays, and
/// two strings that differ only in case become the same.
pub proof fn law_upper_case_letter_by_letter(s: Seq<char>, i: int)
    requires
        0 <= i < s.len(),
    ensures
        ascii_uppercase(s).len() == s.len(),
        'a' <= s[i] && s[i] <= 'z' ==> ascii_uppercase(s)[i] as u32 + 32 == s[i] as u32,
        !('a' <= s[i] && s[i] <= 'z') ==> ascii_uppercase(s)[i] == s[i],
        ascii_uppercase(ascii_uppercase(s)) == ascii_uppercase(s),
{
    assert(ascii_uppercase(ascii_uppercase(s)) =~= ascii_uppercase(s));
}

} // verus!
