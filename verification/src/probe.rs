//! Battery packets as text, raw bytes beside what they decode to.
//!
//! A component the device is not currently talking to - the case, the moment the
//! earbuds come out of it - still appears in the packet, with a level byte of 0 and
//! status 0x04. Printing the raw bytes beside the decoded reading is what makes that
//! visible:
//!
//! ```text
//! RAW   04 00 04 00 04 00 03 02 01 64 02 01 04 01 64 02 01 08 01 00 04 01
//!   left  level 100 status Discharging -> Some(100)
//!   right level 100 status Discharging -> Some(100)
//!   case  level 0 status Disconnected -> None
//! ```

use vstd::prelude::*;

use crate::aap::battery::Battery;
use crate::text::{decimal, decimal_text, hex_byte, hex_byte_text};

verus! {

/// Bytes in hexadecimal, two digits each, with a space between any two.
pub open spec fn hex_dump(packet: Seq<u8>) -> Seq<char>
    decreases packet.len(),
{
    if packet.len() == 0 {
        Seq::empty()
    } else if packet.len() == 1 {
        hex_byte(packet[0])
    } else {
        hex_dump(packet.drop_last()) + seq![' '] + hex_byte(packet.last())
    }
}

/// Writes a packet out in hexadecimal.
pub fn hex(packet: &[u8]) -> (res: String)
    ensures
        res@ == hex_dump(packet@),
{
    let mut res: String = String::new();
    assert(packet@.take(0) =~= Seq::empty());
    for i in 0..packet.len()
        invariant
            res@ == hex_dump(packet@.take(i as int)),
    {
        let ghost done = packet@.take(i as int);
        let ghost more = packet@.take(i + 1);
        assert(more.drop_last() =~= done);
        if i > 0 {
            res.append(" ");
        }
        res.append(hex_byte_text(packet[i]).as_str());
        proof {
            reveal_strlit(" ");
            assert(" "@ =~= seq![' ']);
            if i == 0 {
                assert(res@ =~= hex_byte(packet@[0]));
            }
        }
    }
    assert(packet@.take(packet@.len() as int) =~= packet@);
    res
}

/// `name`, filled up with spaces to five characters.
pub open spec fn padded(name: Seq<char>) -> Seq<char> {
    name + Seq::new(
        if name.len() < 5 {
            (5 - name.len()) as nat
        } else {
            0
        },
        |i: int| ' ',
    )
}

/// A usable level, or its absence.
pub open spec fn level_text(level: Option<u8>) -> Seq<char> {
    match level {
        Some(l) => "Some("@ + decimal(l as nat) + ")"@,
        None => "None"@,
    }
}

/// The line for one component.
pub open spec fn description(name: Seq<char>, battery: Option<Battery>) -> Seq<char> {
    match battery {
        Some(b) => "  "@ + padded(name) + " level "@ + decimal(b.level as nat) + " status "@
            + b.status.name() + " -> "@ + level_text(b.usable_level()),
        None => "  "@ + padded(name) + " absent from this packet"@,
    }
}

fn level_to_text(level: Option<u8>) -> (res: String)
    ensures
        res@ == level_text(level),
{
    match level {
        Some(l) => {
            let mut res: String = "Some(".to_owned();
            res.append(decimal_text(l as usize).as_str());
            res.append(")");
            res
        },
        None => "None".to_owned(),
    }
}

/// One component, raw fields first and the usable reading last.
pub fn describe(name: &str, battery: Option<Battery>) -> (res: String)
    ensures
        res@ == description(name@, battery),
{
    let mut res: String = "  ".to_owned();
    res.append(name);
    let length: usize = name.unicode_len();
    let mut filled: usize = length;
    proof {
        reveal_strlit(" ");
        assert(" "@ =~= seq![' ']);
        assert(name@ + Seq::new(0nat, |i: int| ' ') =~= name@);
    }
    while filled < 5
        invariant
            length == name@.len(),
            length <= filled,
            filled <= 5 || filled == length,
            res@ == "  "@ + (name@ + Seq::new((filled - length) as nat, |i: int| ' ')),
            " "@ == seq![' '],
        decreases 5 - filled,
    {
        res.append(" ");
        filled += 1;
        assert(Seq::new((filled - length) as nat, |i: int| ' ') =~= Seq::new(
            (filled - 1 - length) as nat,
            |i: int| ' ',
        ) + seq![' ']);
        assert(res@ =~= "  "@ + (name@ + Seq::new((filled - length) as nat, |i: int| ' ')));
    }
    assert(res@ == "  "@ + padded(name@));
    match battery {
        Some(b) => {
            res.append(" level ");
            res.append(decimal_text(b.level as usize).as_str());
            res.append(" status ");
            res.append(b.status.to_string().as_str());
            res.append(" -> ");
            res.append(level_to_text(b.available_level()).as_str());
        },
        None => {
            res.append(" absent from this packet");
        },
    }
    res
}

} // verus!
