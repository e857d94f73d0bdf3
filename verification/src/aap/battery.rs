//! AAP battery status packet parsing.
//!
//! Format: 04 00 04 00 04 00 [count] ([component] 01 [level] [status] 01)...

use vstd::prelude::*;

use crate::text::{decimal, decimal_text};

verus! {

/// Bytes before the first entry: the six of the header and the count.
pub const HEADER_LEN: usize = 7;

/// Bytes of one entry: [component] 01 [level] [status] 01.
pub const ENTRY_LEN: usize = 5;

/// Which physical component a battery reading belongs to.
#[derive(Debug, Clone, Copy, PartialEq, Eq, Structural)]
pub enum Component {
    Right,
    Left,
    Case,
    Unknown(u8),
}

/// The component that a code byte stands for.
pub open spec fn component_of(code: u8) -> Component {
    if code == 2 {
        Component::Right
    } else if code == 4 {
        Component::Left
    } else if code == 8 {
        Component::Case
    } else {
        Component::Unknown(code)
    }
}

impl vstd::std_specs::convert::FromSpecImpl<u8> for Component {
    open spec fn obeys_from_spec() -> bool {
        true
    }

    open spec fn from_spec(v: u8) -> Self {
        component_of(v)
    }
}

impl From<u8> for Component {
    fn from(v: u8) -> (res: Self) {
        match v {
            2 => Component::Right,
            4 => Component::Left,
            8 => Component::Case,
            other => Component::Unknown(other),
        }
    }
}

impl Component {
    /// The name consumers show.
    pub open spec fn name(self) -> Seq<char> {
        match self {
            Component::Right => "Right"@,
            Component::Left => "Left"@,
            Component::Case => "Case"@,
            Component::Unknown(_) => "Unknown"@,
        }
    }

    pub fn to_string(&self) -> (res: String)
        ensures
            res@ == self.name(),
    {
        match self {
            Component::Right => "Right".to_owned(),
            Component::Left => "Left".to_owned(),
            Component::Case => "Case".to_owned(),
            Component::Unknown(_) => "Unknown".to_owned(),
        }
    }
}

/// What a component is doing.
#[derive(Debug, Clone, Copy, PartialEq, Eq, Structural)]
pub enum Status {
    Charging,
    Discharging,
    Disconnected,
    Unknown(u8),
}

/// The status that a code byte stands for.
pub open spec fn status_of(code: u8) -> Status {
    if code == 1 {
        Status::Charging
    } else if code == 2 {
        Status::Discharging
    } else if code == 4 {
        Status::Disconnected
    } else {
        Status::Unknown(code)
    }
}

impl vstd::std_specs::convert::FromSpecImpl<u8> for Status {
    open spec fn obeys_from_spec() -> bool {
        true
    }

    open spec fn from_spec(v: u8) -> Self {
        status_of(v)
    }
}

impl From<u8> for Status {
    fn from(v: u8) -> (res: Self) {
        match v {
            1 => Status::Charging,
            2 => Status::Discharging,
            4 => Status::Disconnected,
            other => Status::Unknown(other),
        }
    }
}

impl Status {
    /// The name consumers show.
    pub open spec fn name(self) -> Seq<char> {
        match self {
            Status::Charging => "Charging"@,
            Status::Discharging => "Discharging"@,
            Status::Disconnected => "Disconnected"@,
            Status::Unknown(_) => "Unknown"@,
        }
    }

    pub fn to_string(&self) -> (res: String)
        ensures
            res@ == self.name(),
    {
        match self {
            Status::Charging => "Charging".to_owned(),
            Status::Discharging => "Discharging".to_owned(),
            Status::Disconnected => "Disconnected".to_owned(),
            Status::Unknown(_) => "Unknown".to_owned(),
        }
    }
}

/// One component's entry in a battery packet.
#[derive(Debug, Clone, Copy, PartialEq, Eq, Structural)]
pub struct Battery {
    pub component: Component,
    pub level: u8,
    pub status: Status,
}

impl Battery {
    /// The level as a consumer may show it: absent where the device reports the
    /// component as disconnected, and where the byte is no percentage.
    pub open spec fn usable_level(self) -> Option<u8> {
        if self.status == Status::Disconnected || self.level > 100 {
            None
        } else {
            Some(self.level)
        }
    }

    pub fn is_charging(&self) -> (res: bool)
        ensures
            res == (self.status == Status::Charging),
    {
        self.status == Status::Charging
    }

    /// The level, but only when it is a reading.
    ///
    /// A component the device reports as `Disconnected` still carries a level
    /// byte, and that byte is 0 - the case sends it as soon as the earbuds are
    /// out of it. Passing it through claims a flat battery. Levels above 100 are
    /// the other way the firmware says "no reading".
    pub fn available_level(&self) -> (res: Option<u8>)
        ensures
            res == self.usable_level(),
    {
        if self.status == Status::Disconnected || self.level > 100 {
            return None;
        }
        Some(self.level)
    }
}

/// The latest reading of each component that a packet names.
#[derive(Debug, Clone, Copy, PartialEq, Eq)]
pub struct BatteryInfo {
    pub left: Option<Battery>,
    pub right: Option<Battery>,
    pub case: Option<Battery>,
}

impl Default for BatteryInfo {
    fn default() -> (res: Self)
        ensures
            res == (BatteryInfo { left: None, right: None, case: None }),
    {
        BatteryInfo { left: None, right: None, case: None }
    }
}

/// Why a packet has no battery readings to give.
#[derive(Debug, Clone, Copy, PartialEq, Eq, Structural)]
pub enum BatteryParseError {
    NotBatteryPacket,
    /// The offset at which an entry was promised and the packet ended.
    Incomplete(usize),
}

impl BatteryParseError {
    /// What is said of the error.
    pub open spec fn spoken(self) -> Seq<char> {
        match self {
            BatteryParseError::NotBatteryPacket => "not a battery packet"@,
            BatteryParseError::Incomplete(offset) => "incomplete battery data at offset "@
                + decimal(offset as nat),
        }
    }

    pub fn to_string(&self) -> (res: String)
        ensures
            res@ == self.spoken(),
    {
        match self {
            BatteryParseError::NotBatteryPacket => "not a battery packet".to_owned(),
            BatteryParseError::Incomplete(offset) => {
                let mut res: String = "incomplete battery data at offset ".to_owned();
                res.append(decimal_text(*offset).as_str());
                res
            },
        }
    }
}

/// The header every battery packet starts with, and room for the count byte.
pub open spec fn has_battery_header(packet: Seq<u8>) -> bool {
    &&& packet.len() >= HEADER_LEN
    &&& packet.subrange(0, 6) == seq![0x04u8, 0x00, 0x04, 0x00, 0x04, 0x00]
}

/// Where entry `i` starts.
pub open spec fn entry_offset(i: int) -> int {
    HEADER_LEN + ENTRY_LEN * i
}

/// Entry `i`, read from its three meaningful bytes.
pub open spec fn entry(packet: Seq<u8>, i: int) -> Battery {
    Battery {
        component: component_of(packet[entry_offset(i)]),
        level: packet[entry_offset(i) + 2],
        status: status_of(packet[entry_offset(i) + 3]),
    }
}

/// The last of the first `n` entries that is about `component`.
pub open spec fn latest(packet: Seq<u8>, n: nat, component: Component) -> Option<Battery>
    decreases n,
{
    if n == 0 {
        None
    } else if entry(packet, n - 1).component == component {
        Some(entry(packet, n - 1))
    } else {
        latest(packet, (n - 1) as nat, component)
    }
}

/// The readings of the first `n` entries.
pub open spec fn readings(packet: Seq<u8>, n: nat) -> BatteryInfo {
    BatteryInfo {
        left: latest(packet, n, Component::Left),
        right: latest(packet, n, Component::Right),
        case: latest(packet, n, Component::Case),
    }
}

/// How many whole entries the packet has room for.
pub open spec fn whole_entries(packet: Seq<u8>) -> int {
    (packet.len() - HEADER_LEN) / (ENTRY_LEN as int)
}

/// What a packet says: the readings of as many entries as it counts, or that it
/// is no battery packet, or where the first entry that it lacks should start.
pub open spec fn parsed(packet: Seq<u8>) -> Result<BatteryInfo, BatteryParseError> {
    if !has_battery_header(packet) {
        Err(BatteryParseError::NotBatteryPacket)
    } else if whole_entries(packet) < packet[6] {
        Err(BatteryParseError::Incomplete(entry_offset(whole_entries(packet)) as usize))
    } else {
        Ok(readings(packet, packet[6] as nat))
    }
}

/// Header check: 04 00 04 00 04 00 followed by a count byte.
pub fn is_battery_packet(packet: &[u8]) -> (res: bool)
    ensures
        res == has_battery_header(packet@),
{
    if packet.len() < HEADER_LEN {
        return false;
    }
    let res: bool = packet[0] == 0x04 && packet[1] == 0x00 && packet[2] == 0x04
        && packet[3] == 0x00 && packet[4] == 0x04 && packet[5] == 0x00;
    proof {
        let head = packet@.subrange(0, 6);
        let expected = seq![0x04u8, 0x00, 0x04, 0x00, 0x04, 0x00];
        assert(head =~= seq![
            packet@[0],
            packet@[1],
            packet@[2],
            packet@[3],
            packet@[4],
            packet@[5],
        ]);
        assert(head == expected ==> head[0] == 4 && head[1] == 0 && head[2] == 4 && head[3] == 0
            && head[4] == 4 && head[5] == 0);
    }
    res
}

/// Reads the entries that a battery packet counts.
///
/// An entry about a component without a name here is passed over; where two
/// entries are about one component, the later one counts.
pub fn parse_battery_packet(packet: &[u8]) -> (res: Result<BatteryInfo, BatteryParseError>)
    ensures
        res == parsed(packet@),
{
    if !is_battery_packet(packet) {
        return Err(BatteryParseError::NotBatteryPacket);
    }
    let count: usize = packet[6] as usize;
    let mut info: BatteryInfo = BatteryInfo::default();
    let mut offset: usize = HEADER_LEN;

    for i in 0..count
        invariant
            has_battery_header(packet@),
            count == packet@[6],
            offset == entry_offset(i as int),
            offset <= packet@.len(),
            info == readings(packet@, i as nat),
    {
        if packet.len() - offset < ENTRY_LEN {
            assert(whole_entries(packet@) == i);
            return Err(BatteryParseError::Incomplete(offset));
        }
        let battery = Battery {
            component: Component::from(packet[offset]),
            level: packet[offset + 2],
            status: Status::from(packet[offset + 3]),
        };
        assert(battery == entry(packet@, i as int));

        match battery.component {
            Component::Left => info.left = Some(battery),
            Component::Right => info.right = Some(battery),
            Component::Case => info.case = Some(battery),
            Component::Unknown(_) => {},
        }

        offset += ENTRY_LEN;
    }
    Ok(info)
}

} // verus!
