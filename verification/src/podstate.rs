//! What is known of every device, and what consumers are shown of it.
//!
//! Two sources report: AAP, exact, for the device a link is up to, and BLE
//! advertisements for every other device. The choice is made per device: a link to
//! one pair of AirPods does not stop a second pair from being tracked over BLE.
//!
//! # Why entries expire
//!
//! When no stored key decrypts an advertisement, its state is kept under the
//! *randomized* BLE address it came from, and those rotate, several per minute per
//! device. Every entry carries the moment it was last seen, and the stale
//! ones are dropped.

use vstd::prelude::*;

use crate::aap::noise::NoiseMode;
use crate::ble::PodSide;
use crate::mac_map::{Duplicate, MacMap};
use crate::text::{ascii_uppercase, is_ascii_text, same_text, texts, to_uppercase, uppercase};

verus! {

/// How long a device may go unseen before its state is dropped: 120 seconds, in
/// nanoseconds. Bounds the map against rotating BLE addresses.
pub const DEVICE_TTL: u128 = 120_000_000_000;

/// Which source a state came from.
#[derive(Debug, Clone, Copy, PartialEq, Eq, Structural)]
pub enum DataSource {
    Unknown,
    Ble,
    Aap,
}

impl Default for DataSource {
    fn default() -> (res: Self)
        ensures
            res == DataSource::Unknown,
    {
        DataSource::Unknown
    }
}

impl DataSource {
    /// The name consumers show.
    pub open spec fn name(self) -> Seq<char> {
        match self {
            DataSource::Ble => "BLE"@,
            DataSource::Aap => "AAP"@,
            DataSource::Unknown => "Unknown"@,
        }
    }

    pub fn to_string(&self) -> (res: String)
        ensures
            res@ == self.name(),
    {
        match self {
            DataSource::Ble => "BLE".to_owned(),
            DataSource::Aap => "AAP".to_owned(),
            DataSource::Unknown => "Unknown".to_owned(),
        }
    }
}

/// Unified state, independent of which source produced it.
#[derive(Debug)]
pub struct PodState {
    pub source: DataSource,
    pub left_battery: Option<u8>,
    pub right_battery: Option<u8>,
    pub case_battery: Option<u8>,
    pub left_charging: bool,
    pub right_charging: bool,
    pub case_charging: bool,
    pub left_in_ear: bool,
    pub right_in_ear: bool,
    /// `None` when nothing has reported it: over AAP, which carries no lid data, or
    /// from a BLE advertisement sent while the earbuds are out of the case.
    pub lid_open: Option<bool>,
    /// `None` while the reading came from AAP, which carries no such field. It is
    /// not carried forward from earlier BLE state the way the model and colour are:
    /// it changes as the user plays music or takes a call, and would sit there
    /// stale for the whole AAP session.
    pub connection_state: Option<u8>,
    /// Active noise control mode. `None` until the connected device reports one:
    /// BLE advertisements do not carry it, and a default would show the wrong mode
    /// as selected.
    pub noise_mode: Option<NoiseMode>,
    pub device_model: u16,
    pub model_name: String,
    pub color: u8,
    pub primary_pod: PodSide,
    pub real_mac: String,
    pub current_ble_mac: String,
    pub encryption_key: Option<Vec<u8>>,
    /// True when this state is attributable to a known device: always for AAP, and
    /// for BLE only when a stored key decrypted the advertisement.
    pub identified: bool,
}

/// What a [`PodState`] says.
#[verifier::ext_equal]
pub struct PodStateView {
    pub source: DataSource,
    pub left_battery: Option<u8>,
    pub right_battery: Option<u8>,
    pub case_battery: Option<u8>,
    pub left_charging: bool,
    pub right_charging: bool,
    pub case_charging: bool,
    pub left_in_ear: bool,
    pub right_in_ear: bool,
    pub lid_open: Option<bool>,
    pub connection_state: Option<u8>,
    pub noise_mode: Option<NoiseMode>,
    pub device_model: u16,
    pub model_name: Seq<char>,
    pub color: u8,
    pub primary_pod: PodSide,
    pub real_mac: Seq<char>,
    pub current_ble_mac: Seq<char>,
    pub encryption_key: Option<Seq<u8>>,
    pub identified: bool,
}

/// What an optional byte string holds.
pub open spec fn optional_bytes(bytes: Option<Vec<u8>>) -> Option<Seq<u8>> {
    match bytes {
        Some(b) => Some(b@),
        None => None,
    }
}

/// What an optional string holds.
pub open spec fn optional_text(text: Option<String>) -> Option<Seq<char>> {
    match text {
        Some(t) => Some(t@),
        None => None,
    }
}

/// What a map has under a key.
pub open spec fn lookup<V>(map: Map<Seq<char>, V>, key: Seq<char>) -> Option<V> {
    if map.contains_key(key) {
        Some(map[key])
    } else {
        None
    }
}

impl View for PodState {
    type V = PodStateView;

    open spec fn view(&self) -> PodStateView {
        PodStateView {
            source: self.source,
            left_battery: self.left_battery,
            right_battery: self.right_battery,
            case_battery: self.case_battery,
            left_charging: self.left_charging,
            right_charging: self.right_charging,
            case_charging: self.case_charging,
            left_in_ear: self.left_in_ear,
            right_in_ear: self.right_in_ear,
            lid_open: self.lid_open,
            connection_state: self.connection_state,
            noise_mode: self.noise_mode,
            device_model: self.device_model,
            model_name: self.model_name@,
            color: self.color,
            primary_pod: self.primary_pod,
            real_mac: self.real_mac@,
            current_ble_mac: self.current_ble_mac@,
            encryption_key: optional_bytes(self.encryption_key),
            identified: self.identified,
        }
    }
}

/// The state of a device of which nothing has been reported.
pub open spec fn blank_state() -> PodStateView {
    PodStateView {
        source: DataSource::Unknown,
        left_battery: None,
        right_battery: None,
        case_battery: None,
        left_charging: false,
        right_charging: false,
        case_charging: false,
        left_in_ear: false,
        right_in_ear: false,
        lid_open: None,
        connection_state: None,
        noise_mode: None,
        device_model: 0,
        model_name: Seq::empty(),
        color: 0,
        primary_pod: PodSide::Left,
        real_mac: Seq::empty(),
        current_ble_mac: Seq::empty(),
        encryption_key: None,
        identified: false,
    }
}

impl Default for PodState {
    fn default() -> (res: Self)
        ensures
            res@ == blank_state(),
    {
        PodState {
            source: DataSource::Unknown,
            left_battery: None,
            right_battery: None,
            case_battery: None,
            left_charging: false,
            right_charging: false,
            case_charging: false,
            left_in_ear: false,
            right_in_ear: false,
            lid_open: None,
            connection_state: None,
            noise_mode: None,
            device_model: 0,
            model_name: String::new(),
            color: 0,
            primary_pod: PodSide::default(),
            real_mac: String::new(),
            current_ble_mac: String::new(),
            encryption_key: None,
            identified: false,
        }
    }
}

/// A second copy of a byte string.
pub(crate) fn copy_bytes(bytes: &Vec<u8>) -> (res: Vec<u8>)
    ensures
        res@ == bytes@,
{
    bytes.duplicate()
}

/// A second copy of an optional byte string.
pub(crate) fn copy_optional_bytes(bytes: &Option<Vec<u8>>) -> (res: Option<Vec<u8>>)
    ensures
        optional_bytes(res) == optional_bytes(*bytes),
{
    match bytes {
        Some(b) => Some(copy_bytes(b)),
        None => None,
    }
}

/// A second copy of an optional string.
pub(crate) fn copy_optional_text(text: &Option<String>) -> (res: Option<String>)
    ensures
        optional_text(res) == optional_text(*text),
{
    match text {
        Some(t) => Some(t.clone()),
        None => None,
    }
}

impl Duplicate for PodState {
    fn duplicate(&self) -> (res: Self) {
        PodState {
            source: self.source,
            left_battery: self.left_battery,
            right_battery: self.right_battery,
            case_battery: self.case_battery,
            left_charging: self.left_charging,
            right_charging: self.right_charging,
            case_charging: self.case_charging,
            left_in_ear: self.left_in_ear,
            right_in_ear: self.right_in_ear,
            lid_open: self.lid_open,
            connection_state: self.connection_state,
            noise_mode: self.noise_mode,
            device_model: self.device_model,
            model_name: self.model_name.clone(),
            color: self.color,
            primary_pod: self.primary_pod,
            real_mac: self.real_mac.clone(),
            current_ble_mac: self.current_ble_mac.clone(),
            encryption_key: copy_optional_bytes(&self.encryption_key),
            identified: self.identified,
        }
    }
}

impl Clone for PodState {
    fn clone(&self) -> (res: Self)
        ensures
            res@ == self@,
    {
        self.duplicate()
    }
}

impl PodStateView {
    /// The smaller of the earbud levels that there are.
    pub open spec fn lowest(self) -> Option<u8> {
        match (self.left_battery, self.right_battery) {
            (Some(l), Some(r)) => Some(if l <= r { l } else { r }),
            (Some(l), None) => Some(l),
            (None, r) => r,
        }
    }
}

impl PodState {
    /// Lowest of the two earbuds, which is what the tray and GNOME Settings show.
    pub fn lowest_earbud(&self) -> (res: Option<u8>)
        ensures
            res == self@.lowest(),
    {
        match (self.left_battery, self.right_battery) {
            (Some(l), Some(r)) => Some(if l <= r { l } else { r }),
            (Some(l), None) => Some(l),
            (None, Some(r)) => Some(r),
            (None, None) => None,
        }
    }
}

/// What consumers receive on every update.
#[derive(Debug)]
pub struct Snapshot {
    pub states: MacMap<PodState>,
    pub connected_mac: Option<String>,
    /// Every address we hold an encryption key for, sorted. Independent of whether
    /// the device is currently advertising or connected.
    pub known_keys: Vec<String>,
    /// BlueZ aliases under uppercase addresses - the names the rest of the desktop
    /// shows for these devices. Empty until they are reported, so consumers need a
    /// fallback.
    pub device_names: MacMap<String>,
}

/// What a [`Snapshot`] says.
#[verifier::ext_equal]
pub struct SnapshotView {
    pub states: Map<Seq<char>, PodStateView>,
    pub connected_mac: Option<Seq<char>>,
    pub known_keys: Seq<Seq<char>>,
    pub device_names: Map<Seq<char>, Seq<char>>,
}

impl View for Snapshot {
    type V = SnapshotView;

    open spec fn view(&self) -> SnapshotView {
        SnapshotView {
            states: self.states@,
            connected_mac: optional_text(self.connected_mac),
            known_keys: texts(self.known_keys@),
            device_names: self.device_names@,
        }
    }
}

impl Default for Snapshot {
    fn default() -> (res: Self)
        ensures
            res@ == (SnapshotView {
                states: Map::empty(),
                connected_mac: None,
                known_keys: Seq::empty(),
                device_names: Map::empty(),
            }),
    {
        let res = Snapshot {
            states: MacMap::new(),
            connected_mac: None,
            known_keys: Vec::new(),
            device_names: MacMap::new(),
        };
        assert(res@.known_keys =~= Seq::empty());
        res
    }
}

fn copy_strings(strings: &Vec<String>) -> (res: Vec<String>)
    ensures
        texts(res@) == texts(strings@),
{
    let mut res: Vec<String> = Vec::new();
    for i in 0..strings.len()
        invariant
            res@.len() == i,
            forall|j: int| 0 <= j < i ==> #[trigger] res@[j]@ == strings@[j]@,
    {
        res.push(strings[i].clone());
    }
    assert(texts(res@) =~= texts(strings@));
    res
}

impl Clone for Snapshot {
    fn clone(&self) -> (res: Self)
        ensures
            res@ == self@,
    {
        Snapshot {
            states: self.states.clone(),
            connected_mac: copy_optional_text(&self.connected_mac),
            known_keys: copy_strings(&self.known_keys),
            device_names: self.device_names.clone(),
        }
    }
}

impl SnapshotView {
    /// The state of the device a link is up to, where it has one.
    pub open spec fn connected_state(self) -> Option<PodStateView> {
        match self.connected_mac {
            Some(mac) => lookup(self.states, mac),
            None => None,
        }
    }

    /// Whether `res` is a right answer to what the primary device is: the connected
    /// one where it has a state, else any identified one, and none only if there is
    /// none.
    pub open spec fn has_primary(self, res: Option<PodStateView>) -> bool {
        match self.connected_state() {
            Some(state) => res == Some(state),
            None => match res {
                Some(state) => self.shows_identified(state),
                None => forall|state: PodStateView| !self.shows_identified(state),
            },
        }
    }

    /// Whether `state` is that of a known device.
    pub open spec fn shows_identified(self, state: PodStateView) -> bool {
        state.identified && exists|mac: Seq<char>| #[trigger]
            self.states.contains_key(mac) && self.states[mac] == state
    }
}

impl Snapshot {
    /// The alias kept under `address` as it is written.
    pub fn name_under(&self, address: &str) -> (res: Option<&str>)
        ensures
            match res {
                Some(name) => lookup(self@.device_names, address@) == Some(name@),
                None => lookup(self@.device_names, address@) is None,
            },
    {
        match self.device_names.get(address) {
            Some(name) => Some(name.as_str()),
            None => None,
        }
    }

    /// The BlueZ alias for `mac`, when one is known, in whichever case `mac` is
    /// written.
    pub fn device_name(&self, mac: &str) -> (res: Option<&str>)
        ensures
            match res {
                Some(name) => lookup(self@.device_names, uppercase(mac@)) == Some(name@),
                None => lookup(self@.device_names, uppercase(mac@)) is None,
            },
            is_ascii_text(mac@) ==> match res {
                Some(name) => lookup(self@.device_names, ascii_uppercase(mac@)) == Some(name@),
                None => lookup(self@.device_names, ascii_uppercase(mac@)) is None,
            },
    {
        let address: String = to_uppercase(mac);
        self.name_under(address.as_str())
    }

    /// The device an AAP connection is up for, else any identified device.
    pub fn primary(&self) -> (res: Option<&PodState>)
        ensures
            match self@.connected_state() {
                Some(state) => res is Some && res->0@ == state,
                None => match res {
                    Some(state) => self@.shows_identified(state@),
                    None => forall|state: PodStateView| !self@.shows_identified(state),
                },
            },
            self@.has_primary(
                match res {
                    Some(state) => Some(state@),
                    None => None,
                },
            ),
    {
        if let Some(mac) = &self.connected_mac {
            if let Some(state) = self.states.get(mac.as_str()) {
                return Some(state);
            }
        }
        let count: usize = self.states.len();
        for i in 0..count
            invariant
                count == self.states.keys().len(),
                self@.connected_state() is None,
                self.states.keys().to_set() == self.states@.dom(),
                forall|j: int|
                    0 <= j < i ==> !self.states@[#[trigger] self.states.keys()[j]].identified,
        {
            let state: &PodState = self.states.value_at(i);
            if state.identified {
                assert(self@.states.contains_key(self.states.keys()[i as int]));
                return Some(state);
            }
        }
        assert forall|state: PodStateView| !self@.shows_identified(state) by {
            if self@.shows_identified(state) {
                let mac = choose|mac: Seq<char>| #[trigger]
                    self@.states.contains_key(mac) && self@.states[mac] == state;
                assert(self.states.keys().to_set().contains(mac));
                assert(self.states.keys().contains(mac));
            }
        }
        None
    }
}

/// True when an active AAP connection makes this device's BLE advertisement
/// redundant. Only the connected device is superseded; everything else still counts.
pub fn supersedes_ble(connected_mac: Option<&str>, advertising_mac: &str) -> (res: bool)
    ensures
        res == (connected_mac is Some && connected_mac->0@ == advertising_mac@),
{
    match connected_mac {
        Some(mac) => same_text(mac, advertising_mac),
        None => false,
    }
}

} // verus!
