//! The registry behind every snapshot: devices, keys, names and modes.

use vstd::prelude::*;

use crate::aap::battery::{Battery, BatteryInfo, Status};
use crate::aap::noise::NoiseMode;
use crate::ble::ProximityData;
use crate::mac_map::{Duplicate, MacMap};
use crate::podstate::{
    blank_state, copy_bytes, copy_optional_text, lookup, optional_bytes, optional_text, DataSource,
    PodState, PodStateView, Snapshot, SnapshotView, DEVICE_TTL,
};
use crate::text::{ascending, sort_strings, texts};

verus! {

/// A device's state and the moment it was last heard from, in nanoseconds since
/// some fixed moment.
#[derive(Debug)]
pub struct Entry {
    pub state: PodState,
    pub last_seen: u128,
}

/// What an [`Entry`] says.
#[verifier::ext_equal]
pub struct EntryView {
    pub state: PodStateView,
    pub last_seen: u128,
}

impl View for Entry {
    type V = EntryView;

    open spec fn view(&self) -> EntryView {
        EntryView { state: self.state@, last_seen: self.last_seen }
    }
}

/// Everything that is known, under each device's address.
#[derive(Debug)]
pub struct Inner {
    pub devices: MacMap<Entry>,
    pub encryption_keys: MacMap<Vec<u8>>,
    pub connected_mac: Option<String>,
    pub device_names: MacMap<String>,
    /// Noise control mode per real address, held outside the device entries.
    ///
    /// It arrives on its own schedule - the startup dump can precede the first
    /// battery packet, so the entry that would hold it may not exist yet - and
    /// keeping it here spares every battery packet from carrying the mode forward
    /// the way the model and colour have to.
    pub noise_modes: MacMap<NoiseMode>,
}

/// What an [`Inner`] says.
#[verifier::ext_equal]
pub struct InnerView {
    pub devices: Map<Seq<char>, EntryView>,
    pub encryption_keys: Map<Seq<char>, Seq<u8>>,
    pub connected_mac: Option<Seq<char>>,
    pub device_names: Map<Seq<char>, Seq<char>>,
    pub noise_modes: Map<Seq<char>, NoiseMode>,
}

impl View for Inner {
    type V = InnerView;

    open spec fn view(&self) -> InnerView {
        InnerView {
            devices: self.devices@,
            encryption_keys: self.encryption_keys@,
            connected_mac: optional_text(self.connected_mac),
            device_names: self.device_names@,
            noise_modes: self.noise_modes@,
        }
    }
}

/// How long before `now` the moment `seen` was; nothing for a later moment.
pub open spec fn age(now: u128, seen: u128) -> int {
    if seen <= now {
        now - seen
    } else {
        0
    }
}

/// The level to show for a component that a packet may name.
pub open spec fn level_of(battery: Option<Battery>) -> Option<u8> {
    match battery {
        Some(b) => b.usable_level(),
        None => None,
    }
}

/// Whether a packet says that a component is charging.
pub open spec fn charging(battery: Option<Battery>) -> bool {
    battery is Some && battery->0.status == Status::Charging
}

/// The address an advertisement's state is kept under.
pub open spec fn address_of(real_mac: Option<Seq<char>>, ble_mac: Seq<char>) -> Seq<char> {
    match real_mac {
        Some(mac) => mac,
        None => ble_mac,
    }
}

impl InnerView {
    /// Without the devices unseen for longer than `ttl`.
    pub open spec fn pruned(self, now: u128, ttl: u128) -> InnerView {
        InnerView {
            devices: Map::new(
                |mac: Seq<char>|
                    self.devices.contains_key(mac) && age(now, self.devices[mac].last_seen) <= ttl,
                |mac: Seq<char>| self.devices[mac],
            ),
            ..self
        }
    }

    /// Whether `mac` has a state that came from AAP.
    pub open spec fn on_aap(self, mac: Seq<char>) -> bool {
        self.devices.contains_key(mac) && self.devices[mac].state.source == DataSource::Aap
    }

    /// Without the state of `mac`, where that came from AAP.
    pub open spec fn without_aap(self, mac: Seq<char>) -> InnerView {
        if self.on_aap(mac) {
            InnerView { devices: self.devices.remove(mac), ..self }
        } else {
            self
        }
    }

    /// With `state` under `mac`, seen at `now`, and without the devices that are
    /// stale by then.
    pub open spec fn published(self, mac: Seq<char>, state: PodStateView, now: u128) -> InnerView {
        InnerView {
            devices: self.devices.insert(mac, EntryView { state, last_seen: now }),
            ..self
        }.pruned(now, DEVICE_TTL)
    }

    /// With `key` kept for `mac`, and shown by its state where it has one.
    pub open spec fn with_key(self, mac: Seq<char>, key: Seq<u8>) -> InnerView {
        InnerView {
            devices: if self.devices.contains_key(mac) {
                self.devices.insert(
                    mac,
                    EntryView {
                        state: PodStateView {
                            encryption_key: Some(key),
                            ..self.devices[mac].state
                        },
                        ..self.devices[mac]
                    },
                )
            } else {
                self.devices
            },
            encryption_keys: self.encryption_keys.insert(mac, key),
            ..self
        }
    }

    /// The last state of `mac`, or a blank one.
    pub open spec fn last_state(self, mac: Seq<char>) -> PodStateView {
        if self.devices.contains_key(mac) {
            self.devices[mac].state
        } else {
            blank_state()
        }
    }

    /// What a battery packet from `mac` says of it. The packet carries no model,
    /// colour or orientation: those are what was last known.
    pub open spec fn aap_state(self, info: BatteryInfo, mac: Seq<char>) -> PodStateView {
        PodStateView {
            source: DataSource::Aap,
            left_battery: level_of(info.left),
            right_battery: level_of(info.right),
            case_battery: level_of(info.case),
            left_charging: charging(info.left),
            right_charging: charging(info.right),
            case_charging: charging(info.case),
            real_mac: mac,
            encryption_key: lookup(self.encryption_keys, mac),
            identified: true,
            device_model: self.last_state(mac).device_model,
            model_name: self.last_state(mac).model_name,
            color: self.last_state(mac).color,
            primary_pod: self.last_state(mac).primary_pod,
            ..blank_state()
        }
    }

    /// What an advertisement says of its sender: `real_mac` where a key identified
    /// it, else known only by the address `ble_mac` it sent from.
    pub open spec fn ble_state(
        self,
        data: ProximityData,
        real_mac: Option<Seq<char>>,
        ble_mac: Seq<char>,
    ) -> PodStateView {
        PodStateView {
            source: DataSource::Ble,
            left_battery: data.left_battery,
            right_battery: data.right_battery,
            case_battery: data.case_battery,
            left_charging: data.left_charging,
            right_charging: data.right_charging,
            case_charging: data.case_charging,
            left_in_ear: data.left_in_ear,
            right_in_ear: data.right_in_ear,
            lid_open: data.lid_open,
            connection_state: Some(data.connection_state),
            noise_mode: None,
            device_model: data.device_model,
            model_name: data.model_name@,
            color: data.color,
            primary_pod: data.primary_pod,
            real_mac: match real_mac {
                Some(mac) => mac,
                None => Seq::empty(),
            },
            current_ble_mac: ble_mac,
            encryption_key: lookup(self.encryption_keys, address_of(real_mac, ble_mac)),
            identified: real_mac is Some,
        }
    }

    /// The state of `mac` as consumers see it: with the reported mode, for the
    /// device a link is up to.
    pub open spec fn shown(self, mac: Seq<char>) -> PodStateView {
        if self.connected_mac == Some(mac) {
            PodStateView {
                noise_mode: lookup(self.noise_modes, mac),
                ..self.devices[mac].state
            }
        } else {
            self.devices[mac].state
        }
    }

    /// What consumers are told.
    pub open spec fn snapshot(self) -> SnapshotView {
        SnapshotView {
            states: Map::new(
                |mac: Seq<char>| self.devices.contains_key(mac),
                |mac: Seq<char>| self.shown(mac),
            ),
            connected_mac: self.connected_mac,
            known_keys: ascending(self.encryption_keys.dom()),
            device_names: self.device_names,
        }
    }
}

fn available(battery: &Option<Battery>) -> (res: Option<u8>)
    ensures
        res == level_of(*battery),
{
    match battery {
        Some(b) => b.available_level(),
        None => None,
    }
}

fn is_charging(battery: &Option<Battery>) -> (res: bool)
    ensures
        res == charging(*battery),
{
    match battery {
        Some(b) => b.is_charging(),
        None => false,
    }
}

impl Inner {
    /// Drops devices unseen for longer than `ttl`. This is what keeps rotating BLE
    /// addresses from accumulating forever.
    pub fn prune(&mut self, now: u128, ttl: u128)
        ensures
            final(self)@ == old(self)@.pruned(now, ttl),
    {
        let ghost before = self@;
        let mut i: usize = 0;
        let mut count: usize = self.devices.len();
        while i < count
            invariant
                i <= count,
                count == self.devices.keys().len(),
                self.devices.keys().no_duplicates(),
                self.devices.keys().to_set() == self.devices@.dom(),
                self@ == (InnerView { devices: self.devices@, ..before }),
                forall|mac: Seq<char>| #[trigger]
                    self.devices@.contains_key(mac) ==> before.devices.contains_key(mac)
                        && before.devices[mac] == self.devices@[mac],
                forall|mac: Seq<char>| #[trigger]
                    before.devices.contains_key(mac) && !self.devices@.contains_key(mac) ==> age(
                        now,
                        before.devices[mac].last_seen,
                    ) > ttl,
                forall|j: int|
                    0 <= j < i ==> age(
                        now,
                        self.devices@[#[trigger] self.devices.keys()[j]].last_seen,
                    ) <= ttl,
            decreases count - i,
        {
            let seen: u128 = self.devices.value_at(i).last_seen;
            let unseen_for: u128 = if seen <= now { now - seen } else { 0 };
            let ghost keys = self.devices.keys();
            let ghost devices = self.devices@;
            if unseen_for <= ttl {
                i += 1;
            } else {
                let _ = self.devices.remove_at(i);
                count = self.devices.len();
                proof {
                    assert forall|j: int| 0 <= j < i implies age(
                        now,
                        self.devices@[#[trigger] self.devices.keys()[j]].last_seen,
                    ) <= ttl by {
                        assert(keys[j] != keys[i as int]);
                        assert(self.devices.keys()[j] == keys[j]);
                        assert(devices.dom().contains(keys[j]));
                    }
                }
            }
        }
        proof {
            let after = before.pruned(now, ttl);
            assert forall|mac: Seq<char>| self.devices@.contains_key(mac)
                == after.devices.contains_key(mac) by {
                if self.devices@.contains_key(mac) {
                    assert(self.devices.keys().to_set().contains(mac));
                    let j = self.devices.keys().index_of(mac);
                    assert(self.devices.keys()[j] == mac);
                }
            }
            assert(self.devices@ =~= after.devices);
        }
    }

    /// Drops a device's state if it came from AAP.
    ///
    /// After the link goes the readings are no longer current, and leaving them in
    /// place would report a device as on AAP that has disconnected. BLE repopulates
    /// within a second or two if the device is still in range.
    pub fn drop_aap_state(&mut self, mac: &str)
        ensures
            final(self)@ == old(self)@.without_aap(mac@),
    {
        let on_aap: bool = match self.devices.get(mac) {
            Some(entry) => entry.state.source == DataSource::Aap,
            None => false,
        };
        if on_aap {
            let _ = self.devices.remove(mac);
        }
    }

    /// Stores a state under `mac` and drops stale devices.
    pub fn publish(&mut self, mac: String, state: PodState, now: u128)
        ensures
            final(self)@ == old(self)@.published(mac@, state@, now),
    {
        self.devices.insert(mac, Entry { state, last_seen: now });
        self.prune(now, DEVICE_TTL);
    }

    /// The key held for `mac`.
    fn key_for(&self, mac: &str) -> (res: Option<Vec<u8>>)
        ensures
            optional_bytes(res) == lookup(self@.encryption_keys, mac@),
    {
        match self.encryption_keys.get(mac) {
            Some(key) => Some(copy_bytes(key)),
            None => None,
        }
    }

    /// The state that a battery packet from `mac_addr` gives.
    ///
    /// AAP packets carry battery only - no model, colour or orientation. That
    /// identity is carried forward from whatever was last known of this device, so
    /// that it does not lose its name the moment it connects.
    pub fn battery_state(&self, info: &BatteryInfo, mac_addr: &str) -> (res: PodState)
        ensures
            res@ == self@.aap_state(*info, mac_addr@),
    {
        let mut state: PodState = PodState::default();
        if let Some(entry) = self.devices.get(mac_addr) {
            state.device_model = entry.state.device_model;
            state.model_name = entry.state.model_name.clone();
            state.color = entry.state.color;
            state.primary_pod = entry.state.primary_pod;
        }
        state.source = DataSource::Aap;
        state.left_battery = available(&info.left);
        state.right_battery = available(&info.right);
        state.case_battery = available(&info.case);
        state.left_charging = is_charging(&info.left);
        state.right_charging = is_charging(&info.right);
        state.case_charging = is_charging(&info.case);
        state.real_mac = mac_addr.to_owned();
        state.encryption_key = self.key_for(mac_addr);
        state.identified = true;
        state
    }

    /// The state that an advertisement gives.
    pub fn advertised_state(
        &self,
        data: ProximityData,
        real_mac: &Option<String>,
        ble_mac: &str,
    ) -> (res: PodState)
        ensures
            res@ == self@.ble_state(data, optional_text(*real_mac), ble_mac@),
    {
        let encryption_key: Option<Vec<u8>> = match real_mac {
            Some(mac) => self.key_for(mac.as_str()),
            None => self.key_for(ble_mac),
        };
        PodState {
            source: DataSource::Ble,
            left_battery: data.left_battery,
            right_battery: data.right_battery,
            case_battery: data.case_battery,
            left_charging: data.left_charging,
            right_charging: data.right_charging,
            case_charging: data.case_charging,
            left_in_ear: data.left_in_ear,
            right_in_ear: data.right_in_ear,
            lid_open: data.lid_open,
            connection_state: Some(data.connection_state),
            // BLE carries no noise control mode; `snapshot` attaches the one
            // reported over AAP for the connected device.
            noise_mode: None,
            device_model: data.device_model,
            model_name: data.model_name,
            color: data.color,
            primary_pod: data.primary_pod,
            real_mac: match real_mac {
                Some(mac) => mac.clone(),
                None => String::new(),
            },
            current_ble_mac: ble_mac.to_owned(),
            encryption_key,
            identified: real_mac.is_some(),
        }
    }

    /// Keeps a newly received key, and shows it in the state of its device.
    pub fn store_encryption_key(&mut self, mac_addr: &str, key: &Vec<u8>)
        ensures
            final(self)@ == old(self)@.with_key(mac_addr@, key@),
    {
        self.encryption_keys.insert(mac_addr.to_owned(), copy_bytes(key));
        let ghost before = self.devices@;
        match self.devices.remove(mac_addr) {
            Some(mut entry) => {
                entry.state.encryption_key = Some(copy_bytes(key));
                self.devices.insert(mac_addr.to_owned(), entry);
                assert(before.remove(mac_addr@).insert(mac_addr@, entry@) =~= before.insert(
                    mac_addr@,
                    entry@,
                ));
            },
            None => {
                assert(before.remove(mac_addr@) =~= before);
            },
        }
    }

    /// Everything consumers are told about.
    pub fn snapshot(&self) -> (res: Snapshot)
        ensures
            res@ == self@.snapshot(),
    {
        let mut keys: Vec<String> = Vec::new();
        let key_count: usize = self.encryption_keys.len();
        for i in 0..key_count
            invariant
                key_count == self.encryption_keys.keys().len(),
                keys@.len() == i,
                forall|j: int| 0 <= j < i ==> #[trigger] keys@[j]@ == self.encryption_keys.keys()[j],
        {
            let key: String = self.encryption_keys.key_at(i).clone();
            keys.push(key);
        }
        assert(texts(keys@) =~= self.encryption_keys.keys());
        let known_keys: Vec<String> = sort_strings(keys);
        proof {
            broadcast use vstd::seq_lib::group_to_multiset_ensures;

            let listed = texts(known_keys@);
            self.encryption_keys.keys().lemma_multiset_has_no_duplicates();
            listed.lemma_multiset_has_no_duplicates_conv();
            assert forall|k: Seq<char>| listed.to_set().contains(k)
                <==> self.encryption_keys@.dom().contains(k) by {
                assert(listed.contains(k) <==> listed.to_multiset().count(k) > 0);
                assert(self.encryption_keys.keys().contains(k)
                    <==> self.encryption_keys.keys().to_multiset().count(k) > 0);
                assert(self.encryption_keys.keys().to_set().contains(k)
                    <==> self.encryption_keys.keys().contains(k));
            }
            assert(listed.to_set() =~= self.encryption_keys@.dom());
            crate::text::lemma_ascending_is_unique(listed, self.encryption_keys@.dom());
        }

        let mut states: MacMap<PodState> = MacMap::new();
        let count: usize = self.devices.len();
        for i in 0..count
            invariant
                count == self.devices.keys().len(),
                self.devices.keys().no_duplicates(),
                self.devices.keys().to_set() == self.devices@.dom(),
                forall|mac: Seq<char>| #[trigger]
                    states@.contains_key(mac) ==> self.devices@.contains_key(mac) && states@[mac]
                        == self@.shown(mac),
                forall|j: int| 0 <= j < i ==> states@.contains_key(#[trigger] self.devices.keys()[j]),
        {
            let mac: &String = self.devices.key_at(i);
            let entry: &Entry = self.devices.value_at(i);
            let mut state: PodState = entry.state.duplicate();
            // Only the device on AAP has a mode we can vouch for. A cached one from
            // an earlier session would sit there as a selected radio button for a
            // device we cannot command.
            let connected: bool = match &self.connected_mac {
                Some(c) => *c == *mac,
                None => false,
            };
            if connected {
                state.noise_mode = match self.noise_modes.get(mac.as_str()) {
                    Some(mode) => Some(*mode),
                    None => None,
                };
            }
            assert(state@ == self@.shown(mac@));
            states.insert(mac.clone(), state);
        }
        proof {
            let told = self@.snapshot();
            assert forall|mac: Seq<char>| states@.contains_key(mac) == told.states.contains_key(
                mac,
            ) by {
                if self.devices@.contains_key(mac) {
                    assert(self.devices.keys().to_set().contains(mac));
                    let j = self.devices.keys().index_of(mac);
                    assert(self.devices.keys()[j] == mac);
                }
            }
            assert(states@ =~= told.states);
        }
        Snapshot {
            states,
            connected_mac: copy_optional_text(&self.connected_mac),
            known_keys,
            device_names: self.device_names.clone(),
        }
    }
}

} // verus!
