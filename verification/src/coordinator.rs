//! Centralized AirPods state coordination.
//!
//! Coordinates two data sources and notifies consumers:
//!   - AAP (exact) for the device a link is up to
//!   - BLE advertisements for every other device (10% steps, or exact once decrypted)

use async_channel::{Receiver, Sender};
use vstd::prelude::*;

use crate::aap::battery::{
    has_battery_header, is_battery_packet, parse_battery_packet, parsed, BatteryInfo,
    BatteryParseError,
};
use crate::aap::link::{switch_result, switching_ends, SwitchFailure};
use crate::aap::noise::NoiseMode;
use crate::ble::ProximityData;
use crate::channel::{attempts, feeds, SendOutcome};
use crate::inner::{address_of, Inner, InnerView};
use crate::laws::initially;
use crate::mac_map::MacMap;
use crate::podstate::{
    copy_optional_text, lookup, optional_bytes, optional_text, supersedes_ble, PodState,
    Snapshot,
};
use crate::subscribers::{broadcast_to, Subscribers};

verus! {

/// Coordinates sources and broadcasts snapshots.
#[derive(Debug)]
pub struct Coordinator {
    pub inner: Inner,
    pub subscribers: Subscribers,
}

/// What is known, and to whom it is told.
pub struct CoordinatorView {
    pub inner: InnerView,
    pub subscribers: Seq<Sender<Snapshot>>,
}

impl View for Coordinator {
    type V = CoordinatorView;

    open spec fn view(&self) -> CoordinatorView {
        CoordinatorView { inner: self.inner@, subscribers: self.subscribers@ }
    }
}

impl CoordinatorView {
    /// From here to `after` what is known became `inner`, and every subscriber was
    /// told so.
    pub open spec fn announces(self, after: CoordinatorView, inner: InnerView) -> bool {
        &&& after.inner == inner
        &&& broadcast_to(self.subscribers, after.subscribers, inner.snapshot())
    }

    /// From here to `after` a consumer subscribed and was given `rx`, with what is
    /// known in it already.
    pub open spec fn subscribes(self, after: CoordinatorView, rx: Receiver<Snapshot>) -> bool {
        &&& after.inner == self.inner
        &&& after.subscribers == self.subscribers.push(after.subscribers.last())
        &&& feeds(after.subscribers.last(), rx)
        &&& attempts(after.subscribers.last()) == seq![
            (self.inner.snapshot(), SendOutcome::Sent),
        ]
    }

    /// From here to `after` a battery packet from `mac` was taken in.
    pub open spec fn takes_battery_info(
        self,
        after: CoordinatorView,
        info: BatteryInfo,
        mac: Seq<char>,
        now: u128,
    ) -> bool {
        self.announces(
            after,
            self.inner.published(mac, self.inner.aap_state(info, mac), now),
        )
    }

    /// From here to `after` a report of `mode` by `mac` was taken in: a mode that
    /// is known already is not told again.
    pub open spec fn takes_noise_mode(
        self,
        after: CoordinatorView,
        mode: NoiseMode,
        mac: Seq<char>,
    ) -> bool {
        if lookup(self.inner.noise_modes, mac) == Some(mode) {
            after == self
        } else {
            self.announces(
                after,
                InnerView { noise_modes: self.inner.noise_modes.insert(mac, mode), ..self.inner },
            )
        }
    }

    /// From here to `after` an advertisement was taken in, unless a link to its
    /// sender supersedes it.
    pub open spec fn takes_advertisement(
        self,
        after: CoordinatorView,
        data: ProximityData,
        real_mac: Option<Seq<char>>,
        ble_mac: Seq<char>,
        now: u128,
    ) -> bool {
        if self.inner.connected_mac == Some(address_of(real_mac, ble_mac)) {
            after == self
        } else {
            self.announces(
                after,
                self.inner.published(
                    address_of(real_mac, ble_mac),
                    self.inner.ble_state(data, real_mac, ble_mac),
                    now,
                ),
            )
        }
    }

    /// From here to `after` a key from `mac` was kept; nobody has been told yet.
    pub open spec fn takes_key(
        self,
        after: CoordinatorView,
        mac: Seq<char>,
        key: Seq<u8>,
    ) -> bool {
        after == (CoordinatorView { inner: self.inner.with_key(mac, key), ..self })
    }

    /// From here to `after` the connected device's mode was set, where there is
    /// one.
    pub open spec fn sets_mode(self, after: CoordinatorView, mode: NoiseMode) -> bool {
        match self.inner.connected_mac {
            Some(mac) => self.announces(
                after,
                InnerView { noise_modes: self.inner.noise_modes.insert(mac, mode), ..self.inner },
            ),
            None => after == self,
        }
    }

    /// From here to `after` the connected device was asked to switch to `mode`, which
    /// went as `outcomes` says and ended with `res`: the mode is recorded if every
    /// command succeeded, and otherwise nothing is recorded or told.
    pub open spec fn switches(
        self,
        after: CoordinatorView,
        link_up: bool,
        mode: NoiseMode,
        outcomes: Seq<bool>,
        res: Result<(), SwitchFailure>,
    ) -> bool {
        &&& switching_ends(link_up, mode, outcomes, res)
        &&& if res is Ok {
            self.sets_mode(after, mode)
        } else {
            after == self
        }
    }

    /// From here to `after` the names became `names`, and were told if they differ.
    pub open spec fn takes_names(
        self,
        after: CoordinatorView,
        names: Map<Seq<char>, Seq<char>>,
    ) -> bool {
        if self.inner.device_names == names {
            after == self
        } else {
            self.announces(after, InnerView { device_names: names, ..self.inner })
        }
    }

    /// From here to `after` a link to `mac` came up.
    pub open spec fn connects(self, after: CoordinatorView, mac: Seq<char>) -> bool {
        self.announces(after, InnerView { connected_mac: Some(mac), ..self.inner })
    }

    /// From here to `after` the link went.
    pub open spec fn hangs_up(self, after: CoordinatorView) -> bool {
        self.announces(after, self.hung_up())
    }

    /// What is known once the link that was up has gone.
    pub open spec fn hung_up(self) -> InnerView {
        let down = InnerView { connected_mac: None, ..self.inner };
        match self.inner.connected_mac {
            Some(mac) => down.without_aap(mac),
            None => down,
        }
    }
}

/// `attempt`, asked whether `key` of the device `mac` reads `encrypted`, can reply
/// with `reply`.
pub open spec fn replies<F: Fn(&Vec<u8>, &Vec<u8>, &String) -> Option<ProximityData>>(
    attempt: F,
    encrypted: Seq<u8>,
    key: Seq<u8>,
    mac: Seq<char>,
    reply: Option<ProximityData>,
) -> bool {
    exists|e: Vec<u8>, k: Vec<u8>, m: String|
        e@ == encrypted && k@ == key && m@ == mac && #[trigger] attempt.ensures(
            (&e, &k, &m),
            reply,
        )
}

/// What comes of trying every key of `keys` on an advertisement: the device whose
/// key read it, with what that revealed, or the advertisement as it was, when
/// there was nothing to read or no key read it.
pub open spec fn identifies<F: Fn(&Vec<u8>, &Vec<u8>, &String) -> Option<ProximityData>>(
    keys: Map<Seq<char>, Seq<u8>>,
    before: ProximityData,
    after: ProximityData,
    attempt: F,
    real_mac: Option<Seq<char>>,
) -> bool {
    match real_mac {
        Some(mac) => {
            &&& before.encrypted_portion is Some
            &&& keys.contains_key(mac)
            &&& replies(attempt, before.encrypted_portion->0@, keys[mac], mac, Some(after))
        },
        None => {
            &&& after == before
            &&& before.encrypted_portion is Some ==> forall|mac: Seq<char>| #[trigger]
                keys.contains_key(mac) ==> replies(
                    attempt,
                    before.encrypted_portion->0@,
                    keys[mac],
                    mac,
                    None,
                )
        },
    }
}

/// Tries every key of `keys` against the advertisement's encrypted portion.
///
/// A key that validates identifies the device, letting us map a randomized BLE
/// address back to the real one. `attempt` is given the encrypted portion, a
/// key and the device the key belongs to, and replies with the advertisement
/// as that key reveals it. Returns the real address when identified.
pub fn identify<F: Fn(&Vec<u8>, &Vec<u8>, &String) -> Option<ProximityData>>(
    keys: &MacMap<Vec<u8>>,
    data: &mut ProximityData,
    attempt: F,
) -> (res: Option<String>)
    requires
        forall|e: &Vec<u8>, k: &Vec<u8>, m: &String| #[trigger] attempt.requires((e, k, m)),
    ensures
        identifies(keys@, *old(data), *final(data), attempt, optional_text(res)),
{
    let ghost before = *data;
    let mut found: Option<(usize, ProximityData)> = None;
    let count: usize = keys.len();
    match &data.encrypted_portion {
        None => {
            return None;
        },
        Some(encrypted) => {
            let mut i: usize = 0;
            while i < count && found.is_none()
                invariant
                    i <= count,
                    before.encrypted_portion == Some(*encrypted),
                    count == keys.keys().len(),
                    keys.keys().to_set() == keys@.dom(),
                    forall|e: &Vec<u8>, k: &Vec<u8>, m: &String| #[trigger]
                        attempt.requires((e, k, m)),
                    found is None ==> forall|j: int|
                        0 <= j < i ==> replies(
                            attempt,
                            encrypted@,
                            keys@[#[trigger] keys.keys()[j]],
                            keys.keys()[j],
                            None,
                        ),
                    found matches Some((place, revealed)) ==> place < count && identifies(
                        keys@,
                        before,
                        revealed,
                        attempt,
                        Some(keys.keys()[place as int]),
                    ),
                decreases count - i,
            {
                let real_mac: &String = keys.key_at(i);
                let key: &Vec<u8> = keys.value_at(i);
                let reply: Option<ProximityData> = attempt(encrypted, key, real_mac);
                assert(replies(attempt, encrypted@, key@, real_mac@, reply));
                if let Some(revealed) = reply {
                    found = Some((i, revealed));
                }
                i += 1;
            }
        },
    }
    match found {
        Some((place, revealed)) => {
            *data = revealed;
            Some(keys.key_at(place).clone())
        },
        None => {
            assert forall|mac: Seq<char>| #[trigger] keys@.contains_key(mac) implies replies(
                attempt,
                before.encrypted_portion->0@,
                keys@[mac],
                mac,
                None,
            ) by {
                let listed = keys.keys();
                assert(listed.to_set().contains(mac));
                let j = listed.index_of(mac);
                assert(listed[j] == mac);
            }
            None
        },
    }
}

impl CoordinatorView {
    /// From here to `after` an advertisement was taken in as what the keys reveal of
    /// it.
    pub open spec fn handles_advertisement<
        F: Fn(&Vec<u8>, &Vec<u8>, &String) -> Option<ProximityData>,
    >(
        self,
        after: CoordinatorView,
        data: ProximityData,
        ble_mac: Seq<char>,
        attempt: F,
        now: u128,
    ) -> bool {
        exists|revealed: ProximityData, real_mac: Option<Seq<char>>|
            identifies(self.inner.encryption_keys, data, revealed, attempt, real_mac)
                && #[trigger] self.takes_advertisement(after, revealed, real_mac, ble_mac, now)
    }
}

/// What happened while waiting for the next AAP packet.
#[derive(Debug)]
pub enum ReadEvent {
    /// The link was taken down by someone else.
    ClientGone,
    /// Reading failed: the connection has dropped.
    Failed,
    /// A packet came.
    Packet(PacketReport),
}

/// A packet, with what it reports besides battery levels.
#[derive(Debug)]
pub struct PacketReport {
    pub bytes: Vec<u8>,
    /// The mode, where the packet is a readable noise control report.
    pub noise_mode: Option<NoiseMode>,
    /// The encryption key, where the packet carries one.
    pub encryption_key: Option<Vec<u8>>,
}

/// What the read loop does next.
#[derive(Debug)]
pub enum ReadAction {
    /// Leave the loop.
    Exit,
    /// Take the link down, then leave the loop.
    HangUp,
    /// Wait for the next packet.
    Continue {
        /// Why a packet with a battery header gave no readings.
        battery_error: Option<BatteryParseError>,
        /// A key to save and then announce.
        save_key: Option<Vec<u8>>,
    },
}

/// The complaint about a packet: one that has a battery header and cannot be read.
pub open spec fn battery_complaint(packet: Seq<u8>) -> Option<BatteryParseError> {
    match parsed(packet) {
        Err(e) => if has_battery_header(packet) {
            Some(e)
        } else {
            None
        },
        Ok(_) => None,
    }
}

impl CoordinatorView {
    /// From here to `after` the readings of a packet were taken in, where it has
    /// any.
    pub open spec fn takes_readings(
        self,
        after: CoordinatorView,
        packet: Seq<u8>,
        mac: Seq<char>,
        now: u128,
    ) -> bool {
        match parsed(packet) {
            Ok(info) => self.takes_battery_info(after, info, mac, now),
            Err(_) => after == self,
        }
    }

    /// From here to `after` the mode in a packet was taken in, where it has one.
    pub open spec fn takes_mode(
        self,
        after: CoordinatorView,
        mode: Option<NoiseMode>,
        mac: Seq<char>,
    ) -> bool {
        match mode {
            Some(mode) => self.takes_noise_mode(after, mode, mac),
            None => after == self,
        }
    }

    /// From here to `after` the key in a packet was kept, where it has one.
    pub open spec fn takes_any_key(
        self,
        after: CoordinatorView,
        mac: Seq<char>,
        key: Option<Seq<u8>>,
    ) -> bool {
        match key {
            Some(key) => self.takes_key(after, mac, key),
            None => after == self,
        }
    }

    /// From here to `after` a whole packet was taken in: readings, then mode, then
    /// key.
    pub open spec fn takes_packet(
        self,
        after: CoordinatorView,
        packet: PacketReport,
        mac: Seq<char>,
        now: u128,
    ) -> bool {
        exists|read: CoordinatorView, heard: CoordinatorView|
            {
                &&& #[trigger] self.takes_readings(read, packet.bytes@, mac, now)
                &&& #[trigger] read.takes_mode(heard, packet.noise_mode, mac)
                &&& heard.takes_any_key(after, mac, optional_bytes(packet.encryption_key))
            }
    }

    /// From here to `after` one event of the read loop was taken in, and `action` is
    /// what the loop does next.
    pub open spec fn reads(
        self,
        after: CoordinatorView,
        event: ReadEvent,
        mac: Seq<char>,
        now: u128,
        action: ReadAction,
    ) -> bool {
        match event {
            ReadEvent::ClientGone => action == ReadAction::Exit && after == self,
            ReadEvent::Failed => action == ReadAction::HangUp && after == self,
            ReadEvent::Packet(packet) => {
                &&& action is Continue
                &&& action->battery_error == battery_complaint(packet.bytes@)
                &&& optional_bytes(action->save_key) == optional_bytes(packet.encryption_key)
                &&& self.takes_packet(after, packet, mac, now)
            },
        }
    }
}

impl Coordinator {
    /// Starts with the persisted encryption keys, so BLE decryption works from
    /// first launch, or with none when they could not be loaded.
    pub fn new<E>(loaded: Result<MacMap<Vec<u8>>, E>) -> (res: Self)
        ensures
            res@.inner == (InnerView {
                devices: Map::empty(),
                encryption_keys: match loaded {
                    Ok(keys) => keys@,
                    Err(_) => Map::empty(),
                },
                connected_mac: None,
                device_names: Map::empty(),
                noise_modes: Map::empty(),
            }),
            res@.inner == initially(
                match loaded {
                    Ok(keys) => keys@,
                    Err(_) => Map::empty(),
                },
            ),
            res@.subscribers == Seq::<Sender<Snapshot>>::empty(),
    {
        let encryption_keys: MacMap<Vec<u8>> = match loaded {
            Ok(keys) => keys,
            Err(_) => MacMap::new(),
        };
        Coordinator {
            inner: Inner {
                devices: MacMap::new(),
                encryption_keys,
                connected_mac: None,
                device_names: MacMap::new(),
                noise_modes: MacMap::new(),
            },
            subscribers: Subscribers::new(),
        }
    }

    /// Registers a new consumer. Every subscriber receives every snapshot.
    ///
    /// The current state is delivered immediately. Without that a subscriber which
    /// starts before the first advertisement sees nothing at all.
    pub fn subscribe(&mut self) -> (res: Receiver<Snapshot>)
        ensures
            final(self)@.inner == old(self)@.inner,
            final(self)@.subscribers.len() == old(self)@.subscribers.len() + 1,
            final(self)@.subscribers.drop_last() == old(self)@.subscribers,
            feeds(final(self)@.subscribers.last(), res),
            attempts(final(self)@.subscribers.last()) == seq![
                (old(self)@.inner.snapshot(), SendOutcome::Sent),
            ],
            old(self)@.subscribes(final(self)@, res),
    {
        let current: Snapshot = self.inner.snapshot();
        let res: Receiver<Snapshot> = self.subscribers.subscribe(current);
        assert(self@.subscribers =~= old(self)@.subscribers.push(self@.subscribers.last()));
        res
    }

    /// Tells every subscriber what is known now.
    pub fn announce(&mut self)
        ensures
            old(self)@.announces(final(self)@, old(self)@.inner),
    {
        let snapshot: Snapshot = self.inner.snapshot();
        self.subscribers.broadcast(snapshot);
    }

    /// Replaces the BlueZ alias map and broadcasts if anything changed.
    ///
    /// Names are display-only, so a snapshot is only worth sending when they
    /// actually differ: rebroadcasting an identical map would wake every consumer
    /// for nothing.
    pub fn set_device_names(&mut self, names: MacMap<String>)
        ensures
            old(self)@.takes_names(final(self)@, names@),
    {
        if self.inner.device_names.same_entries(&names) {
            return;
        }
        self.inner.device_names = names;
        self.announce();
    }

    /// The device a link is up to.
    pub fn connected_mac(&self) -> (res: Option<String>)
        ensures
            optional_text(res) == self@.inner.connected_mac,
    {
        copy_optional_text(&self.inner.connected_mac)
    }

    /// Number of devices we hold a state for.
    pub fn device_count(&self) -> (res: usize)
        ensures
            res == self@.inner.devices.dom().len(),
    {
        self.inner.devices.len()
    }

    /// Stores a state under `mac`, prunes stale devices, and broadcasts.
    pub fn publish(&mut self, mac: String, state: PodState, now: u128)
        ensures
            old(self)@.announces(
                final(self)@,
                old(self)@.inner.published(mac@, state@, now),
            ),
    {
        self.inner.publish(mac, state, now);
        self.announce();
    }

    /// A copy of the keys, to be tried with [`identify`].
    pub fn keys_to_try(&self) -> (res: MacMap<Vec<u8>>)
        ensures
            res@ == self@.inner.encryption_keys,
    {
        self.inner.encryption_keys.clone()
    }

    /// Tries every stored key against the advertisement's encrypted portion, as
    /// [`identify`] does. Returns the real address when identified.
    pub fn identify_and_decrypt<F: Fn(&Vec<u8>, &Vec<u8>, &String) -> Option<ProximityData>>(
        &self,
        data: &mut ProximityData,
        attempt: F,
    ) -> (res: Option<String>)
        requires
            forall|e: &Vec<u8>, k: &Vec<u8>, m: &String| #[trigger] attempt.requires((e, k, m)),
        ensures
            identifies(
                self@.inner.encryption_keys,
                *old(data),
                *final(data),
                attempt,
                optional_text(res),
            ),
    {
        identify(&self.inner.encryption_keys, data, attempt)
    }

    /// Takes in an advertisement once its sender has been identified, or not.
    ///
    /// A link only supersedes BLE *for that one device*. Other AirPods keep
    /// advertising and must still be tracked. For the device on the link, AAP data
    /// is exact and current and its advertisements are coarser and lag behind, so
    /// letting them through would overwrite good data with worse. Says whether the
    /// advertisement was taken in.
    pub fn record_advertisement(
        &mut self,
        data: ProximityData,
        real_mac: Option<String>,
        ble_mac: String,
        now: u128,
    ) -> (res: bool)
        ensures
            res == (old(self)@.inner.connected_mac != Some(
                address_of(optional_text(real_mac), ble_mac@),
            )),
            old(self)@.takes_advertisement(
                final(self)@,
                data,
                optional_text(real_mac),
                ble_mac@,
                now,
            ),
    {
        let key_mac: String = match &real_mac {
            Some(mac) => mac.clone(),
            None => ble_mac.clone(),
        };
        let connected: Option<&str> = match &self.inner.connected_mac {
            Some(mac) => Some(mac.as_str()),
            None => None,
        };
        if supersedes_ble(connected, key_mac.as_str()) {
            return false;
        }
        let state: PodState = self.inner.advertised_state(data, &real_mac, ble_mac.as_str());
        self.publish(key_mac, state, now);
        true
    }

    /// Handles one BLE advertisement: identifies its sender with `attempt`, as
    /// [`Coordinator::identify_and_decrypt`] does, and takes it in.
    pub fn handle_advertisement<F: Fn(&Vec<u8>, &Vec<u8>, &String) -> Option<ProximityData>>(
        &mut self,
        data: ProximityData,
        ble_mac: String,
        attempt: F,
        now: u128,
    )
        requires
            forall|e: &Vec<u8>, k: &Vec<u8>, m: &String| #[trigger] attempt.requires((e, k, m)),
        ensures
            exists|revealed: ProximityData, real_mac: Option<Seq<char>>|
                identifies(
                    old(self)@.inner.encryption_keys,
                    data,
                    revealed,
                    attempt,
                    real_mac,
                ) && #[trigger] old(self)@.takes_advertisement(
                    final(self)@,
                    revealed,
                    real_mac,
                    ble_mac@,
                    now,
                ),
            old(self)@.handles_advertisement(final(self)@, data, ble_mac@, attempt, now),
    {
        let mut revealed: ProximityData = data;
        let real_mac: Option<String> = self.identify_and_decrypt(&mut revealed, attempt);
        let ghost identity = optional_text(real_mac);
        let _ = self.record_advertisement(revealed, real_mac, ble_mac, now);
        assert(old(self)@.takes_advertisement(self@, revealed, identity, ble_mac@, now));
    }

    /// Records that a link to `mac_addr` has been established.
    ///
    /// Exact battery for this device from now on; other devices continue over BLE.
    pub fn connect_aap(&mut self, mac_addr: &str)
        ensures
            old(self)@.connects(final(self)@, mac_addr@),
    {
        self.inner.connected_mac = Some(mac_addr.to_owned());
        self.announce();
    }

    /// Records that the link has gone. The device's advertisements count again, and
    /// its last AAP reading is dropped.
    ///
    /// Told even when no link was up: consumers must never be left showing the last
    /// AAP reading.
    pub fn disconnect_aap(&mut self)
        ensures
            old(self)@.hangs_up(final(self)@),
    {
        let mac: Option<String> = self.connected_mac();
        self.inner.connected_mac = None;
        if let Some(mac) = &mac {
            self.inner.drop_aap_state(mac.as_str());
        }
        self.announce();
    }

    /// Takes in one battery packet.
    pub fn handle_battery_info(&mut self, info: BatteryInfo, mac_addr: &str, now: u128)
        ensures
            old(self)@.takes_battery_info(final(self)@, info, mac_addr@, now),
    {
        let state: PodState = self.inner.battery_state(&info, mac_addr);
        self.publish(mac_addr.to_owned(), state, now);
    }

    /// Records a mode the device reported, and broadcasts if it changed.
    ///
    /// The startup dump repeats, and an unchanged mode is not worth waking every
    /// consumer for.
    pub fn handle_noise_mode(&mut self, mode: NoiseMode, mac_addr: &str)
        ensures
            old(self)@.takes_noise_mode(final(self)@, mode, mac_addr@),
    {
        let known: bool = match self.inner.noise_modes.get(mac_addr) {
            Some(m) => *m == mode,
            None => false,
        };
        if known {
            return;
        }
        self.inner.noise_modes.insert(mac_addr.to_owned(), mode);
        self.announce();
    }

    /// Switches the connected device's noise control mode: records the mode once
    /// every command of [`crate::aap::link::plan_noise_control`] has been sent.
    /// `outcomes` says of each whether it succeeded; one that was never sent did not.
    ///
    /// Recorded without waiting for the device to confirm it: the answer names
    /// neither the sub-command nor the mode, and the echo that does arrives only
    /// sometimes. A later report simply confirms what was set. If the link has gone
    /// by now, there is no device to record it for.
    pub fn set_noise_control(
        &mut self,
        mode: NoiseMode,
        link_up: bool,
        outcomes: &[bool],
    ) -> (res: Result<(), SwitchFailure>)
        ensures
            old(self)@.switches(final(self)@, link_up, mode, outcomes@, res),
    {
        let res: Result<(), SwitchFailure> = switch_result(link_up, mode, outcomes);
        if res.is_err() {
            return res;
        }
        if let Some(mac) = self.connected_mac() {
            self.inner.noise_modes.insert(mac, mode);
            self.announce();
        }
        res
    }

    /// Keeps a newly received encryption key, so that it can be saved and then
    /// announced with [`Coordinator::announce`].
    pub fn store_encryption_key(&mut self, mac_addr: &str, key: &Vec<u8>)
        ensures
            old(self)@.takes_key(final(self)@, mac_addr@, key@),
    {
        self.inner.store_encryption_key(mac_addr, key);
    }

    /// Whether any encryption key is held.
    pub fn has_encryption_keys(&self) -> (res: bool)
        ensures
            res == (self@.inner.encryption_keys != Map::<Seq<char>, Seq<u8>>::empty()),
    {
        !self.inner.encryption_keys.is_empty()
    }

    /// Number of devices we hold a key for.
    pub fn known_key_count(&self) -> (res: usize)
        ensures
            res == self@.inner.encryption_keys.dom().len(),
    {
        self.inner.encryption_keys.len()
    }

    /// One turn of the loop that reads AAP packets until the connection drops.
    ///
    /// The mode in a packet is the device's own report: its startup dump, or a mode
    /// changed from another device such as an iPhone.
    pub fn aap_read_step(&mut self, event: ReadEvent, mac_addr: &str, now: u128) -> (res:
        ReadAction)
        ensures
            match event {
                ReadEvent::ClientGone => res == ReadAction::Exit && final(self)@ == old(self)@,
                ReadEvent::Failed => res == ReadAction::HangUp && final(self)@ == old(self)@,
                ReadEvent::Packet(packet) => {
                    &&& res is Continue
                    &&& res->battery_error == battery_complaint(packet.bytes@)
                    &&& optional_bytes(res->save_key) == optional_bytes(packet.encryption_key)
                    &&& old(self)@.takes_packet(final(self)@, packet, mac_addr@, now)
                },
            },
            old(self)@.reads(final(self)@, event, mac_addr@, now, res),
    {
        let packet: PacketReport = match event {
            ReadEvent::ClientGone => {
                return ReadAction::Exit;
            },
            ReadEvent::Failed => {
                return ReadAction::HangUp;
            },
            ReadEvent::Packet(packet) => packet,
        };

        let mut battery_error: Option<BatteryParseError> = None;
        if is_battery_packet(packet.bytes.as_slice()) {
            match parse_battery_packet(packet.bytes.as_slice()) {
                Ok(info) => self.handle_battery_info(info, mac_addr, now),
                Err(e) => {
                    battery_error = Some(e);
                },
            }
        }
        let ghost read = self@;
        assert(old(self)@.takes_readings(read, packet.bytes@, mac_addr@, now));

        if let Some(mode) = packet.noise_mode {
            self.handle_noise_mode(mode, mac_addr);
        }
        let ghost heard = self@;
        assert(read.takes_mode(heard, packet.noise_mode, mac_addr@));

        if let Some(key) = &packet.encryption_key {
            self.store_encryption_key(mac_addr, key);
        }
        ReadAction::Continue { battery_error, save_key: packet.encryption_key }
    }
}

} // verus!
