//! What holds of the library as a whole, over every input and every history of
//! updates.

use async_channel::{Receiver, Sender};
use vstd::prelude::*;

use crate::aap::battery::{
    component_of, entry, entry_offset, latest, parsed, status_of, whole_entries, Battery,
    BatteryInfo, BatteryParseError, Component, Status, ENTRY_LEN, HEADER_LEN,
};
use crate::aap::link::{switching_to, went_well, SwitchFailure};
use crate::aap::noise::NoiseMode;
use crate::ble::ProximityData;
use crate::channel::{attempts, feeds, SendOutcome};
use crate::coordinator::{CoordinatorView, PacketReport};
use crate::inner::{address_of, age, EntryView, InnerView};
use crate::podstate::{
    lookup, optional_bytes, DataSource, PodStateView, Snapshot, SnapshotView, DEVICE_TTL,
};
use crate::subscribers::{broadcast_to, last_outcome, offered, still_open};
use crate::text::ascending;

verus! {

// Battery packets.

/// The battery packet for some entries, each a component code, a level and a
/// status code.
pub open spec fn encoded(entries: Seq<(u8, u8, u8)>) -> Seq<u8> {
    Seq::new(
        (HEADER_LEN + ENTRY_LEN * entries.len()) as nat,
        |i: int|
            if i == 0 || i == 2 || i == 4 {
                0x04u8
            } else if i < 6 {
                0x00u8
            } else if i == 6 {
                entries.len() as u8
            } else {
                let e = entries[(i - HEADER_LEN) / (ENTRY_LEN as int)];
                let place = (i - HEADER_LEN) % (ENTRY_LEN as int);
                if place == 0 {
                    e.0
                } else if place == 2 {
                    e.1
                } else if place == 3 {
                    e.2
                } else {
                    0x01u8
                }
            },
    )
}

/// The last of some entries that is about `component`.
pub open spec fn latest_of(entries: Seq<(u8, u8, u8)>, component: Component) -> Option<Battery>
    decreases entries.len(),
{
    if entries.len() == 0 {
        None
    } else if component_of(entries.last().0) == component {
        Some(
            Battery {
                component,
                level: entries.last().1,
                status: status_of(entries.last().2),
            },
        )
    } else {
        latest_of(entries.drop_last(), component)
    }
}

proof fn lemma_encoded_entry(entries: Seq<(u8, u8, u8)>, i: int)
    requires
        0 <= i < entries.len(),
    ensures
        entry(encoded(entries), i) == (Battery {
            component: component_of(entries[i].0),
            level: entries[i].1,
            status: status_of(entries[i].2),
        }),
{
    let at = entry_offset(i);
    assert((at - HEADER_LEN) / (ENTRY_LEN as int) == i && (at - HEADER_LEN) % (ENTRY_LEN as int)
        == 0);
    assert((at + 2 - HEADER_LEN) / (ENTRY_LEN as int) == i && (at + 2 - HEADER_LEN) % (
    ENTRY_LEN as int) == 2);
    assert((at + 3 - HEADER_LEN) / (ENTRY_LEN as int) == i && (at + 3 - HEADER_LEN) % (
    ENTRY_LEN as int) == 3);
}

proof fn lemma_encoded_latest(entries: Seq<(u8, u8, u8)>, n: nat, component: Component)
    requires
        n <= entries.len(),
    ensures
        latest(encoded(entries), n, component) == latest_of(entries.take(n as int), component),
    decreases n,
{
    if n > 0 {
        lemma_encoded_entry(entries, n - 1);
        lemma_encoded_latest(entries, (n - 1) as nat, component);
        assert(entries.take(n as int).drop_last() =~= entries.take(n - 1));
        assert(entries.take(n as int).last() == entries[n - 1]);
    }
}

/// A battery packet reads back as the entries it was made of: each component's
/// latest, however many entries there are and in whatever order.
pub proof fn law_packet_reads_back(entries: Seq<(u8, u8, u8)>)
    requires
        entries.len() <= 255,
    ensures
        parsed(encoded(entries)) == Ok::<BatteryInfo, BatteryParseError>(
            BatteryInfo {
                left: latest_of(entries, Component::Left),
                right: latest_of(entries, Component::Right),
                case: latest_of(entries, Component::Case),
            },
        ),
{
    let packet = encoded(entries);
    assert(packet.subrange(0, 6) =~= seq![0x04u8, 0x00, 0x04, 0x00, 0x04, 0x00]);
    assert(whole_entries(packet) == entries.len());
    assert(entries.take(entries.len() as int) =~= entries);
    lemma_encoded_latest(entries, entries.len(), Component::Left);
    lemma_encoded_latest(entries, entries.len(), Component::Right);
    lemma_encoded_latest(entries, entries.len(), Component::Case);
}

proof fn lemma_latest_of_prefix(a: Seq<u8>, b: Seq<u8>, n: nat, component: Component)
    requires
        entry_offset(n as int) <= a.len(),
        entry_offset(n as int) <= b.len(),
        forall|i: int| 0 <= i < entry_offset(n as int) ==> a[i] == b[i],
    ensures
        latest(a, n, component) == latest(b, n, component),
    decreases n,
{
    if n > 0 {
        lemma_latest_of_prefix(a, b, (n - 1) as nat, component);
        assert(entry(a, n - 1) == entry(b, n - 1));
    }
}

/// Bytes after the counted entries change nothing.
pub proof fn law_trailing_bytes_are_ignored(packet: Seq<u8>, extra: Seq<u8>)
    requires
        parsed(packet) is Ok,
    ensures
        parsed(packet + extra) == parsed(packet),
{
    let longer = packet + extra;
    assert(longer.subrange(0, 6) =~= packet.subrange(0, 6));
    let n = packet[6] as nat;
    assert(longer[6] == packet[6]);
    lemma_latest_of_prefix(longer, packet, n, Component::Left);
    lemma_latest_of_prefix(longer, packet, n, Component::Right);
    lemma_latest_of_prefix(longer, packet, n, Component::Case);
}

/// A packet cut short anywhere in its entries is refused at the entry that the cut
/// went through, and cut before its count it is no battery packet.
pub proof fn law_cut_packets_are_refused(packet: Seq<u8>, n: int)
    requires
        parsed(packet) is Ok,
        0 <= n < entry_offset(packet[6] as int),
        packet.len() <= usize::MAX,
    ensures
        parsed(packet.take(n)) == Err::<BatteryInfo, BatteryParseError>(
            if n < HEADER_LEN {
                BatteryParseError::NotBatteryPacket
            } else {
                BatteryParseError::Incomplete(
                    entry_offset((n - HEADER_LEN) / (ENTRY_LEN as int)) as usize,
                )
            },
        ),
{
    let cut = packet.take(n);
    if n >= HEADER_LEN {
        assert(cut.subrange(0, 6) =~= packet.subrange(0, 6));
        assert(cut[6] == packet[6]);
    }
}

// Levels.

/// A level that is shown is a percentage, and a component that the device is not
/// talking to has none.
pub proof fn law_levels_are_readings(battery: Battery)
    ensures
        battery.usable_level() is Some ==> battery.usable_level()->0 <= 100
            && battery.usable_level()->0 == battery.level,
        battery.status == Status::Disconnected ==> battery.usable_level() is None,
{
}

/// A battery packet never claims a charge that the device did not report: its
/// levels are percentages, and it says nothing of what AAP does not carry. The
/// identity that it lacks is the one last known.
pub proof fn law_aap_state_claims_only_what_it_knows(
    inner: InnerView,
    info: BatteryInfo,
    mac: Seq<char>,
)
    ensures
        ({
            let state = inner.aap_state(info, mac);
            let last = inner.last_state(mac);
            &&& state.left_battery is Some ==> state.left_battery->0 <= 100
            &&& state.right_battery is Some ==> state.right_battery->0 <= 100
            &&& state.case_battery is Some ==> state.case_battery->0 <= 100
            &&& state.connection_state is None
            &&& state.lid_open is None
            &&& state.noise_mode is None
            &&& !state.left_in_ear && !state.right_in_ear
            &&& state.identified && state.real_mac == mac
            &&& state.device_model == last.device_model && state.model_name == last.model_name
            &&& state.color == last.color && state.primary_pod == last.primary_pod
        }),
{
}

// Devices come and go.

/// A published state is there at once; every other device stays exactly if it was
/// seen recently enough, and stays as it was.
pub proof fn law_publishing_keeps_recent_devices(
    inner: InnerView,
    mac: Seq<char>,
    state: PodStateView,
    now: u128,
)
    ensures
        ({
            let after = inner.published(mac, state, now).devices;
            &&& after.contains_key(mac) && after[mac] == (EntryView { state, last_seen: now })
            &&& forall|m: Seq<char>| #[trigger]
                after.contains_key(m) ==> age(now, after[m].last_seen) <= DEVICE_TTL
            &&& forall|m: Seq<char>|
                m != mac ==> (#[trigger] after.contains_key(m) <==> inner.devices.contains_key(m)
                    && age(now, inner.devices[m].last_seen) <= DEVICE_TTL)
            &&& forall|m: Seq<char>| m != mac && #[trigger] after.contains_key(m) ==> after[m]
                == inner.devices[m]
        }),
{
}

/// A device seen at some moment.
pub struct Sighting {
    pub mac: Seq<char>,
    pub state: PodStateView,
    pub at: u128,
}

/// What is known once some sightings have been published, in order.
pub open spec fn after_sightings(inner: InnerView, sightings: Seq<Sighting>) -> InnerView
    decreases sightings.len(),
{
    if sightings.len() == 0 {
        inner
    } else {
        let last = sightings.last();
        after_sightings(inner, sightings.drop_last()).published(last.mac, last.state, last.at)
    }
}

proof fn lemma_devices_were_sighted(inner: InnerView, sightings: Seq<Sighting>, mac: Seq<char>)
    requires
        inner.devices == Map::<Seq<char>, EntryView>::empty(),
        sightings.len() > 0,
        after_sightings(inner, sightings).devices.contains_key(mac),
    ensures
        exists|i: int|
            0 <= i < sightings.len() && (#[trigger] sightings[i]).mac == mac && age(
                sightings.last().at,
                sightings[i].at,
            ) <= DEVICE_TTL && sightings[i].at == after_sightings(
                inner,
                sightings,
            ).devices[mac].last_seen,
    decreases sightings.len(),
{
    let rest = sightings.drop_last();
    let last = sightings.last();
    if mac == last.mac {
        assert(sightings[sightings.len() - 1].mac == mac);
    } else {
        assert(after_sightings(inner, rest).devices.contains_key(mac));
        assert(rest.len() > 0);
        lemma_devices_were_sighted(inner, rest, mac);
        let i = choose|i: int|
            0 <= i < rest.len() && (#[trigger] rest[i]).mac == mac && rest[i].at == after_sightings(
                inner,
                rest,
            ).devices[mac].last_seen;
        assert(sightings[i] == rest[i]);
    }
}

/// Rotating addresses do not accumulate. However many sightings there have been,
/// and under however many addresses, there are no more devices than sightings
/// within the time a device may go unseen: when the first `stale` of them are older
/// than that, what is left is at most as many devices as there were sightings
/// since.
pub proof fn law_rotating_addresses_do_not_accumulate(
    inner: InnerView,
    sightings: Seq<Sighting>,
    stale: int,
)
    requires
        inner.devices == Map::<Seq<char>, EntryView>::empty(),
        0 <= stale < sightings.len(),
        forall|i: int|
            0 <= i < stale ==> age(sightings.last().at, (#[trigger] sightings[i]).at)
                > DEVICE_TTL,
    ensures
        after_sightings(inner, sightings).devices.dom().finite(),
        after_sightings(inner, sightings).devices.dom().len() <= sightings.len() - stale,
{
    let devices = after_sightings(inner, sightings).devices.dom();
    let recent = sightings.skip(stale).map_values(|s: Sighting| s.mac);
    assert forall|mac: Seq<char>| devices.contains(mac) implies recent.to_set().contains(mac) by {
        lemma_devices_were_sighted(inner, sightings, mac);
        let i = choose|i: int|
            0 <= i < sightings.len() && (#[trigger] sightings[i]).mac == mac && age(
                sightings.last().at,
                sightings[i].at,
            ) <= DEVICE_TTL;
        assert(recent[i - stale] == mac);
    }
    assert(devices.subset_of(recent.to_set()));
    vstd::seq_lib::seq_to_set_is_finite(recent);
    vstd::set_lib::lemma_len_subset(devices, recent.to_set());
    recent.lemma_cardinality_of_set();
}

// Which source counts.

/// A link supersedes the advertisements of its own device and of no other. The
/// device on the link keeps what is known of it; any other sender is recorded as
/// its advertisement says, whether a link is up or not.
pub proof fn law_link_shields_only_its_device(
    before: CoordinatorView,
    after: CoordinatorView,
    data: ProximityData,
    real_mac: Option<Seq<char>>,
    ble_mac: Seq<char>,
    now: u128,
)
    requires
        before.takes_advertisement(after, data, real_mac, ble_mac, now),
    ensures
        ({
            let mac = address_of(real_mac, ble_mac);
            if before.inner.connected_mac == Some(mac) {
                after == before
            } else {
                &&& after.inner.devices.contains_key(mac)
                &&& after.inner.devices[mac].state == before.inner.ble_state(
                    data,
                    real_mac,
                    ble_mac,
                )
                &&& after.inner.devices[mac].state.source == DataSource::Ble
            }
        }),
{
}

/// When a link goes, so does what it last reported of its device; a BLE state of
/// that device, and everything known of any other, is kept.
pub proof fn law_hanging_up_forgets_only_aap_state(before: CoordinatorView)
    ensures
        ({
            let after = before.hung_up();
            &&& after.connected_mac is None
            &&& before.inner.connected_mac is Some ==> !after.on_aap(
                before.inner.connected_mac->0,
            )
            &&& forall|mac: Seq<char>|
                #![trigger after.devices.contains_key(mac)]
                after.devices.contains_key(mac) <==> before.inner.devices.contains_key(mac) && !(
                before.inner.connected_mac == Some(mac) && before.inner.on_aap(mac))
            &&& forall|mac: Seq<char>| #[trigger]
                after.devices.contains_key(mac) ==> after.devices[mac]
                    == before.inner.devices[mac]
            &&& after.encryption_keys == before.inner.encryption_keys
            &&& after.noise_modes == before.inner.noise_modes
            &&& after.device_names == before.inner.device_names
        }),
{
}

// Keys.

/// A key that has been kept is listed in every snapshot, and shown by the state of
/// its device.
pub proof fn law_stored_key_is_listed(inner: InnerView, mac: Seq<char>, key: Seq<u8>)
    requires
        inner.encryption_keys.dom().finite(),
    ensures
        inner.with_key(mac, key).snapshot().known_keys.contains(mac),
        inner.devices.contains_key(mac) ==> inner.with_key(
            mac,
            key,
        ).snapshot().states[mac].encryption_key == Some(key),
{
    let keys = inner.with_key(mac, key).encryption_keys.dom();
    crate::text::law_ascending_lists_the_set(keys);
    assert(keys.contains(mac));
    assert(ascending(keys).contains(mac));
}

// Noise control.

/// A battery packet replaces the whole state of its device and still the device
/// shows the mode it reported, for as long as the link is up to it.
pub proof fn law_mode_survives_battery_packets(
    inner: InnerView,
    info: BatteryInfo,
    mac: Seq<char>,
    now: u128,
)
    requires
        inner.connected_mac == Some(mac),
    ensures
        ({
            let states = inner.published(mac, inner.aap_state(info, mac), now).snapshot().states;
            states.contains_key(mac) && states[mac].noise_mode == lookup(inner.noise_modes, mac)
        }),
{
}

/// Switching a device to another mode succeeds exactly if a link is up and every
/// command to the device succeeds. Only then is the mode recorded, and only if the
/// device is still connected; otherwise nothing is recorded and nobody is told.
pub proof fn law_only_a_completed_switch_is_recorded(
    before: CoordinatorView,
    after: CoordinatorView,
    link_up: bool,
    mode: NoiseMode,
    outcomes: Seq<bool>,
    res: Result<(), SwitchFailure>,
)
    requires
        before.switches(after, link_up, mode, outcomes, res),
    ensures
        res is Ok <==> link_up && outcomes.len() >= switching_to(mode).len() && forall|i: int|
            0 <= i < switching_to(mode).len() ==> #[trigger] outcomes[i],
        res is Err ==> after == before,
        before.inner.connected_mac is None ==> after == before,
        res is Ok && before.inner.connected_mac is Some ==> after.inner.noise_modes
            == before.inner.noise_modes.insert(before.inner.connected_mac->0, mode),
{
    let count = switching_to(mode).len();
    if res is Ok {
        assert forall|i: int| 0 <= i < count implies #[trigger] outcomes[i] by {
            assert(went_well(outcomes, i));
        }
        assert(went_well(outcomes, count - 1));
    }
}

// Histories.

/// One thing that can happen to what is known.
pub enum Update {
    Advertisement {
        data: ProximityData,
        real_mac: Option<Seq<char>>,
        ble_mac: Seq<char>,
        now: u128,
    },
    Battery { info: BatteryInfo, mac: Seq<char>, now: u128 },
    ModeReported { mode: NoiseMode, mac: Seq<char> },
    ModeSet { mode: NoiseMode },
    Key { mac: Seq<char>, key: Seq<u8> },
    Connected { mac: Seq<char> },
    Disconnected,
    Names { names: Map<Seq<char>, Seq<char>> },
}

/// What is known after one update.
pub open spec fn updated(inner: InnerView, update: Update) -> InnerView {
    match update {
        Update::Advertisement { data, real_mac, ble_mac, now } => {
            let mac = address_of(real_mac, ble_mac);
            if inner.connected_mac == Some(mac) {
                inner
            } else {
                inner.published(mac, inner.ble_state(data, real_mac, ble_mac), now)
            }
        },
        Update::Battery { info, mac, now } => inner.published(
            mac,
            inner.aap_state(info, mac),
            now,
        ),
        Update::ModeReported { mode, mac } => InnerView {
            noise_modes: inner.noise_modes.insert(mac, mode),
            ..inner
        },
        Update::ModeSet { mode } => match inner.connected_mac {
            Some(mac) => InnerView { noise_modes: inner.noise_modes.insert(mac, mode), ..inner },
            None => inner,
        },
        Update::Key { mac, key } => inner.with_key(mac, key),
        Update::Connected { mac } => InnerView { connected_mac: Some(mac), ..inner },
        Update::Disconnected => {
            let down = InnerView { connected_mac: None, ..inner };
            match inner.connected_mac {
                Some(mac) => down.without_aap(mac),
                None => down,
            }
        },
        Update::Names { names } => InnerView { device_names: names, ..inner },
    }
}

/// What is known after some updates, in order.
pub open spec fn after_updates(inner: InnerView, updates: Seq<Update>) -> InnerView
    decreases updates.len(),
{
    if updates.len() == 0 {
        inner
    } else {
        updated(after_updates(inner, updates.drop_last()), updates.last())
    }
}

/// What is known at the start, with the keys that were loaded.
pub open spec fn initially(loaded: Map<Seq<char>, Seq<u8>>) -> InnerView {
    InnerView {
        devices: Map::empty(),
        encryption_keys: loaded,
        connected_mac: None,
        device_names: Map::empty(),
        noise_modes: Map::empty(),
    }
}

/// Everything the coordinator takes in is an update of this kind: an advertisement,
/// a battery packet, a mode, a key, a link that came up or went, names. A state that
/// is handed to `Coordinator::publish` directly is not: it may say anything.
pub proof fn law_taking_in_is_an_update(
    before: CoordinatorView,
    after: CoordinatorView,
    data: ProximityData,
    info: BatteryInfo,
    mode: NoiseMode,
    key: Seq<u8>,
    names: Map<Seq<char>, Seq<char>>,
    mac: Seq<char>,
    ble_mac: Seq<char>,
    real_mac: Option<Seq<char>>,
    now: u128,
)
    ensures
        before.takes_advertisement(after, data, real_mac, ble_mac, now) ==> after.inner == updated(
            before.inner,
            Update::Advertisement { data, real_mac, ble_mac, now },
        ),
        before.takes_battery_info(after, info, mac, now) ==> after.inner == updated(
            before.inner,
            Update::Battery { info, mac, now },
        ),
        before.takes_noise_mode(after, mode, mac) ==> after.inner == updated(
            before.inner,
            Update::ModeReported { mode, mac },
        ),
        before.takes_key(after, mac, key) ==> after.inner == updated(
            before.inner,
            Update::Key { mac, key },
        ),
        before.sets_mode(after, mode) ==> after.inner == updated(
            before.inner,
            Update::ModeSet { mode },
        ),
        before.takes_names(after, names) ==> after.inner == updated(
            before.inner,
            Update::Names { names },
        ),
        before.connects(after, mac) ==> after.inner == updated(
            before.inner,
            Update::Connected { mac },
        ),
        before.hangs_up(after) ==> after.inner == updated(before.inner, Update::Disconnected),
{
    if lookup(before.inner.noise_modes, mac) == Some(mode) {
        assert(before.inner.noise_modes.insert(mac, mode) =~= before.inner.noise_modes);
    }
}

/// The update that the readings of a packet from `mac` bring, where it has any.
pub open spec fn reading_updates(packet: Seq<u8>, mac: Seq<char>, now: u128) -> Seq<Update> {
    match parsed(packet) {
        Ok(info) => seq![Update::Battery { info, mac, now }],
        Err(_) => Seq::empty(),
    }
}

/// The update that the mode in a packet from `mac` brings, where it has one.
pub open spec fn mode_updates(mode: Option<NoiseMode>, mac: Seq<char>) -> Seq<Update> {
    match mode {
        Some(mode) => seq![Update::ModeReported { mode, mac }],
        None => Seq::empty(),
    }
}

/// The update that the key in a packet from `mac` brings, where it has one.
pub open spec fn key_updates(key: Option<Seq<u8>>, mac: Seq<char>) -> Seq<Update> {
    match key {
        Some(key) => seq![Update::Key { mac, key }],
        None => Seq::empty(),
    }
}

/// The updates that one packet from `mac` brings.
pub open spec fn packet_updates(packet: PacketReport, mac: Seq<char>, now: u128) -> Seq<Update> {
    reading_updates(packet.bytes@, mac, now) + mode_updates(packet.noise_mode, mac) + key_updates(
        optional_bytes(packet.encryption_key),
        mac,
    )
}

proof fn lemma_one_more_update(inner: InnerView, updates: Seq<Update>, more: Seq<Update>)
    requires
        more.len() <= 1,
    ensures
        after_updates(inner, updates + more) == if more.len() == 0 {
            after_updates(inner, updates)
        } else {
            updated(after_updates(inner, updates), more[0])
        },
{
    if more.len() == 0 {
        assert(updates + more =~= updates);
    } else {
        assert((updates + more).drop_last() =~= updates);
        assert((updates + more).last() == more[0]);
    }
}

/// A packet brings its readings, then its mode, then its key, and nothing else.
pub proof fn law_packet_is_its_updates(
    before: CoordinatorView,
    after: CoordinatorView,
    packet: PacketReport,
    mac: Seq<char>,
    now: u128,
)
    requires
        before.takes_packet(after, packet, mac, now),
    ensures
        after.inner == after_updates(before.inner, packet_updates(packet, mac, now)),
{
    let (read, heard) = choose|read: CoordinatorView, heard: CoordinatorView|
        {
            &&& #[trigger] before.takes_readings(read, packet.bytes@, mac, now)
            &&& #[trigger] read.takes_mode(heard, packet.noise_mode, mac)
            &&& heard.takes_any_key(after, mac, optional_bytes(packet.encryption_key))
        };
    let readings = reading_updates(packet.bytes@, mac, now);
    let mode = mode_updates(packet.noise_mode, mac);
    let key = key_updates(optional_bytes(packet.encryption_key), mac);
    assert(Seq::<Update>::empty() + readings =~= readings);
    lemma_one_more_update(before.inner, Seq::empty(), readings);
    lemma_one_more_update(before.inner, readings, mode);
    lemma_one_more_update(before.inner, readings + mode, key);
    if packet.noise_mode is Some && lookup(read.inner.noise_modes, mac) == packet.noise_mode {
        assert(read.inner.noise_modes.insert(mac, packet.noise_mode->0)
            =~= read.inner.noise_modes);
    }
}

/// What every entry says agrees with the address it is kept under and with the keys
/// that are held: it comes from one of the two sources, AAP states are of the
/// device that reported them, BLE states are kept under the identified address or
/// else the one they were sent from, the key shown is the one held, and no entry
/// carries a mode of its own.
pub open spec fn entry_agrees(inner: InnerView, mac: Seq<char>) -> bool {
    let state = inner.devices[mac].state;
    &&& state.noise_mode is None
    &&& state.encryption_key == lookup(inner.encryption_keys, mac)
    &&& match state.source {
        DataSource::Aap => {
            &&& state.identified
            &&& state.real_mac == mac
            &&& state.lid_open is None
            &&& state.connection_state is None
        },
        DataSource::Ble => {
            &&& state.connection_state is Some
            &&& state.identified ==> state.real_mac == mac
            &&& !state.identified ==> state.current_ble_mac == mac && state.real_mac
                == Seq::<char>::empty()
        },
        DataSource::Unknown => false,
    }
}

/// [`entry_agrees`], for every entry.
pub open spec fn agrees(inner: InnerView) -> bool {
    forall|mac: Seq<char>| #[trigger] inner.devices.contains_key(mac) ==> entry_agrees(inner, mac)
}

/// Each update leaves entries, addresses and keys in agreement.
pub proof fn law_updates_keep_agreement(inner: InnerView, update: Update)
    requires
        agrees(inner),
    ensures
        agrees(updated(inner, update)),
{
    let after = updated(inner, update);
    assert forall|mac: Seq<char>| #[trigger] after.devices.contains_key(mac) implies entry_agrees(
        after,
        mac,
    ) by {
        if inner.devices.contains_key(mac) {
            assert(entry_agrees(inner, mac));
        }
    }
}

/// Whatever updates there have been since the start, entries, addresses and keys are
/// in agreement. Direct calls of `Coordinator::publish` are no updates, and are left
/// out.
pub proof fn law_agreement_always_holds(loaded: Map<Seq<char>, Seq<u8>>, history: Seq<Update>)
    ensures
        agrees(after_updates(initially(loaded), history)),
    decreases history.len(),
{
    if history.len() > 0 {
        law_agreement_always_holds(loaded, history.drop_last());
        law_updates_keep_agreement(
            after_updates(initially(loaded), history.drop_last()),
            history.last(),
        );
    }
}

/// The mode that was last reported by `mac`, or set while a link to it was up.
pub open spec fn last_mode(
    loaded: Map<Seq<char>, Seq<u8>>,
    history: Seq<Update>,
    mac: Seq<char>,
) -> Option<NoiseMode>
    decreases history.len(),
{
    if history.len() == 0 {
        None
    } else {
        let earlier = history.drop_last();
        match history.last() {
            Update::ModeReported { mode, mac: reporter } if reporter == mac => Some(mode),
            Update::ModeSet { mode } if after_updates(initially(loaded), earlier).connected_mac
                == Some(mac) => Some(mode),
            _ => last_mode(loaded, earlier, mac),
        }
    }
}

proof fn lemma_last_mode_is_known(
    loaded: Map<Seq<char>, Seq<u8>>,
    history: Seq<Update>,
    mac: Seq<char>,
)
    ensures
        lookup(after_updates(initially(loaded), history).noise_modes, mac) == last_mode(
            loaded,
            history,
            mac,
        ),
    decreases history.len(),
{
    if history.len() > 0 {
        lemma_last_mode_is_known(loaded, history.drop_last(), mac);
    }
}

/// Whatever updates there have been, no device but the one a link is up to is shown
/// with a mode, and that one is shown with the mode last reported or set for it.
/// Direct calls of `Coordinator::publish` are left out.
pub proof fn law_only_the_connected_device_shows_a_mode(
    loaded: Map<Seq<char>, Seq<u8>>,
    history: Seq<Update>,
    mac: Seq<char>,
)
    ensures
        ({
            let snapshot = after_updates(initially(loaded), history).snapshot();
            snapshot.states.contains_key(mac) ==> snapshot.states[mac].noise_mode == (
            if snapshot.connected_mac == Some(mac) {
                last_mode(loaded, history, mac)
            } else {
                None
            })
        }),
{
    law_agreement_always_holds(loaded, history);
    lemma_last_mode_is_known(loaded, history, mac);
    let inner = after_updates(initially(loaded), history);
    if inner.devices.contains_key(mac) {
        assert(entry_agrees(inner, mac));
    }
}

/// Whatever updates there have been, a state that is shown as from an identified
/// device is of the device it is listed under. Direct calls of
/// `Coordinator::publish` are left out.
pub proof fn law_identified_states_are_of_their_device(
    loaded: Map<Seq<char>, Seq<u8>>,
    history: Seq<Update>,
    mac: Seq<char>,
)
    ensures
        ({
            let states = after_updates(initially(loaded), history).snapshot().states;
            states.contains_key(mac) && states[mac].identified ==> states[mac].real_mac == mac
        }),
{
    law_agreement_always_holds(loaded, history);
    let inner = after_updates(initially(loaded), history);
    if inner.devices.contains_key(mac) {
        assert(entry_agrees(inner, mac));
    }
}

/// Modes are kept only of devices that reported one or had a link up to them: each
/// device with a mode has an update of its own that is a report or a connection.
pub proof fn law_modes_are_of_devices_that_were_connected_or_reported(
    loaded: Map<Seq<char>, Seq<u8>>,
    history: Seq<Update>,
    mac: Seq<char>,
)
    requires
        after_updates(initially(loaded), history).noise_modes.contains_key(mac)
            || after_updates(initially(loaded), history).connected_mac == Some(mac),
    ensures
        exists|i: int| 0 <= i < history.len() && names_device(#[trigger] history[i], mac),
    decreases history.len(),
{
    if history.len() > 0 {
        let earlier = history.drop_last();
        let before = after_updates(initially(loaded), earlier);
        if names_device(history.last(), mac) {
            assert(names_device(history[history.len() - 1], mac));
        } else {
            assert(before.noise_modes.contains_key(mac) || before.connected_mac == Some(mac));
            law_modes_are_of_devices_that_were_connected_or_reported(loaded, earlier, mac);
            let i = choose|i: int|
                0 <= i < earlier.len() && names_device(#[trigger] earlier[i], mac);
            assert(history[i] == earlier[i]);
        }
    }
}

/// Whether an update is a mode report from `mac` or a link to it that came up.
pub open spec fn names_device(update: Update, mac: Seq<char>) -> bool {
    match update {
        Update::ModeReported { mode: _, mac: reporter } => reporter == mac,
        Update::Connected { mac: connected } => connected == mac,
        _ => false,
    }
}

/// A key is never lost: whatever happens next, every device with a key still has
/// one, and only a new key from that device replaces it.
pub proof fn law_keys_are_never_lost(inner: InnerView, updates: Seq<Update>, mac: Seq<char>)
    requires
        inner.encryption_keys.contains_key(mac),
    ensures
        after_updates(inner, updates).encryption_keys.contains_key(mac),
        (forall|i: int|
            0 <= i < updates.len() ==> !((#[trigger] updates[i]) is Key && updates[i]->Key_mac
                == mac)) ==> after_updates(inner, updates).encryption_keys[mac]
            == inner.encryption_keys[mac],
    decreases updates.len(),
{
    if updates.len() > 0 {
        let earlier = updates.drop_last();
        law_keys_are_never_lost(inner, earlier, mac);
        assert(updates.last() == updates[updates.len() - 1]);
        assert(forall|i: int| 0 <= i < earlier.len() ==> #[trigger] earlier[i] == updates[i]);
    }
}

// Consumers.

/// The subscribers at each stage of broadcasting some snapshots one after the
/// other: `stages[k]` before the snapshot `k`, `stages[k + 1]` after it.
pub open spec fn broadcasts(
    stages: Seq<Seq<Sender<Snapshot>>>,
    snapshots: Seq<SnapshotView>,
) -> bool {
    &&& stages.len() == snapshots.len() + 1
    &&& forall|k: int|
        0 <= k < snapshots.len() ==> broadcast_to(
            stages[k],
            stages[k + 1],
            #[trigger] snapshots[k],
        )
}

/// Every one of the snapshots, sent.
pub open spec fn all_sent(snapshots: Seq<SnapshotView>) -> Seq<(SnapshotView, SendOutcome)> {
    snapshots.map_values(|s: SnapshotView| (s, SendOutcome::Sent))
}

/// Two sending ends feed the same receivers.
pub open spec fn same_receivers(a: Sender<Snapshot>, b: Sender<Snapshot>) -> bool {
    forall|rx: Receiver<Snapshot>| #[trigger] feeds(a, rx) == feeds(b, rx)
}

proof fn lemma_broadcast_reaches(
    before: Seq<Sender<Snapshot>>,
    after: Seq<Sender<Snapshot>>,
    snapshot: SnapshotView,
    j: int,
) -> (i: int)
    requires
        broadcast_to(before, after, snapshot),
        0 <= j < after.len(),
    ensures
        0 <= i < before.len(),
        attempts(after[j]) == attempts(before[i]).push((snapshot, SendOutcome::Sent)),
        same_receivers(after[j], before[i]),
{
    let tried = choose|tried: Seq<Sender<Snapshot>>|
        {
            &&& tried.len() == before.len()
            &&& forall|i: int|
                0 <= i < before.len() ==> offered(#[trigger] before[i], tried[i], snapshot)
            &&& after == #[trigger] still_open(tried)
        };
    let open = |tx: Sender<Snapshot>| last_outcome(tx) != SendOutcome::Closed;
    broadcast use vstd::seq_lib::group_filter_ensures;

    assert(after == tried.filter(open));
    assert(open(tried.filter(open)[j]));
    tried.lemma_filter_contains_rev(open, after[j]);
    let i = tried.index_of(after[j]);
    assert(offered(before[i], tried[i], snapshot));
    i
}

/// A subscriber that is still registered after any number of broadcasts has been
/// sent every one of those snapshots, in order, behind what it had been sent
/// before.
pub proof fn law_every_subscriber_gets_every_snapshot(
    stages: Seq<Seq<Sender<Snapshot>>>,
    snapshots: Seq<SnapshotView>,
    j: int,
)
    requires
        broadcasts(stages, snapshots),
        0 <= j < stages.last().len(),
    ensures
        exists|i: int|
            0 <= i < stages[0].len() && attempts(stages.last()[j]) == attempts(
                #[trigger] stages[0][i],
            ) + all_sent(snapshots) && same_receivers(stages.last()[j], stages[0][i]),
    decreases snapshots.len(),
{
    let last = stages.last();
    if snapshots.len() == 0 {
        assert(attempts(last[j]) =~= attempts(stages[0][j]) + all_sent(snapshots));
    } else {
        let earlier = stages.drop_last();
        let sent = snapshots.drop_last();
        let middle = earlier.last();
        assert(broadcast_to(middle, last, snapshots[snapshots.len() - 1]));
        let k = lemma_broadcast_reaches(middle, last, snapshots.last(), j);
        assert forall|m: int| 0 <= m < sent.len() implies broadcast_to(
            earlier[m],
            earlier[m + 1],
            #[trigger] sent[m],
        ) by {
            assert(sent[m] == snapshots[m]);
        }
        law_every_subscriber_gets_every_snapshot(earlier, sent, k);
        let i = choose|i: int|
            0 <= i < earlier[0].len() && attempts(middle[k]) == attempts(
                #[trigger] earlier[0][i],
            ) + all_sent(sent) && same_receivers(middle[k], earlier[0][i]);
        assert(stages[0][i] == earlier[0][i]);
        assert(all_sent(snapshots) =~= all_sent(sent).push((snapshots.last(), SendOutcome::Sent)));
        assert(attempts(last[j]) =~= attempts(stages[0][i]) + all_sent(snapshots));
    }
}

/// A broadcast drops a subscriber only when the snapshot found its channel closed:
/// every other one is still registered, and has been sent the snapshot.
pub proof fn law_only_closed_subscribers_are_dropped(
    before: Seq<Sender<Snapshot>>,
    after: Seq<Sender<Snapshot>>,
    snapshot: SnapshotView,
    i: int,
)
    requires
        broadcast_to(before, after, snapshot),
        0 <= i < before.len(),
    ensures
        exists|tx: Sender<Snapshot>|
            {
                &&& #[trigger] offered(before[i], tx, snapshot)
                &&& last_outcome(tx) == SendOutcome::Closed || (last_outcome(tx)
                    == SendOutcome::Sent && after.contains(tx))
            },
{
    let tried = choose|tried: Seq<Sender<Snapshot>>|
        {
            &&& tried.len() == before.len()
            &&& forall|i: int|
                0 <= i < before.len() ==> offered(#[trigger] before[i], tried[i], snapshot)
            &&& after == #[trigger] still_open(tried)
        };
    let open = |tx: Sender<Snapshot>| last_outcome(tx) != SendOutcome::Closed;
    let tx = tried[i];
    assert(offered(before[i], tx, snapshot));
    if open(tx) {
        tried.lemma_filter_contains(open, i);
    }
}

/// `kept` are the places in `tried` of the subscribers in `after`, in order: those
/// that were sent the latest snapshot. Every other one found its channel closed.
pub open spec fn keeps_open_places(
    tried: Seq<Sender<Snapshot>>,
    after: Seq<Sender<Snapshot>>,
    kept: Seq<int>,
) -> bool {
    &&& kept.len() == after.len()
    &&& forall|j: int| 0 <= j < kept.len() ==> 0 <= #[trigger] kept[j] < tried.len()
    &&& forall|j: int| 0 <= j < kept.len() ==> after[j] == tried[#[trigger] kept[j]]
    &&& forall|j: int, k: int|
        0 <= j < k < kept.len() ==> #[trigger] kept[j] < #[trigger] kept[k]
    &&& forall|i: int|
        0 <= i < tried.len() ==> last_outcome(#[trigger] tried[i]) == if kept.contains(i) {
            SendOutcome::Sent
        } else {
            SendOutcome::Closed
        }
}

proof fn lemma_open_places(tried: Seq<Sender<Snapshot>>) -> (kept: Seq<int>)
    requires
        forall|i: int|
            0 <= i < tried.len() ==> last_outcome(#[trigger] tried[i]) != SendOutcome::Full,
    ensures
        keeps_open_places(tried, still_open(tried), kept),
    decreases tried.len(),
{
    reveal(Seq::filter);
    if tried.len() == 0 {
        Seq::empty()
    } else {
        let last = tried.len() - 1;
        let earlier = tried.drop_last();
        let before = lemma_open_places(earlier);
        let kept = if last_outcome(tried[last]) != SendOutcome::Closed {
            before.push(last)
        } else {
            before
        };
        assert forall|i: int| 0 <= i < tried.len() implies last_outcome(#[trigger] tried[i])
            == if kept.contains(i) {
            SendOutcome::Sent
        } else {
            SendOutcome::Closed
        } by {
            if i < last {
                assert(tried[i] == earlier[i]);
                if before.contains(i) {
                    assert(kept[before.index_of(i)] == i);
                }
            } else if last_outcome(tried[last]) != SendOutcome::Closed {
                assert(kept[before.len() as int] == last);
            }
        }
        kept
    }
}

/// A snapshot that is fanned out is offered to every subscriber once, behind all
/// that was offered to it before. Each whose channel is open is sent its own copy,
/// and those left are the subscribers there were, in their order, less exactly the
/// ones whose channel was found closed.
pub proof fn law_one_copy_for_each_open_subscriber(
    before: Seq<Sender<Snapshot>>,
    after: Seq<Sender<Snapshot>>,
    snapshot: SnapshotView,
)
    requires
        broadcast_to(before, after, snapshot),
    ensures
        exists|tried: Seq<Sender<Snapshot>>, kept: Seq<int>|
            {
                &&& tried.len() == before.len()
                &&& forall|i: int|
                    0 <= i < before.len() ==> attempts(#[trigger] tried[i]) == attempts(
                        before[i],
                    ).push((snapshot, last_outcome(tried[i]))) && same_receivers(
                        tried[i],
                        before[i],
                    )
                &&& #[trigger] keeps_open_places(tried, after, kept)
            },
{
    let tried = choose|tried: Seq<Sender<Snapshot>>|
        {
            &&& tried.len() == before.len()
            &&& forall|i: int|
                0 <= i < before.len() ==> offered(#[trigger] before[i], tried[i], snapshot)
            &&& after == #[trigger] still_open(tried)
        };
    assert forall|i: int| 0 <= i < tried.len() implies last_outcome(#[trigger] tried[i])
        != SendOutcome::Full && attempts(tried[i]) == attempts(before[i]).push(
        (snapshot, last_outcome(tried[i])),
    ) && same_receivers(tried[i], before[i]) by {
        assert(offered(before[i], tried[i], snapshot));
    }
    let kept = lemma_open_places(tried);
    assert(keeps_open_places(tried, after, kept));
}

} // verus!
