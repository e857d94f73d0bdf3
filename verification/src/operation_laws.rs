//! What each operation does to what is known and to whom it is told, in terms of
//! what it is given.

use async_channel::Receiver;
use vstd::prelude::*;

use crate::aap::battery::{parsed, Battery, BatteryInfo, BatteryParseError, Status};
use crate::aap::link::{
    after_steps, next_step, no_connection_text, switching_to, went_well, DeviceCommand, LinkFailure,
    LinkStep, SwitchFailure, SETTLE_MILLIS,
};
use crate::aap::noise::NoiseMode;
use crate::ble::{PodSide, ProximityData};
use crate::channel::{attempts, feeds, SendOutcome};
use crate::coordinator::{
    battery_complaint, identifies, CoordinatorView, PacketReport, ReadAction, ReadEvent,
};
use crate::inner::InnerView;
use crate::keystore::{next_save_step, SaveStep};
use crate::laws::{after_updates, initially, Update};
use crate::packet_laws::starts_like_a_battery_packet;
use crate::podstate::{DataSource, Snapshot};
use crate::subscribers::broadcast_to;

verus! {

/// Every subscriber was told once what is known after.
pub open spec fn told(before: CoordinatorView, after: CoordinatorView) -> bool {
    broadcast_to(before.subscribers, after.subscribers, after.inner.snapshot())
}

/// Of every device but `mac`, what was known stays, unless it was last seen more
/// than 120 seconds before `now`.
pub open spec fn others_stay(
    before: InnerView,
    after: InnerView,
    mac: Seq<char>,
    now: u128,
) -> bool {
    &&& forall|other: Seq<char>|
        other != mac ==> (#[trigger] after.devices.contains_key(other)
            <==> before.devices.contains_key(other) && before.devices[other].last_seen
            + 120_000_000_000 >= now)
    &&& forall|other: Seq<char>|
        other != mac && #[trigger] after.devices.contains_key(other) ==> after.devices[other]
            == before.devices[other]
}

// Advertisements.

/// An advertisement of a device that no link is up to is recorded as it is: the
/// state then kept under the device's address has of every field what the
/// advertisement says, is of BLE and seen now. Everyone is told.
///
/// The address is the device's own where it is known, and else the one the
/// advertisement was sent from.
pub proof fn law_an_advertisement_is_recorded_field_by_field(
    before: CoordinatorView,
    after: CoordinatorView,
    data: ProximityData,
    real_mac: Option<Seq<char>>,
    ble_mac: Seq<char>,
    now: u128,
    mac: Seq<char>,
)
    requires
        before.takes_advertisement(after, data, real_mac, ble_mac, now),
        real_mac == Some(mac) || (real_mac is None && ble_mac == mac),
        before.inner.connected_mac != Some(mac),
    ensures
        after.inner.devices.contains_key(mac),
        after.inner.devices[mac].last_seen == now,
        ({
            let state = after.inner.devices[mac].state;
            &&& state.left_battery == data.left_battery
            &&& state.right_battery == data.right_battery
            &&& state.case_battery == data.case_battery
            &&& state.left_charging == data.left_charging
            &&& state.right_charging == data.right_charging
            &&& state.case_charging == data.case_charging
            &&& state.left_in_ear == data.left_in_ear
            &&& state.right_in_ear == data.right_in_ear
            &&& state.lid_open == data.lid_open
            &&& state.connection_state == Some(data.connection_state)
            &&& state.device_model == data.device_model
            &&& state.model_name == data.model_name@
            &&& state.color == data.color
            &&& state.primary_pod == data.primary_pod
            &&& state.source == DataSource::Ble
            &&& state.noise_mode is None
            &&& state.current_ble_mac == ble_mac
            &&& state.identified <==> real_mac is Some
            &&& real_mac is Some ==> state.real_mac == mac
            &&& real_mac is None ==> state.real_mac.len() == 0
            &&& before.inner.encryption_keys.contains_key(mac) ==> state.encryption_key == Some(
                before.inner.encryption_keys[mac],
            )
            &&& !before.inner.encryption_keys.contains_key(mac) ==> state.encryption_key is None
        }),
        others_stay(before.inner, after.inner, mac, now),
        after.inner.encryption_keys == before.inner.encryption_keys,
        after.inner.connected_mac == before.inner.connected_mac,
        after.inner.device_names == before.inner.device_names,
        after.inner.noise_modes == before.inner.noise_modes,
        told(before, after),
{
}

/// An advertisement of the device a link is up to changes nothing, and nobody is
/// told.
pub proof fn law_an_advertisement_of_the_connected_device_changes_nothing(
    before: CoordinatorView,
    after: CoordinatorView,
    data: ProximityData,
    real_mac: Option<Seq<char>>,
    ble_mac: Seq<char>,
    now: u128,
    mac: Seq<char>,
)
    requires
        before.takes_advertisement(after, data, real_mac, ble_mac, now),
        real_mac == Some(mac) || (real_mac is None && ble_mac == mac),
        before.inner.connected_mac == Some(mac),
    ensures
        after == before,
{
}

/// Trying keys on an advertisement never makes anything up: a device is identified
/// only if its key is held, there was something to read, and the attempt with that
/// key gave what is now known of the advertisement. Otherwise the advertisement is
/// as it was, and every key that is held was tried in vain if there was anything to
/// read.
pub proof fn law_only_a_key_that_reads_identifies<
    F: Fn(&Vec<u8>, &Vec<u8>, &String) -> Option<ProximityData>,
>(
    keys: Map<Seq<char>, Seq<u8>>,
    before: ProximityData,
    after: ProximityData,
    attempt: F,
    real_mac: Option<Seq<char>>,
)
    requires
        identifies(keys, before, after, attempt, real_mac),
    ensures
        real_mac matches Some(mac) ==> {
            &&& keys.contains_key(mac)
            &&& before.encrypted_portion is Some
            &&& exists|e: Vec<u8>, k: Vec<u8>, m: String|
                e@ == before.encrypted_portion->0@ && k@ == keys[mac] && m@ == mac
                    && #[trigger] attempt.ensures((&e, &k, &m), Some(after))
        },
        real_mac is None ==> after == before,
        real_mac is None && before.encrypted_portion is Some ==> forall|mac: Seq<char>| #[trigger]
            keys.contains_key(mac) ==> exists|e: Vec<u8>, k: Vec<u8>, m: String|
                e@ == before.encrypted_portion->0@ && k@ == keys[mac] && m@ == mac
                    && #[trigger] attempt.ensures((&e, &k, &m), None),
        before.encrypted_portion is None ==> real_mac is None,
        keys.dom().is_empty() ==> real_mac is None,
{
    if real_mac is Some {
        assert(keys.dom().contains(real_mac->0));
    }
}

/// An advertisement that has nothing to decrypt, or comes when no key is held, is
/// taken in as it is, under the address it was sent from.
pub proof fn law_without_a_key_the_sender_is_unknown<
    F: Fn(&Vec<u8>, &Vec<u8>, &String) -> Option<ProximityData>,
>(
    before: CoordinatorView,
    after: CoordinatorView,
    data: ProximityData,
    ble_mac: Seq<char>,
    attempt: F,
    now: u128,
)
    requires
        before.handles_advertisement(after, data, ble_mac, attempt, now),
        data.encrypted_portion is None || before.inner.encryption_keys.dom().is_empty(),
    ensures
        before.takes_advertisement(after, data, None, ble_mac, now),
{
    let (revealed, real_mac) = choose|revealed: ProximityData, real_mac: Option<Seq<char>>|
        identifies(before.inner.encryption_keys, data, revealed, attempt, real_mac)
            && #[trigger] before.takes_advertisement(after, revealed, real_mac, ble_mac, now);
    law_only_a_key_that_reads_identifies(
        before.inner.encryption_keys,
        data,
        revealed,
        attempt,
        real_mac,
    );
}

/// An advertisement is taken in as the device whose key read it, with what that key
/// revealed, or as it is under the address it was sent from.
pub proof fn law_an_advertisement_is_of_whom_a_key_identifies<
    F: Fn(&Vec<u8>, &Vec<u8>, &String) -> Option<ProximityData>,
>(
    before: CoordinatorView,
    after: CoordinatorView,
    data: ProximityData,
    ble_mac: Seq<char>,
    attempt: F,
    now: u128,
)
    requires
        before.handles_advertisement(after, data, ble_mac, attempt, now),
        !before.takes_advertisement(after, data, None, ble_mac, now),
    ensures
        exists|mac: Seq<char>, revealed: ProximityData, e: Vec<u8>, k: Vec<u8>, m: String|
            {
                &&& before.inner.encryption_keys.contains_key(mac)
                &&& e@ == data.encrypted_portion->0@
                &&& k@ == before.inner.encryption_keys[mac]
                &&& m@ == mac
                &&& #[trigger] attempt.ensures((&e, &k, &m), Some(revealed))
                &&& #[trigger] before.takes_advertisement(
                    after,
                    revealed,
                    Some(mac),
                    ble_mac,
                    now,
                )
            },
{
    let (revealed, real_mac) = choose|revealed: ProximityData, real_mac: Option<Seq<char>>|
        identifies(before.inner.encryption_keys, data, revealed, attempt, real_mac)
            && #[trigger] before.takes_advertisement(after, revealed, real_mac, ble_mac, now);
    law_only_a_key_that_reads_identifies(
        before.inner.encryption_keys,
        data,
        revealed,
        attempt,
        real_mac,
    );
    let mac = real_mac->0;
    let (e, k, m) = choose|e: Vec<u8>, k: Vec<u8>, m: String|
        e@ == data.encrypted_portion->0@ && k@ == before.inner.encryption_keys[mac] && m@ == mac
            && #[trigger] attempt.ensures((&e, &k, &m), Some(revealed));
    assert(attempt.ensures((&e, &k, &m), Some(revealed)));
    assert(before.takes_advertisement(after, revealed, Some(mac), ble_mac, now));
}

// Battery packets.

/// A level and a charging flag say what the reading of their component says: the
/// level is its level byte exactly if there is a reading that is not disconnected
/// and a percentage, and the flag is set exactly if there is one that is charging.
pub open spec fn shows_reading(level: Option<u8>, charging: bool, reading: Option<Battery>) -> bool {
    &&& level is Some <==> reading is Some && reading->0.status != Status::Disconnected
        && reading->0.level <= 100
    &&& level is Some ==> level->0 == reading->0.level
    &&& charging <==> reading is Some && reading->0.status == Status::Charging
}

/// A battery packet is recorded component by component: the left earbud, the right
/// one and the case each show their own reading. The device keeps the model, the
/// name, the colour and the orientation it was known by, and of what AAP does not
/// carry nothing is claimed. Everyone is told.
pub proof fn law_a_battery_packet_is_recorded_component_by_component(
    before: CoordinatorView,
    after: CoordinatorView,
    info: BatteryInfo,
    mac: Seq<char>,
    now: u128,
)
    requires
        before.takes_battery_info(after, info, mac, now),
    ensures
        after.inner.devices.contains_key(mac),
        after.inner.devices[mac].last_seen == now,
        ({
            let state = after.inner.devices[mac].state;
            &&& shows_reading(state.left_battery, state.left_charging, info.left)
            &&& shows_reading(state.right_battery, state.right_charging, info.right)
            &&& shows_reading(state.case_battery, state.case_charging, info.case)
            &&& state.source == DataSource::Aap
            &&& state.identified
            &&& state.real_mac == mac
            &&& !state.left_in_ear
            &&& !state.right_in_ear
            &&& state.lid_open is None
            &&& state.connection_state is None
            &&& state.noise_mode is None
            &&& state.current_ble_mac.len() == 0
            &&& before.inner.encryption_keys.contains_key(mac) ==> state.encryption_key == Some(
                before.inner.encryption_keys[mac],
            )
            &&& !before.inner.encryption_keys.contains_key(mac) ==> state.encryption_key is None
        }),
        before.inner.devices.contains_key(mac) ==> {
            let state = after.inner.devices[mac].state;
            let known = before.inner.devices[mac].state;
            &&& state.device_model == known.device_model
            &&& state.model_name == known.model_name
            &&& state.color == known.color
            &&& state.primary_pod == known.primary_pod
        },
        !before.inner.devices.contains_key(mac) ==> {
            let state = after.inner.devices[mac].state;
            &&& state.device_model == 0
            &&& state.model_name.len() == 0
            &&& state.color == 0
            &&& state.primary_pod == PodSide::Left
        },
        others_stay(before.inner, after.inner, mac, now),
        after.inner.encryption_keys == before.inner.encryption_keys,
        after.inner.connected_mac == before.inner.connected_mac,
        after.inner.device_names == before.inner.device_names,
        after.inner.noise_modes == before.inner.noise_modes,
        told(before, after),
{
}

/// A packet is complained about exactly if it starts like a battery packet and is
/// shorter than its count says.
pub proof fn law_only_cut_battery_packets_are_complained_about(packet: Seq<u8>)
    requires
        packet.len() <= usize::MAX,
    ensures
        battery_complaint(packet) is Some <==> starts_like_a_battery_packet(packet) && packet.len()
            < 7 + 5 * packet[6],
        battery_complaint(packet) is Some ==> parsed(packet) == Err::<
            BatteryInfo,
            BatteryParseError,
        >(battery_complaint(packet)->0),
{
    crate::packet_laws::law_battery_packets_are_known_by_their_first_bytes(packet);
    crate::packet_laws::law_packets_are_read_or_refused_by_their_length(packet);
}

/// A packet that only has readings is taken in as the battery packet it is; one
/// that only reports a mode, as that report; and one that has neither tells nobody
/// anything and leaves devices, link, names and modes as they were.
pub proof fn law_each_part_of_a_packet_is_taken_in(
    before: CoordinatorView,
    after: CoordinatorView,
    packet: PacketReport,
    mac: Seq<char>,
    now: u128,
)
    requires
        before.takes_packet(after, packet, mac, now),
        packet.encryption_key is None,
    ensures
        parsed(packet.bytes@) is Ok && packet.noise_mode is None ==> before.takes_battery_info(
            after,
            parsed(packet.bytes@)->Ok_0,
            mac,
            now,
        ),
        parsed(packet.bytes@) is Err && packet.noise_mode is Some ==> before.takes_noise_mode(
            after,
            packet.noise_mode->0,
            mac,
        ),
        parsed(packet.bytes@) is Err && packet.noise_mode is None ==> after == before,
        parsed(packet.bytes@) is Ok && packet.noise_mode is Some ==> exists|read: CoordinatorView|
            #[trigger] before.takes_battery_info(read, parsed(packet.bytes@)->Ok_0, mac, now)
                && read.takes_noise_mode(after, packet.noise_mode->0, mac),
{
}

/// The key in a packet is kept for the device the packet came from, and is the only
/// thing that it adds to the keys. Nobody is told of it yet.
pub proof fn law_the_key_in_a_packet_is_kept(
    before: CoordinatorView,
    after: CoordinatorView,
    packet: PacketReport,
    mac: Seq<char>,
    now: u128,
)
    requires
        before.takes_packet(after, packet, mac, now),
    ensures
        packet.encryption_key is None ==> after.inner.encryption_keys
            == before.inner.encryption_keys,
        packet.encryption_key is Some ==> after.inner.encryption_keys
            == before.inner.encryption_keys.insert(mac, packet.encryption_key->0@),
        packet.encryption_key is Some && after.inner.devices.contains_key(mac)
            ==> after.inner.devices[mac].state.encryption_key == Some(packet.encryption_key->0@),
        parsed(packet.bytes@) is Err && packet.noise_mode is None ==> after.subscribers
            == before.subscribers,
        after.inner.connected_mac == before.inner.connected_mac,
        after.inner.device_names == before.inner.device_names,
{
}

/// The read loop ends when the link is gone and hangs up when reading fails, and in
/// both cases has changed nothing. After any packet it goes on, with the key to save
/// that the packet carried and with a complaint exactly if it starts like a battery
/// packet and is too short for its count.
pub proof fn law_the_read_loop_goes_on_after_any_packet(
    before: CoordinatorView,
    after: CoordinatorView,
    event: ReadEvent,
    mac: Seq<char>,
    now: u128,
    action: ReadAction,
)
    requires
        before.reads(after, event, mac, now, action),
    ensures
        action is Exit <==> event is ClientGone,
        action is HangUp <==> event is Failed,
        !(event is Packet) ==> after == before,
        event matches ReadEvent::Packet(packet) ==> {
            &&& action is Continue
            &&& before.takes_packet(after, packet, mac, now)
            &&& action->save_key is Some <==> packet.encryption_key is Some
            &&& packet.encryption_key is Some ==> action->save_key->0@ == packet.encryption_key->0@
            &&& packet.bytes@.len() <= usize::MAX ==> (action->battery_error is Some
                <==> starts_like_a_battery_packet(packet.bytes@) && packet.bytes@.len() < 7 + 5
                * packet.bytes@[6])
        },
{
    if let ReadEvent::Packet(packet) = event {
        if packet.bytes@.len() <= usize::MAX {
            law_only_cut_battery_packets_are_complained_about(packet.bytes@);
        }
    }
}

// Modes.

/// A reported mode is then the mode of the device that reported it and of no other,
/// and everyone is told, exactly if it was not known already. Nothing else changes.
pub proof fn law_a_reported_mode_is_kept(
    before: CoordinatorView,
    after: CoordinatorView,
    mode: NoiseMode,
    mac: Seq<char>,
)
    requires
        before.takes_noise_mode(after, mode, mac),
    ensures
        after.inner.noise_modes.contains_key(mac) && after.inner.noise_modes[mac] == mode,
        after.inner.noise_modes.remove(mac) == before.inner.noise_modes.remove(mac),
        before.inner.noise_modes.contains_key(mac) && before.inner.noise_modes[mac] == mode
            ==> after == before,
        !(before.inner.noise_modes.contains_key(mac) && before.inner.noise_modes[mac] == mode)
            ==> told(before, after),
        after.inner.devices == before.inner.devices,
        after.inner.encryption_keys == before.inner.encryption_keys,
        after.inner.connected_mac == before.inner.connected_mac,
        after.inner.device_names == before.inner.device_names,
{
    assert(after.inner.noise_modes.remove(mac) =~= before.inner.noise_modes.remove(mac));
}

/// A mode that was set is then the mode of the connected device and of no other, and
/// everyone is told, even of one that was known. Without a connected device nothing
/// changes and nobody is told.
pub proof fn law_a_set_mode_is_that_of_the_connected_device(
    before: CoordinatorView,
    after: CoordinatorView,
    mode: NoiseMode,
)
    requires
        before.sets_mode(after, mode),
    ensures
        before.inner.connected_mac is None ==> after == before,
        before.inner.connected_mac matches Some(mac) ==> {
            &&& after.inner.noise_modes.contains_key(mac)
            &&& after.inner.noise_modes[mac] == mode
            &&& after.inner.noise_modes.remove(mac) == before.inner.noise_modes.remove(mac)
            &&& told(before, after)
        },
        after.inner.devices == before.inner.devices,
        after.inner.encryption_keys == before.inner.encryption_keys,
        after.inner.connected_mac == before.inner.connected_mac,
        after.inner.device_names == before.inner.device_names,
{
    if before.inner.connected_mac is Some {
        let mac = before.inner.connected_mac->0;
        assert(after.inner.noise_modes.remove(mac) =~= before.inner.noise_modes.remove(mac));
    }
}

/// Switching to Off first allows Off and then sets it; switching to any other mode
/// sets it and does nothing else. Whatever the mode, setting it comes last.
pub proof fn law_only_off_has_to_be_allowed(mode: NoiseMode)
    ensures
        switching_to(mode).len() == if mode == NoiseMode::Off {
            2nat
        } else {
            1nat
        },
        switching_to(mode).last() == DeviceCommand::SetNoiseMode(mode),
        switching_to(mode).len() == 2 <==> switching_to(mode).first()
            == DeviceCommand::AllowOffListeningMode(true),
        switching_to(mode).no_duplicates(),
{
}

/// Command `i` is the first that failed or was never sent.
pub open spec fn first_to_fail(outcomes: Seq<bool>, i: int) -> bool {
    &&& i <= outcomes.len()
    &&& i < outcomes.len() ==> !outcomes[i]
    &&& forall|j: int| 0 <= j < i ==> #[trigger] outcomes[j]
}

/// A switch that ends with a failed command names the first one that failed: all
/// before it succeeded. Without a link it ends with that, and no other way. When all
/// succeeded the mode is set.
pub proof fn law_the_first_failed_command_is_named(
    before: CoordinatorView,
    after: CoordinatorView,
    link_up: bool,
    mode: NoiseMode,
    outcomes: Seq<bool>,
    res: Result<(), SwitchFailure>,
)
    requires
        before.switches(after, link_up, mode, outcomes, res),
    ensures
        res == Err::<(), SwitchFailure>(SwitchFailure::NoConnection) <==> !link_up,
        res is Ok ==> before.sets_mode(after, mode),
        res is Err ==> after == before,
        res matches Err(SwitchFailure::Command(command)) ==> exists|i: int|
            0 <= i < switching_to(mode).len() && switching_to(mode)[i] == command
                && #[trigger] first_to_fail(outcomes, i),
{
    if res is Err && res->Err_0 is Command {
        let command = res->Err_0->Command_0;
        let i = choose|i: int|
            {
                &&& 0 <= i < switching_to(mode).len()
                &&& command == switching_to(mode)[i]
                &&& !#[trigger] went_well(outcomes, i)
                &&& forall|j: int|
                    0 <= j < i ==> #[trigger] went_well(outcomes, j)
            };
        assert forall|j: int| 0 <= j < i implies #[trigger] outcomes[j] by {
            assert(went_well(outcomes, j));
        }
        assert(i > 0 ==> went_well(outcomes, i - 1));
        assert(!went_well(outcomes, i));
        assert(first_to_fail(outcomes, i));
    }
}

// Names, link, keys and subscribers.

/// New names replace the old ones whole, and everyone is told exactly if they
/// differ. Nothing else changes.
pub proof fn law_new_names_replace_the_old(
    before: CoordinatorView,
    after: CoordinatorView,
    names: Map<Seq<char>, Seq<char>>,
)
    requires
        before.takes_names(after, names),
    ensures
        after.inner.device_names == names,
        names == before.inner.device_names ==> after == before,
        names != before.inner.device_names ==> told(before, after),
        after.inner.devices == before.inner.devices,
        after.inner.encryption_keys == before.inner.encryption_keys,
        after.inner.connected_mac == before.inner.connected_mac,
        after.inner.noise_modes == before.inner.noise_modes,
{
}

/// A link that came up makes its device the connected one, whichever was before.
/// Nothing else changes, and everyone is told.
pub proof fn law_a_link_changes_only_who_is_connected(
    before: CoordinatorView,
    after: CoordinatorView,
    mac: Seq<char>,
)
    requires
        before.connects(after, mac),
    ensures
        after.inner.connected_mac == Some(mac),
        after.inner.devices == before.inner.devices,
        after.inner.encryption_keys == before.inner.encryption_keys,
        after.inner.device_names == before.inner.device_names,
        after.inner.noise_modes == before.inner.noise_modes,
        told(before, after),
{
}

/// Once a link has gone nobody is connected, the device it was up to is without its
/// AAP state, and any other state is as it was. Everyone is told, even when no link
/// was up.
pub proof fn law_a_lost_link_takes_only_its_reading(
    before: CoordinatorView,
    after: CoordinatorView,
    mac: Seq<char>,
)
    requires
        before.hangs_up(after),
    ensures
        after.inner.connected_mac is None,
        after.inner.devices.contains_key(mac) <==> before.inner.devices.contains_key(mac) && !(
        before.inner.connected_mac == Some(mac) && before.inner.devices[mac].state.source
            == DataSource::Aap),
        after.inner.devices.contains_key(mac) ==> after.inner.devices[mac]
            == before.inner.devices[mac],
        after.inner.encryption_keys == before.inner.encryption_keys,
        after.inner.device_names == before.inner.device_names,
        after.inner.noise_modes == before.inner.noise_modes,
        told(before, after),
{
}

/// A key that came is then the one held for its device, and the keys of all others
/// are as they were. The state of the device, where there is one, shows it. Nobody
/// has been told.
pub proof fn law_a_received_key_is_held(
    before: CoordinatorView,
    after: CoordinatorView,
    mac: Seq<char>,
    key: Seq<u8>,
)
    requires
        before.takes_key(after, mac, key),
    ensures
        after.inner.encryption_keys.contains_key(mac) && after.inner.encryption_keys[mac] == key,
        after.inner.encryption_keys.remove(mac) == before.inner.encryption_keys.remove(mac),
        after.inner.devices.dom() == before.inner.devices.dom(),
        after.inner.devices.remove(mac) == before.inner.devices.remove(mac),
        before.inner.devices.contains_key(mac) ==> {
            &&& after.inner.devices[mac].state.encryption_key == Some(key)
            &&& after.inner.devices[mac].last_seen == before.inner.devices[mac].last_seen
        },
        after.inner.connected_mac == before.inner.connected_mac,
        after.inner.device_names == before.inner.device_names,
        after.inner.noise_modes == before.inner.noise_modes,
        after.subscribers == before.subscribers,
{
    assert(after.inner.encryption_keys.remove(mac) =~= before.inner.encryption_keys.remove(mac));
    assert(after.inner.devices.dom() =~= before.inner.devices.dom());
    assert(after.inner.devices.remove(mac) =~= before.inner.devices.remove(mac));
}

/// A new subscriber stands last, behind all there were, and what is known is in its
/// channel already, once. Nothing else changes.
pub proof fn law_a_new_subscriber_has_the_current_state(
    before: CoordinatorView,
    after: CoordinatorView,
    rx: Receiver<Snapshot>,
)
    requires
        before.subscribes(after, rx),
    ensures
        after.inner == before.inner,
        after.subscribers.len() == before.subscribers.len() + 1,
        forall|i: int|
            0 <= i < before.subscribers.len() ==> #[trigger] after.subscribers[i]
                == before.subscribers[i],
        feeds(after.subscribers.last(), rx),
        attempts(after.subscribers.last()).len() == 1,
        attempts(after.subscribers.last())[0].0 == after.inner.snapshot(),
        attempts(after.subscribers.last())[0].1 == SendOutcome::Sent,
{
    let subscribers = before.subscribers.push(after.subscribers.last());
    assert forall|i: int| 0 <= i < before.subscribers.len() implies #[trigger] after.subscribers[i]
        == before.subscribers[i] by {
        assert(subscribers[i] == before.subscribers[i]);
    }
}

/// At the start the keys that were loaded are held, and nothing else is known.
pub proof fn law_at_the_start_only_keys_are_known(loaded: Map<Seq<char>, Seq<u8>>)
    ensures
        initially(loaded).encryption_keys == loaded,
        initially(loaded).devices.dom().is_empty(),
        initially(loaded).connected_mac is None,
        initially(loaded).device_names.dom().is_empty(),
        initially(loaded).noise_modes.dom().is_empty(),
{
}

/// An announcement tells everyone what it leaves known.
pub proof fn law_an_announcement_tells_what_is_known(
    before: CoordinatorView,
    after: CoordinatorView,
    inner: InnerView,
)
    requires
        before.announces(after, inner),
    ensures
        after.inner == inner,
        told(before, after),
{
}

/// A key is written to disk exactly after the key store took it, and what comes
/// after the disk is the announcement, whether that went well or not.
pub proof fn law_the_disk_follows_the_key_store(step: SaveStep, succeeded: bool)
    ensures
        next_save_step(step, succeeded) == SaveStep::Save <==> step == SaveStep::Cache
            && succeeded,
        next_save_step(step, succeeded) != SaveStep::Cache,
{
}

// Bringing a link up.

/// A link is brought up in this order: open, handshake, wait, battery, features.
/// After each step that succeeds comes the next one, and the wait always does.
pub proof fn law_steps_come_in_their_order(outcomes: Seq<bool>)
    requires
        forall|i: int| 0 <= i < outcomes.len() ==> #[trigger] outcomes[i],
    ensures
        outcomes.len() == 0 ==> after_steps(LinkStep::Open, outcomes) == Ok::<
            LinkStep,
            LinkFailure,
        >(LinkStep::Open),
        outcomes.len() == 1 ==> after_steps(LinkStep::Open, outcomes) == Ok::<
            LinkStep,
            LinkFailure,
        >(LinkStep::Handshake),
        outcomes.len() == 2 ==> after_steps(LinkStep::Open, outcomes) == Ok::<
            LinkStep,
            LinkFailure,
        >(LinkStep::Settle),
        outcomes.len() == 3 ==> after_steps(LinkStep::Open, outcomes) == Ok::<
            LinkStep,
            LinkFailure,
        >(LinkStep::RequestBattery),
        outcomes.len() == 4 ==> after_steps(LinkStep::Open, outcomes) == Ok::<
            LinkStep,
            LinkFailure,
        >(LinkStep::EnableFeatures),
        outcomes.len() >= 5 ==> after_steps(LinkStep::Open, outcomes) == Ok::<
            LinkStep,
            LinkFailure,
        >(LinkStep::Up),
{
    reveal_with_fuel(after_steps, 6);
    if outcomes.len() >= 5 {
        crate::aap::link::law_link_needs_every_step(outcomes);
    } else if outcomes.len() >= 1 {
        let a = outcomes.drop_first();
        if outcomes.len() >= 2 {
            assert(a[0] == outcomes[1]);
            let b = a.drop_first();
            if outcomes.len() >= 3 {
                assert(b[0] == outcomes[2]);
                let c = b.drop_first();
                if outcomes.len() >= 4 {
                    assert(c[0] == outcomes[3]);
                }
            }
        }
    }
}

/// A device is given half a second to process the handshake.
pub proof fn law_the_wait_is_half_a_second()
    ensures
        2 * SETTLE_MILLIS == 1000,
{
}

/// A step that fails ends the work with its own failure, the wait and a link that
/// is up excepted, which cannot fail.
pub proof fn law_a_failed_step_is_named(step: LinkStep)
    ensures
        next_step(step, false) is Err <==> step != LinkStep::Settle && step != LinkStep::Up,
        next_step(step, true) is Ok,
        next_step(step, false) == Err::<LinkStep, LinkFailure>(LinkFailure::Open) <==> step
            == LinkStep::Open,
        next_step(step, false) == Err::<LinkStep, LinkFailure>(LinkFailure::Handshake) <==> step
            == LinkStep::Handshake,
        next_step(step, false) == Err::<LinkStep, LinkFailure>(LinkFailure::RequestBattery)
            <==> step == LinkStep::RequestBattery,
        next_step(step, false) == Err::<LinkStep, LinkFailure>(LinkFailure::EnableFeatures)
            <==> step == LinkStep::EnableFeatures,
{
}

/// Each failure is told in its own words: none for a connection that does not open
/// and for a command other than allowing Off, which give their reason alone.
pub proof fn law_failures_have_their_own_words(mode: NoiseMode, allow: bool)
    ensures
        LinkFailure::Open.spoken() is None,
        LinkFailure::Handshake.spoken() == Some("failed to send handshake"@),
        LinkFailure::RequestBattery.spoken() == Some("failed to request battery"@),
        LinkFailure::EnableFeatures.spoken() == Some("failed to enable features"@),
        DeviceCommand::AllowOffListeningMode(allow).spoken() == Some(
            "failed to allow Off as a listening mode"@,
        ),
        DeviceCommand::SetNoiseMode(mode).spoken() is None,
        DeviceCommand::RequestProximityKeys.spoken() is None,
        no_connection_text() == "no active AAP connection - connect to AirPods first"@,
{
}

// Histories.

/// After any updates the names in a snapshot are those that were last set.
pub proof fn law_the_last_names_are_shown(inner: InnerView, updates: Seq<Update>, i: int)
    requires
        0 <= i < updates.len(),
        updates[i] is Names,
        forall|j: int| i < j < updates.len() ==> !(#[trigger] updates[j] is Names),
    ensures
        after_updates(inner, updates).snapshot().device_names == updates[i]->names,
    decreases updates.len(),
{
    let earlier = updates.drop_last();
    if i < updates.len() - 1 {
        assert(earlier[i] == updates[i]);
        assert(forall|j: int| 0 <= j < earlier.len() ==> #[trigger] earlier[j] == updates[j]);
        assert(!(updates[updates.len() - 1] is Names));
        law_the_last_names_are_shown(inner, earlier, i);
    }
}

/// Until names are set, the names in a snapshot are those there were: from the start
/// none.
pub proof fn law_names_stay_until_they_are_set(
    inner: InnerView,
    loaded: Map<Seq<char>, Seq<u8>>,
    updates: Seq<Update>,
)
    requires
        forall|j: int| 0 <= j < updates.len() ==> !(#[trigger] updates[j] is Names),
    ensures
        after_updates(inner, updates).snapshot().device_names == inner.device_names,
        after_updates(initially(loaded), updates).snapshot().device_names.dom().is_empty(),
    decreases updates.len(),
{
    if updates.len() > 0 {
        let earlier = updates.drop_last();
        assert(forall|j: int| 0 <= j < earlier.len() ==> #[trigger] earlier[j] == updates[j]);
        assert(!(updates[updates.len() - 1] is Names));
        law_names_stay_until_they_are_set(inner, loaded, earlier);
    } else {
        assert(Map::<Seq<char>, Seq<char>>::empty().dom() =~= Set::empty());
    }
}

/// After any updates the connected device in a snapshot is that of the last link
/// that came up, unless a link has gone since, and then nobody is connected.
pub proof fn law_the_last_link_is_shown(inner: InnerView, updates: Seq<Update>, i: int)
    requires
        0 <= i < updates.len(),
        updates[i] is Connected || updates[i] is Disconnected,
        forall|j: int|
            i < j < updates.len() ==> !(#[trigger] updates[j] is Connected) && !(updates[j] is
                Disconnected),
    ensures
        updates[i] matches Update::Connected { mac } ==> after_updates(
            inner,
            updates,
        ).snapshot().connected_mac == Some(mac),
        updates[i] is Disconnected ==> after_updates(
            inner,
            updates,
        ).snapshot().connected_mac is None,
    decreases updates.len(),
{
    let earlier = updates.drop_last();
    if i < updates.len() - 1 {
        assert(earlier[i] == updates[i]);
        assert(forall|j: int| 0 <= j < earlier.len() ==> #[trigger] earlier[j] == updates[j]);
        let last = updates[updates.len() - 1];
        assert(!(last is Connected) && !(last is Disconnected));
        law_the_last_link_is_shown(inner, earlier, i);
    }
}

/// After any updates the key held for a device is the last one that came from it.
pub proof fn law_the_last_key_is_held(
    inner: InnerView,
    updates: Seq<Update>,
    i: int,
    mac: Seq<char>,
    key: Seq<u8>,
)
    requires
        0 <= i < updates.len(),
        updates[i] == (Update::Key { mac, key }),
        forall|j: int|
            i < j < updates.len() ==> !(#[trigger] updates[j] is Key && updates[j]->Key_mac == mac),
    ensures
        after_updates(inner, updates).encryption_keys.contains_key(mac),
        after_updates(inner, updates).encryption_keys[mac] == key,
    decreases updates.len(),
{
    let earlier = updates.drop_last();
    if i < updates.len() - 1 {
        assert(earlier[i] == updates[i]);
        assert(forall|j: int| 0 <= j < earlier.len() ==> #[trigger] earlier[j] == updates[j]);
        let last = updates[updates.len() - 1];
        assert(!(last is Key && last->Key_mac == mac));
        law_the_last_key_is_held(inner, earlier, i, mac, key);
    }
}

} // verus!
