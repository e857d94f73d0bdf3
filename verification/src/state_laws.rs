//! What states, snapshots and the registry mean, field by field.

use vstd::prelude::*;

use crate::aap::noise::NoiseMode;
use crate::ble::PodSide;
use crate::coordinator::Coordinator;
use crate::inner::{Entry, Inner, InnerView};
use crate::podstate::{
    blank_state, lookup, DataSource, PodState, PodStateView, Snapshot, SnapshotView,
};
use crate::text::text_le;

verus! {

// Nothing is hidden.

/// `view` says what an optional string holds.
pub open spec fn says_text(view: Option<Seq<char>>, text: Option<String>) -> bool {
    &&& view is Some <==> text is Some
    &&& text is Some ==> view->0 == text->0@
}

/// What is said of a state is what each of its fields holds.
pub proof fn law_states_say_every_field(state: PodState)
    ensures
        state@.source == state.source,
        state@.left_battery == state.left_battery,
        state@.right_battery == state.right_battery,
        state@.case_battery == state.case_battery,
        state@.left_charging == state.left_charging,
        state@.right_charging == state.right_charging,
        state@.case_charging == state.case_charging,
        state@.left_in_ear == state.left_in_ear,
        state@.right_in_ear == state.right_in_ear,
        state@.lid_open == state.lid_open,
        state@.connection_state == state.connection_state,
        state@.noise_mode == state.noise_mode,
        state@.device_model == state.device_model,
        state@.model_name == state.model_name@,
        state@.color == state.color,
        state@.primary_pod == state.primary_pod,
        state@.real_mac == state.real_mac@,
        state@.current_ble_mac == state.current_ble_mac@,
        state@.encryption_key is Some <==> state.encryption_key is Some,
        state.encryption_key is Some ==> state@.encryption_key->0 == state.encryption_key->0@,
        state@.identified == state.identified,
{
}

/// What is said of a snapshot is what each of its fields holds.
pub proof fn law_snapshots_say_every_field(snapshot: Snapshot)
    ensures
        snapshot@.states == snapshot.states@,
        says_text(snapshot@.connected_mac, snapshot.connected_mac),
        snapshot@.known_keys.len() == snapshot.known_keys@.len(),
        forall|i: int|
            0 <= i < snapshot.known_keys@.len() ==> #[trigger] snapshot@.known_keys[i]
                == snapshot.known_keys@[i]@,
        snapshot@.device_names == snapshot.device_names@,
{
}

/// What is said of the registry, of its entries and of the coordinator is what each
/// of their fields holds.
pub proof fn law_the_registry_says_every_field(
    entry: Entry,
    inner: Inner,
    coordinator: Coordinator,
)
    ensures
        entry@.state == entry.state@,
        entry@.last_seen == entry.last_seen,
        inner@.devices == inner.devices@,
        inner@.encryption_keys == inner.encryption_keys@,
        says_text(inner@.connected_mac, inner.connected_mac),
        inner@.device_names == inner.device_names@,
        inner@.noise_modes == inner.noise_modes@,
        coordinator@.inner == coordinator.inner@,
        coordinator@.subscribers == coordinator.subscribers@,
{
}

/// A noise control mode is what it is seen as.
pub proof fn law_modes_are_what_they_are_seen_as(mode: NoiseMode)
    ensures
        mode@ == mode,
{
}

// States.

/// Of a device of which nothing has been reported nothing is claimed.
pub proof fn law_a_blank_state_claims_nothing()
    ensures
        blank_state().source == DataSource::Unknown,
        blank_state().left_battery is None,
        blank_state().right_battery is None,
        blank_state().case_battery is None,
        !blank_state().left_charging && !blank_state().right_charging
            && !blank_state().case_charging,
        !blank_state().left_in_ear && !blank_state().right_in_ear,
        blank_state().lid_open is None,
        blank_state().connection_state is None,
        blank_state().noise_mode is None,
        blank_state().device_model == 0,
        blank_state().model_name.len() == 0,
        blank_state().color == 0,
        blank_state().primary_pod == PodSide::Left,
        blank_state().real_mac.len() == 0,
        blank_state().current_ble_mac.len() == 0,
        blank_state().encryption_key is None,
        !blank_state().identified,
{
}

/// The lowest earbud has no level exactly if neither has one. Otherwise its level is
/// that of one of the two, and no earbud has a lower one.
pub proof fn law_no_earbud_is_lower_than_the_lowest(state: PodStateView)
    ensures
        state.lowest() is None <==> state.left_battery is None && state.right_battery is None,
        state.lowest() is Some ==> state.lowest() == state.left_battery || state.lowest()
            == state.right_battery,
        state.left_battery is Some ==> state.lowest()->0 <= state.left_battery->0,
        state.right_battery is Some ==> state.lowest()->0 <= state.right_battery->0,
{
}

/// Which earbud is which does not matter to the lowest level, and neither does the
/// case nor whether anything charges.
pub proof fn law_the_lowest_level_depends_on_both_earbuds_alone(a: PodStateView, b: PodStateView)
    requires
        (a.left_battery == b.left_battery && a.right_battery == b.right_battery) || (
        a.left_battery == b.right_battery && a.right_battery == b.left_battery),
    ensures
        a.lowest() == b.lowest(),
{
}

/// The sources go by their own names.
pub proof fn law_sources_go_by_their_names()
    ensures
        DataSource::Ble.name() == "BLE"@,
        DataSource::Aap.name() == "AAP"@,
        DataSource::Unknown.name() == "Unknown"@,
{
}

/// Looking a key up gives what is under it, exactly if something is.
pub proof fn law_lookup_finds_what_is_there<V>(map: Map<Seq<char>, V>, key: Seq<char>, value: V)
    ensures
        lookup(map, key) == Some(value) <==> map.contains_key(key) && map[key] == value,
        lookup(map, key) is None <==> !map.contains_key(key),
{
}

/// Two states agree on everything but the noise control mode.
pub open spec fn same_but_for_the_mode(a: PodStateView, b: PodStateView) -> bool {
    &&& a.source == b.source
    &&& a.left_battery == b.left_battery
    &&& a.right_battery == b.right_battery
    &&& a.case_battery == b.case_battery
    &&& a.left_charging == b.left_charging
    &&& a.right_charging == b.right_charging
    &&& a.case_charging == b.case_charging
    &&& a.left_in_ear == b.left_in_ear
    &&& a.right_in_ear == b.right_in_ear
    &&& a.lid_open == b.lid_open
    &&& a.connection_state == b.connection_state
    &&& a.device_model == b.device_model
    &&& a.model_name == b.model_name
    &&& a.color == b.color
    &&& a.primary_pod == b.primary_pod
    &&& a.real_mac == b.real_mac
    &&& a.current_ble_mac == b.current_ble_mac
    &&& a.encryption_key == b.encryption_key
    &&& a.identified == b.identified
}

// Snapshots.

/// A snapshot has a state of exactly the devices that are known, and each as it is
/// known but for the mode: the device a link is up to is shown with the mode kept
/// for it, where there is one, and any other with the mode of its own state.
pub proof fn law_snapshots_show_every_device(inner: InnerView, mac: Seq<char>)
    ensures
        inner.snapshot().states.contains_key(mac) <==> inner.devices.contains_key(mac),
        inner.devices.contains_key(mac) ==> same_but_for_the_mode(
            inner.snapshot().states[mac],
            inner.devices[mac].state,
        ),
        inner.devices.contains_key(mac) && inner.connected_mac == Some(mac) ==> {
            &&& inner.noise_modes.contains_key(mac) ==> inner.snapshot().states[mac].noise_mode
                == Some(inner.noise_modes[mac])
            &&& !inner.noise_modes.contains_key(mac)
                ==> inner.snapshot().states[mac].noise_mode is None
        },
        inner.devices.contains_key(mac) && inner.connected_mac != Some(mac)
            ==> inner.snapshot().states[mac].noise_mode == inner.devices[mac].state.noise_mode,
{
}

/// A snapshot carries the connected device and the alias map as they are known,
/// whatever else is known.
pub proof fn law_snapshots_carry_link_and_names(inner: InnerView)
    ensures
        inner.snapshot().connected_mac == inner.connected_mac,
        inner.snapshot().device_names == inner.device_names,
{
}

/// A snapshot lists exactly the addresses that a key is held for, each once and in
/// order, whatever else is known.
pub proof fn law_snapshots_list_every_key(inner: InnerView)
    requires
        inner.encryption_keys.dom().finite(),
    ensures
        forall|mac: Seq<char>|
            inner.snapshot().known_keys.contains(mac) <==> inner.encryption_keys.contains_key(mac),
        forall|i: int, j: int|
            0 <= i < j < inner.snapshot().known_keys.len() ==> {
                &&& #[trigger] inner.snapshot().known_keys[i]
                    != #[trigger] inner.snapshot().known_keys[j]
                &&& text_le(inner.snapshot().known_keys[i], inner.snapshot().known_keys[j])
            },
{
    crate::text::law_ascending_lists_the_set(inner.encryption_keys.dom());
    let listed = inner.snapshot().known_keys;
    let order = crate::text::text_order();
    assert forall|i: int, j: int| 0 <= i < j < listed.len() implies {
        &&& #[trigger] listed[i] != #[trigger] listed[j]
        &&& text_le(listed[i], listed[j])
    } by {
        assert(order(listed[i], listed[j]));
    }
}

/// The primary device is the connected one where it has a state; a state counts as
/// that of a known device exactly if it is identified and listed.
pub proof fn law_the_connected_device_is_primary(snapshot: SnapshotView, state: PodStateView)
    ensures
        snapshot.connected_state() == Some(state) <==> {
            &&& snapshot.connected_mac is Some
            &&& snapshot.states.contains_key(snapshot.connected_mac->0)
            &&& snapshot.states[snapshot.connected_mac->0] == state
        },
        snapshot.connected_state() is None <==> snapshot.connected_mac is None
            || !snapshot.states.contains_key(snapshot.connected_mac->0),
        snapshot.shows_identified(state) <==> state.identified && snapshot.states.values().contains(
            state,
        ),
{
    if snapshot.shows_identified(state) {
        let mac = choose|mac: Seq<char>| #[trigger]
            snapshot.states.contains_key(mac) && snapshot.states[mac] == state;
        assert(snapshot.states.dom().contains(mac));
    }
    if state.identified && snapshot.states.values().contains(state) {
        let mac = choose|mac: Seq<char>| #[trigger]
            snapshot.states.dom().contains(mac) && snapshot.states[mac] == state;
        assert(snapshot.states.contains_key(mac));
    }
}

/// The primary device is the connected one, whenever that has a state. Otherwise it
/// is one that is listed and identified, and there is none only if no listed device
/// is identified.
pub proof fn law_the_primary_device_is_connected_or_identified(
    snapshot: SnapshotView,
    res: Option<PodStateView>,
)
    requires
        snapshot.has_primary(res),
    ensures
        ({
            let connected = snapshot.connected_mac is Some && snapshot.states.contains_key(
                snapshot.connected_mac->0,
            );
            &&& connected ==> res == Some(snapshot.states[snapshot.connected_mac->0])
            &&& !connected && res is Some ==> res->0.identified
                && snapshot.states.values().contains(res->0)
            &&& res is None ==> !connected && forall|mac: Seq<char>| #[trigger]
                snapshot.states.contains_key(mac) ==> !snapshot.states[mac].identified
        }),
{
    if res is Some {
        law_the_connected_device_is_primary(snapshot, res->0);
    } else {
        assert forall|mac: Seq<char>| #[trigger]
            snapshot.states.contains_key(mac) implies !snapshot.states[mac].identified by {
            assert(!snapshot.shows_identified(snapshot.states[mac]));
        }
    }
}

// The registry.

/// The registries agree on everything but the devices.
pub open spec fn same_but_for_devices(a: InnerView, b: InnerView) -> bool {
    &&& a.encryption_keys == b.encryption_keys
    &&& a.connected_mac == b.connected_mac
    &&& a.device_names == b.device_names
    &&& a.noise_modes == b.noise_modes
}

/// Pruning drops a device exactly if it was last seen more than `ttl` nanoseconds
/// before `now`, leaves every other one as it was, and touches nothing else.
pub proof fn law_pruning_drops_what_is_unseen_for_longer(
    inner: InnerView,
    now: u128,
    ttl: u128,
    mac: Seq<char>,
)
    ensures
        inner.pruned(now, ttl).devices.contains_key(mac) <==> inner.devices.contains_key(mac)
            && inner.devices[mac].last_seen + ttl >= now,
        inner.pruned(now, ttl).devices.contains_key(mac) ==> inner.pruned(now, ttl).devices[mac]
            == inner.devices[mac],
        same_but_for_devices(inner.pruned(now, ttl), inner),
{
}

/// Publishing a state puts it under its address, seen now, drops any other device
/// that was last seen more than 120 seconds ago and leaves the rest as it was.
pub proof fn law_publishing_replaces_one_state(
    inner: InnerView,
    mac: Seq<char>,
    state: PodStateView,
    now: u128,
    other: Seq<char>,
)
    requires
        other != mac,
    ensures
        ({
            let after = inner.published(mac, state, now);
            &&& after.devices.contains_key(mac)
            &&& after.devices[mac].state == state
            &&& after.devices[mac].last_seen == now
            &&& after.devices.contains_key(other) <==> inner.devices.contains_key(other)
                && inner.devices[other].last_seen + 120_000_000_000 >= now
            &&& after.devices.contains_key(other) ==> after.devices[other] == inner.devices[other]
            &&& same_but_for_devices(after, inner)
        }),
{
}

/// Keeping a key changes the key held for that device and the key its state shows,
/// and nothing else of it or of any other device. A device without a state gets
/// none.
pub proof fn law_a_kept_key_changes_nothing_else(
    inner: InnerView,
    mac: Seq<char>,
    key: Seq<u8>,
    other: Seq<char>,
)
    requires
        other != mac,
    ensures
        ({
            let after = inner.with_key(mac, key);
            &&& after.encryption_keys.contains_key(mac) && after.encryption_keys[mac] == key
            &&& after.encryption_keys.contains_key(other)
                <==> inner.encryption_keys.contains_key(other)
            &&& inner.encryption_keys.contains_key(other) ==> after.encryption_keys[other]
                == inner.encryption_keys[other]
            &&& after.devices.contains_key(mac) <==> inner.devices.contains_key(mac)
            &&& after.devices.contains_key(other) <==> inner.devices.contains_key(other)
            &&& inner.devices.contains_key(other) ==> after.devices[other] == inner.devices[other]
            &&& inner.devices.contains_key(mac) ==> {
                let shown = after.devices[mac].state;
                let known = inner.devices[mac].state;
                &&& shown.encryption_key == Some(key)
                &&& shown.noise_mode == known.noise_mode
                &&& same_but_for_the_mode(
                    PodStateView { encryption_key: known.encryption_key, ..shown },
                    known,
                )
                &&& after.devices[mac].last_seen == inner.devices[mac].last_seen
            }
            &&& after.connected_mac == inner.connected_mac
            &&& after.device_names == inner.device_names
            &&& after.noise_modes == inner.noise_modes
        }),
{
}

/// Dropping the AAP state of a device removes its entry exactly if that came from
/// AAP, and touches no other device and nothing else.
pub proof fn law_only_an_aap_state_is_dropped(inner: InnerView, mac: Seq<char>, other: Seq<char>)
    requires
        other != mac,
    ensures
        ({
            let after = inner.without_aap(mac);
            &&& after.devices.contains_key(mac) <==> inner.devices.contains_key(mac)
                && inner.devices[mac].state.source != DataSource::Aap
            &&& after.devices.contains_key(mac) ==> after.devices[mac] == inner.devices[mac]
            &&& after.devices.contains_key(other) <==> inner.devices.contains_key(other)
            &&& after.devices.contains_key(other) ==> after.devices[other] == inner.devices[other]
            &&& same_but_for_devices(after, inner)
        }),
{
}

} // verus!
