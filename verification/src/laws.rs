//! Laws of the registry: how its operations relate to one another.

use vstd::prelude::*;
use crate::registry::{lemma_room_index, lemma_room_index_is, room_index, RegistryView, MAX_ROOMS};
use crate::room::{
    active_power, device_index, lemma_device_index, lemma_device_index_is, DeviceView, RoomView,
    MAX_LIGHTING, MAX_TEMPERATURE, MIN_TEMPERATURE,
};

verus! {

/// What one device adds to the power drawn by its room.
pub open spec fn draw(device: DeviceView) -> nat {
    if device.on {
        device.power
    } else {
        0
    }
}

/// Replacing one device changes the power drawn by what that device draws
/// less and the new one draws more.
pub proof fn lemma_active_power_update(devices: Seq<DeviceView>, i: int, device: DeviceView)
    requires
        0 <= i < devices.len(),
    ensures
        active_power(devices.update(i, device)) + draw(devices[i]) == active_power(devices) + draw(
            device,
        ),
    decreases devices.len(),
{
    let changed = devices.update(i, device);
    if i == devices.len() - 1 {
        assert(changed.drop_last() =~= devices.drop_last());
    } else {
        assert(changed.drop_last() =~= devices.drop_last().update(i, device));
        lemma_active_power_update(devices.drop_last(), i, device);
    }
}

/// Devices that are off draw nothing: a room none of whose devices is on
/// has a total power of zero.
pub proof fn lemma_power_counts_running_devices_only(devices: Seq<DeviceView>)
    requires
        forall|i: int| 0 <= i < devices.len() ==> !(#[trigger] devices[i]).on,
    ensures
        active_power(devices) == 0,
    decreases devices.len(),
{
    if devices.len() > 0 {
        let front = devices.drop_last();
        assert forall|i: int| 0 <= i < front.len() implies !(#[trigger] front[i]).on by {
            assert(front[i] == devices[i]);
        }
        lemma_power_counts_running_devices_only(front);
    }
}

/// Switching a device over leaves every identifier in its room where it was.
proof fn lemma_toggle_keeps_index(room: RoomView, device_id: nat, other: nat)
    ensures
        device_index(room.with_toggled(device_id).devices, other) == device_index(
            room.devices,
            other,
        ),
{
    let after = room.with_toggled(device_id).devices;
    lemma_device_index(room.devices, device_id);
    lemma_device_index(room.devices, other);
    let k = device_index(room.devices, other);
    assert forall|j: int| 0 <= j < k implies (#[trigger] after[j]).id != other by {
        assert(room.devices[j].id != other);
    }
    lemma_device_index_is(after, other, k);
}

/// Switching the same device over twice gives every device of the room its
/// first state back. Only the mark that the room has been touched stays.
pub proof fn lemma_room_toggle_twice(room: RoomView, device_id: nat)
    ensures
        room.with_toggled(device_id).with_toggled(device_id) == (RoomView {
            active: room.active || room.has_device(device_id),
            ..room
        }),
{
    let once = room.with_toggled(device_id);
    let twice = once.with_toggled(device_id);
    lemma_toggle_keeps_index(room, device_id, device_id);
    lemma_device_index(room.devices, device_id);
    assert(twice.devices =~= room.devices);
}

/// Replacing a room by one with the same identifier leaves every identifier
/// in the registry where it was.
proof fn lemma_with_room_keeps_index(
    registry: RegistryView,
    room_id: nat,
    room: RoomView,
    other: nat,
)
    requires
        room.id == room_id,
    ensures
        room_index(registry.with_room(room_id, room).rooms, other) == room_index(
            registry.rooms,
            other,
        ),
{
    let after = registry.with_room(room_id, room).rooms;
    lemma_room_index(registry.rooms, room_id);
    lemma_room_index(registry.rooms, other);
    let k = room_index(registry.rooms, other);
    assert forall|j: int| 0 <= j < k implies (#[trigger] after[j]).id != other by {
        assert(registry.rooms[j].id != other);
    }
    lemma_room_index_is(after, other, k);
}

/// Toggling is an involution on the devices: after the same device of the
/// same room was switched over twice, the registry is what it was, but for
/// the mark that the room has been touched.
pub proof fn lemma_toggle_twice(registry: RegistryView, room_id: nat, device_id: nat)
    ensures
        registry.with_toggled(room_id, device_id).with_toggled(room_id, device_id)
            == registry.with_room(
            room_id,
            RoomView {
                active: registry.room(room_id).active || registry.room(room_id).has_device(
                    device_id,
                ),
                ..registry.room(room_id)
            },
        ),
        registry.has_room(room_id) ==> registry.with_toggled(room_id, device_id).with_toggled(
            room_id,
            device_id,
        ).room(room_id).devices == registry.room(room_id).devices,
{
    let room = registry.room(room_id);
    let once = registry.with_toggled(room_id, device_id);
    let twice = once.with_toggled(room_id, device_id);
    lemma_room_index(registry.rooms, room_id);
    if registry.has_room(room_id) {
        let i = room_index(registry.rooms, room_id);
        lemma_with_room_keeps_index(registry, room_id, room.with_toggled(device_id), room_id);
        lemma_room_toggle_twice(room, device_id);
        assert(once.room(room_id) == room.with_toggled(device_id));
        assert(twice.rooms =~= registry.rooms.update(
            i,
            room.with_toggled(device_id).with_toggled(device_id),
        ));
        lemma_with_room_keeps_index(once, room_id, once.room(room_id).with_toggled(device_id), room_id);
    }
}

/// Switching a device off takes its wattage out of the power drawn by its
/// room, and switching it on puts it in.
pub proof fn lemma_toggle_power(registry: RegistryView, room_id: nat, device_id: nat)
    requires
        registry.has_room(room_id),
        registry.room(room_id).has_device(device_id),
    ensures
        ({
            let room = registry.room(room_id);
            let device = room.devices[device_index(room.devices, device_id)];
            let after = registry.with_toggled(room_id, device_id).room(room_id);
            &&& device.on ==> active_power(after.devices) == active_power(room.devices)
                - device.power
            &&& !device.on ==> active_power(after.devices) == active_power(room.devices)
                + device.power
            &&& device.on && active_power(room.devices) <= u32::MAX ==> registry.with_toggled(
                room_id,
                device_id,
            ).total_power(room_id) == registry.total_power(room_id) - device.power
        }),
{
    let room = registry.room(room_id);
    let j = device_index(room.devices, device_id);
    lemma_room_index(registry.rooms, room_id);
    lemma_device_index(room.devices, device_id);
    lemma_with_room_keeps_index(registry, room_id, room.with_toggled(device_id), room_id);
    lemma_active_power_update(room.devices, j, room.devices[j].toggled());
}

/// Whatever level is asked for, the lighting ends up between 0 and 100: a
/// level of at most 100 is kept as it is, a higher one becomes 100.
pub proof fn lemma_lighting_clamped(room: RoomView, level: nat)
    ensures
        room.with_lighting(level).lighting <= MAX_LIGHTING,
        level <= MAX_LIGHTING ==> room.with_lighting(level).lighting == level,
        level > MAX_LIGHTING ==> room.with_lighting(level).lighting == MAX_LIGHTING,
{
}

/// Whatever temperature is asked for, the room ends up between 16 and 30: a
/// value in that range is kept as it is, a lower one becomes 16 and a higher
/// one 30.
pub proof fn lemma_temperature_clamped(room: RoomView, temp: nat)
    ensures
        MIN_TEMPERATURE <= room.with_temperature(temp).temperature <= MAX_TEMPERATURE,
        MIN_TEMPERATURE <= temp <= MAX_TEMPERATURE ==> room.with_temperature(temp).temperature
            == temp,
        temp < MIN_TEMPERATURE ==> room.with_temperature(temp).temperature == MIN_TEMPERATURE,
        temp > MAX_TEMPERATURE ==> room.with_temperature(temp).temperature == MAX_TEMPERATURE,
{
}

/// A consistent registry never holds more than `MAX_ROOMS` rooms: creating
/// a room in a full one changes nothing, and in any other adds exactly one
/// room under an identifier that no room had before.
pub proof fn lemma_create_bounded(registry: RegistryView, name: Seq<u8>)
    requires
        registry.wf(),
        name.len() <= crate::room::MAX_NAME_LEN,
    ensures
        registry.created(name).wf(),
        registry.created(name).rooms.len() <= MAX_ROOMS,
        registry.rooms.len() == MAX_ROOMS ==> registry.created(name) == registry,
        registry.rooms.len() < MAX_ROOMS ==> {
            &&& registry.created(name).rooms.len() == registry.rooms.len() + 1
            &&& !registry.has_room(registry.next_room_id)
            &&& registry.created(name).has_room(registry.next_room_id)
        },
{
    lemma_room_index(registry.rooms, registry.next_room_id);
    if registry.rooms.len() < MAX_ROOMS {
        let after = registry.created(name).rooms;
        let n = registry.rooms.len() as int;
        assert forall|j: int| 0 <= j < n implies (#[trigger] after[j]).id
            != registry.next_room_id by {
            assert(after[j] == registry.rooms[j]);
        }
        lemma_room_index_is(after, registry.next_room_id, n);
        if registry.has_room(registry.next_room_id) {
            assert(registry.rooms[room_index(registry.rooms, registry.next_room_id)].id
                == registry.next_room_id);
        }
    }
}

/// In a consistent registry no two rooms share an identifier, and no room
/// has the identifier `0`.
pub proof fn lemma_room_ids_unique(registry: RegistryView)
    requires
        registry.wf(),
    ensures
        forall|i: int, j: int|
            0 <= i < j < registry.rooms.len() ==> (#[trigger] registry.rooms[i]).id != (
            #[trigger] registry.rooms[j]).id,
        !registry.has_room(0),
{
    lemma_room_index(registry.rooms, 0);
}

} // verus!
