//! The bounded registry of rooms and the operations on it.

use vstd::prelude::*;
use crate::room::{
    active_power, lemma_device_index, lemma_device_index_is, DeviceView, RoomData, RoomView,
    DEVICE_OFF, DEVICE_ON, MAX_DEVICES, MAX_NAME_LEN,
};

verus! {

/// Most rooms the registry can hold.
pub const MAX_ROOMS: usize = 16;

/// Identifier given to the first room.
pub const FIRST_ROOM_ID: u32 = 1;

/// Identifier given to the first device.
pub const FIRST_DEVICE_ID: u32 = 100;

/// Fixed-capacity storage for rooms. The first `room_count` slots hold the
/// rooms that exist, in the order they were created; what the other slots hold
/// is of no account.
pub struct Registry {
    pub rooms: [RoomData; 16],
    pub room_count: u32,
    pub next_room_id: u32,
    pub next_device_id: u32,
}

/// What a registry is, apart from how it is stored: the rooms that exist, in
/// creation order, and the two identifier counters.
pub ghost struct RegistryView {
    pub rooms: Seq<RoomView>,
    pub next_room_id: nat,
    pub next_device_id: nat,
}

/// Index of the first room in `rooms` with identifier `id`, or the length of
/// `rooms` if there is none.
pub open spec fn room_index(rooms: Seq<RoomView>, id: nat) -> int
    decreases rooms.len(),
{
    if rooms.len() == 0 {
        0
    } else {
        let before = room_index(rooms.drop_last(), id);
        if before < rooms.len() - 1 {
            before
        } else if rooms.last().id == id {
            rooms.len() - 1
        } else {
            rooms.len() as int
        }
    }
}

/// What `room_index` returns: the first position that holds `id`.
pub proof fn lemma_room_index(rooms: Seq<RoomView>, id: nat)
    ensures
        0 <= room_index(rooms, id) <= rooms.len(),
        room_index(rooms, id) < rooms.len() ==> rooms[room_index(rooms, id)].id == id,
        forall|j: int| 0 <= j < room_index(rooms, id) ==> (#[trigger] rooms[j]).id != id,
    decreases rooms.len(),
{
    if rooms.len() > 0 {
        let front = rooms.drop_last();
        lemma_room_index(front, id);
        assert forall|j: int| 0 <= j < room_index(rooms, id) implies (#[trigger] rooms[j]).id
            != id by {
            if j < front.len() {
                assert(front[j] == rooms[j]);
            }
        }
        if room_index(front, id) < front.len() {
            assert(front[room_index(front, id)] == rooms[room_index(front, id)]);
        }
    }
}

/// A position that holds `id` with no earlier one that does is what
/// `room_index` returns.
pub proof fn lemma_room_index_is(rooms: Seq<RoomView>, id: nat, i: int)
    requires
        0 <= i <= rooms.len(),
        i < rooms.len() ==> rooms[i].id == id,
        forall|j: int| 0 <= j < i ==> (#[trigger] rooms[j]).id != id,
    ensures
        room_index(rooms, id) == i,
{
    lemma_room_index(rooms, id);
    let k = room_index(rooms, id);
    if k < i {
        assert(rooms[k].id == id);
    }
}

impl RegistryView {
    /// A registry with no rooms and both counters at their start.
    pub open spec fn empty() -> RegistryView {
        RegistryView {
            rooms: Seq::empty(),
            next_room_id: FIRST_ROOM_ID as nat,
            next_device_id: FIRST_DEVICE_ID as nat,
        }
    }

    /// No further room fits.
    pub open spec fn full(self) -> bool {
        self.rooms.len() >= MAX_ROOMS
    }

    /// Whether a room with identifier `room_id` exists.
    pub open spec fn has_room(self, room_id: nat) -> bool {
        room_index(self.rooms, room_id) < self.rooms.len()
    }

    /// The room with identifier `room_id`.
    pub open spec fn room(self, room_id: nat) -> RoomView
        recommends
            self.has_room(room_id),
    {
        self.rooms[room_index(self.rooms, room_id)]
    }

    /// The registry with the room `room_id` replaced by `room`; the registry
    /// itself if there is no such room.
    pub open spec fn with_room(self, room_id: nat, room: RoomView) -> RegistryView {
        if self.has_room(room_id) {
            RegistryView { rooms: self.rooms.update(room_index(self.rooms, room_id), room), ..self }
        } else {
            self
        }
    }

    /// The registry after one more room called `name` was created; the
    /// registry itself if it is full.
    pub open spec fn created(self, name: Seq<u8>) -> RegistryView {
        if self.full() {
            self
        } else {
            RegistryView {
                rooms: self.rooms.push(RoomView::fresh(self.next_room_id, name)),
                next_room_id: self.next_room_id + 1,
                ..self
            }
        }
    }

    /// The registry after the lighting of room `room_id` was set.
    pub open spec fn with_lighting(self, room_id: nat, level: nat) -> RegistryView {
        self.with_room(room_id, self.room(room_id).with_lighting(level))
    }

    /// The registry after the temperature of room `room_id` was set.
    pub open spec fn with_temperature(self, room_id: nat, temp: nat) -> RegistryView {
        self.with_room(room_id, self.room(room_id).with_temperature(temp))
    }

    /// The registry after device `device_id` of room `room_id` was switched
    /// over.
    pub open spec fn with_toggled(self, room_id: nat, device_id: nat) -> RegistryView {
        self.with_room(room_id, self.room(room_id).with_toggled(device_id))
    }

    /// Power drawn by room `room_id`; zero if there is no such room.
    pub open spec fn total_power(self, room_id: nat) -> nat {
        if self.has_room(room_id) {
            self.room(room_id).total_power()
        } else {
            0
        }
    }

    /// The registry is consistent: at most `MAX_ROOMS` rooms, each
    /// consistent in itself; identifiers were handed out in creation order
    /// starting at `FIRST_ROOM_ID`, and every device identifier in use lies
    /// below the device counter.
    pub open spec fn wf(self) -> bool {
        &&& self.rooms.len() <= MAX_ROOMS
        &&& self.next_room_id == self.rooms.len() + FIRST_ROOM_ID
        &&& forall|i: int|
            0 <= i < self.rooms.len() ==> {
                &&& (#[trigger] self.rooms[i]).wf()
                &&& self.rooms[i].id == i + FIRST_ROOM_ID
                &&& forall|j: int|
                    0 <= j < self.rooms[i].devices.len() ==> (
                    #[trigger] self.rooms[i].devices[j]).id < self.next_device_id
            }
    }
}

impl View for Registry {
    type V = RegistryView;

    open spec fn view(&self) -> RegistryView {
        RegistryView {
            rooms: Seq::new(self.spec_room_count(), |i: int| self.rooms@[i]@),
            next_room_id: self.next_room_id as nat,
            next_device_id: self.next_device_id as nat,
        }
    }
}

impl Registry {
    /// Number of rooms that exist.
    pub open spec fn spec_room_count(&self) -> nat {
        if self.room_count <= MAX_ROOMS {
            self.room_count as nat
        } else {
            MAX_ROOMS as nat
        }
    }

    /// The storage is consistent: the count is within capacity, every room
    /// that exists is a consistent record, and the registry they make up is
    /// consistent.
    pub open spec fn wf(&self) -> bool {
        &&& self.room_count <= MAX_ROOMS
        &&& forall|i: int| 0 <= i < self.room_count ==> (#[trigger] self.rooms@[i]).wf()
        &&& self@.wf()
    }

    /// A registry with no rooms.
    pub fn new() -> (registry: Registry)
        ensures
            registry.wf(),
            registry@ == RegistryView::empty(),
    {
        let registry = Registry {
            rooms: [RoomData::default();16],
            room_count: 0,
            next_room_id: FIRST_ROOM_ID,
            next_device_id: FIRST_DEVICE_ID,
        };
        assert(registry@.rooms =~= Seq::empty());
        registry
    }
}

/// Number of rooms in the registry.
pub fn get_room_count(registry: &Registry) -> (count: u32)
    ensures
        count == registry.room_count,
        registry.room_count <= MAX_ROOMS ==> count == registry@.rooms.len(),
{
    registry.room_count
}

/// The name every room made by `create_room` gets.
pub open spec fn new_room_name() -> Seq<u8> {
    crate::buffer::ascii("New Room"@)
}

/// The name of the room that `init_room` sets up.
pub open spec fn living_room_name() -> Seq<u8> {
    crate::buffer::ascii("Living Room"@)
}

/// The room that `init_room` sets up: a lamp that is on at 60 W, an air
/// conditioner that is off at 3500 W and a television that is off at 100 W.
pub open spec fn living_room() -> RoomView {
    RoomView::fresh(FIRST_ROOM_ID as nat, living_room_name()).with_device(
        DeviceView { id: 100, on: true, power: 60 },
    ).with_device(DeviceView { id: 101, on: false, power: 3500 }).with_device(
        DeviceView { id: 102, on: false, power: 100 },
    )
}

/// The registry as `init_room` leaves it.
pub open spec fn bootstrapped() -> RegistryView {
    RegistryView { rooms: seq![living_room()], next_room_id: 2, next_device_id: 103 }
}

/// The part of `name` that a room keeps when it is created with the length
/// `name_len`: at most `MAX_NAME_LEN` bytes.
pub open spec fn kept_name(name: Seq<u8>, name_len: int) -> Seq<u8> {
    name.take(crate::buffer::min_int(name_len, MAX_NAME_LEN as int))
}

/// Puts one more device into `room`, if a slot is free, and advances the
/// device counter.
fn add_device(room: &mut RoomData, next_device_id: &mut u32, status: u8, power: u32)
    requires
        old(room).wf(),
        status == DEVICE_OFF || status == DEVICE_ON,
        0 < *old(next_device_id) < u32::MAX,
        forall|j: int|
            0 <= j < old(room)@.devices.len() ==> (#[trigger] old(room)@.devices[j]).id
                < *old(next_device_id),
    ensures
        final(room).wf(),
        old(room).device_count >= MAX_DEVICES ==> {
            &&& *final(room) == *old(room)
            &&& *final(next_device_id) == *old(next_device_id)
        },
        old(room).device_count < MAX_DEVICES ==> {
            &&& final(room)@ == old(room)@.with_device(
                DeviceView {
                    id: *old(next_device_id) as nat,
                    on: status == DEVICE_ON,
                    power: power as nat,
                },
            )
            &&& *final(next_device_id) == *old(next_device_id) + 1
        },
{
    if room.device_count < 8 {
        let idx: usize = room.device_count as usize;
        room.device_ids[idx] = *next_device_id;
        room.device_status[idx] = status;
        room.device_power[idx] = power;
        *next_device_id += 1;
        room.device_count += 1;
        assert(room@.name =~= old(room)@.name);
        assert(room@.devices =~= old(room)@.devices.push(
            DeviceView {
                id: *old(next_device_id) as nat,
                on: status == DEVICE_ON,
                power: power as nat,
            },
        ));
    }
}

/// Resets the registry and sets up the one seeded room with its three
/// devices. Whatever the registry held before is gone.
pub fn init_room(registry: &mut Registry)
    ensures
        final(registry).wf(),
        final(registry)@ == bootstrapped(),
        forall|i: int| 1 <= i < MAX_ROOMS ==> final(registry).rooms@[i] == old(registry).rooms@[i],
{
    registry.room_count = 0;
    registry.next_room_id = 1;
    registry.next_device_id = 100;
    assert(registry@.rooms =~= Seq::empty());

    let name = "Living Room";
    proof {
        reveal_strlit("Living Room");
        vstd::string::is_ascii_spec_bytes(name);
    }
    let name_bytes = name.as_bytes();
    assert(name_bytes@ =~= living_room_name());
    create_room_internal(registry, name_bytes, 11);
    assert(kept_name(name_bytes@, 11) =~= living_room_name());

    if registry.room_count > 0 {
        let mut room = registry.rooms[0];
        let mut next_device_id = registry.next_device_id;
        assert(room@ == registry@.rooms[0]);
        add_device(&mut room, &mut next_device_id, 1, 60);
        add_device(&mut room, &mut next_device_id, 0, 3500);
        add_device(&mut room, &mut next_device_id, 0, 100);
        registry.rooms[0] = room;
        registry.next_device_id = next_device_id;
        assert(registry@.rooms =~= seq![living_room()]);
    }
}

/// Creates a room. The name handed in is not read: every room made through
/// this entry gets the name `New Room`. Returns the new room's identifier, or
/// `0` if the registry is full, in which case nothing changes.
pub fn create_room(registry: &mut Registry, _name_ptr: u32, _name_len: u32) -> (id: u32)
    requires
        old(registry).wf(),
    ensures
        final(registry).wf(),
        final(registry)@ == old(registry)@.created(new_room_name()),
        old(registry)@.full() ==> id == 0 && *final(registry) == *old(registry),
        !old(registry)@.full() ==> id == old(registry)@.next_room_id,
{
    let name = "New Room";
    proof {
        reveal_strlit("New Room");
        vstd::string::is_ascii_spec_bytes(name);
    }
    let name_bytes = name.as_bytes();
    assert(name_bytes@ =~= new_room_name());
    assert(kept_name(name_bytes@, 8) =~= new_room_name());
    create_room_internal(registry, name_bytes, 8)
}

/// Creates a room named by the first `name_len` bytes of `name`, of which at
/// most `MAX_NAME_LEN` are kept, with default lighting and temperature, idle
/// and without devices. Returns the new room's identifier, or `0` if the
/// registry is full, in which case nothing changes.
pub fn create_room_internal(registry: &mut Registry, name: &[u8], name_len: usize) -> (id: u32)
    requires
        old(registry).wf(),
        name_len <= name@.len() || MAX_NAME_LEN <= name@.len(),
    ensures
        final(registry).wf(),
        final(registry)@ == old(registry)@.created(kept_name(name@, name_len as int)),
        old(registry)@.full() ==> id == 0 && *final(registry) == *old(registry),
        !old(registry)@.full() ==> id == old(registry)@.next_room_id,
        forall|i: int|
            0 <= i < MAX_ROOMS && i != old(registry).room_count ==> final(registry).rooms@[i]
                == old(registry).rooms@[i],
{
    if registry.room_count >= 16 {
        return 0;
    }
    let idx: usize = registry.room_count as usize;
    let mut room = RoomData::default();

    room.id = registry.next_room_id;

    let copy_len: usize = if name_len < 64 {
        name_len
    } else {
        64
    };
    let mut i: usize = 0;
    while i < copy_len
        invariant
            i <= copy_len <= 64,
            copy_len <= name@.len(),
            forall|k: int| 0 <= k < i ==> #[trigger] room.name@[k] == name@[k],
            room.id == registry.next_room_id,
            room.name_len == 0,
            room.lighting == 50,
            room.temperature == 21,
            room.device_count == 0,
            room.status == 0,
            room.wf(),
        decreases copy_len - i,
    {
        room.name[i] = name[i];
        i += 1;
        assert(room@.name =~= Seq::empty());
        assert(room@.devices =~= Seq::empty());
    }
    room.name_len = copy_len as u32;
    assert(room@.name =~= kept_name(name@, name_len as int));
    assert(room@.devices =~= Seq::empty());

    registry.rooms[idx] = room;
    registry.room_count += 1;
    registry.next_room_id += 1;

    assert(registry@.rooms =~= old(registry)@.rooms.push(room@));
    registry.next_room_id - 1
}

/// Looks a room up by its identifier and returns the slot that holds it.
pub fn find_room(registry: &Registry, room_id: u32) -> (slot: Option<usize>)
    requires
        registry.wf(),
    ensures
        slot.is_some() == registry@.has_room(room_id as nat),
        slot matches Some(i) ==> i == room_index(registry@.rooms, room_id as nat),
{
    let mut i: usize = 0;
    while i < registry.room_count as usize
        invariant
            i <= registry.room_count <= MAX_ROOMS,
            forall|j: int| 0 <= j < i ==> (#[trigger] registry@.rooms[j]).id != room_id,
        decreases registry.room_count - i,
    {
        if registry.rooms[i].id == room_id {
            proof {
                lemma_room_index_is(registry@.rooms, room_id as nat, i as int);
            }
            return Some(i);
        }
        i += 1;
    }
    proof {
        lemma_room_index_is(registry@.rooms, room_id as nat, i as int);
    }
    None
}

/// Sets the lighting of room `room_id` to `level`, capped at 100, and marks
/// the room active. Does nothing if there is no such room.
pub fn set_lighting(registry: &mut Registry, room_id: u32, level: u32)
    requires
        old(registry).wf(),
    ensures
        final(registry).wf(),
        final(registry)@ == old(registry)@.with_lighting(room_id as nat, level as nat),
        !old(registry)@.has_room(room_id as nat) ==> *final(registry) == *old(registry),
{
    let level: u32 = if level < 100 {
        level
    } else {
        100
    };
    match find_room(registry, room_id) {
        Some(i) => {
            let mut room = registry.rooms[i];
            assert(room@ == registry@.rooms[i as int]);
            room.lighting = level;
            room.status = 1;
            assert(room@.name =~= old(registry)@.rooms[i as int].name);
            assert(room@.devices =~= old(registry)@.rooms[i as int].devices);
            registry.rooms[i] = room;
            assert(registry@.rooms =~= old(registry)@.rooms.update(i as int, room@));
        },
        None => {},
    }
}

/// Sets the temperature of room `room_id` to `temp`, held within 16 and 30,
/// and marks the room active. Does nothing if there is no such room.
pub fn set_temperature(registry: &mut Registry, room_id: u32, temp: u32)
    requires
        old(registry).wf(),
    ensures
        final(registry).wf(),
        final(registry)@ == old(registry)@.with_temperature(room_id as nat, temp as nat),
        !old(registry)@.has_room(room_id as nat) ==> *final(registry) == *old(registry),
{
    let temp: u32 = if temp < 16 {
        16
    } else if temp > 30 {
        30
    } else {
        temp
    };
    match find_room(registry, room_id) {
        Some(i) => {
            let mut room = registry.rooms[i];
            assert(room@ == registry@.rooms[i as int]);
            room.temperature = temp;
            room.status = 1;
            assert(room@.name =~= old(registry)@.rooms[i as int].name);
            assert(room@.devices =~= old(registry)@.rooms[i as int].devices);
            registry.rooms[i] = room;
            assert(registry@.rooms =~= old(registry)@.rooms.update(i as int, room@));
        },
        None => {},
    }
}

/// Switches the device `device_id` of `room` over and marks the room active;
/// leaves the room as it is if it holds no such device. Returns whether the
/// device was found.
fn toggle_in_room(room: &mut RoomData, device_id: u32) -> (found: bool)
    requires
        old(room).wf(),
    ensures
        final(room).wf(),
        final(room)@ == old(room)@.with_toggled(device_id as nat),
        found == old(room)@.has_device(device_id as nat),
        !found ==> *final(room) == *old(room),
{
    let ghost before = *room;
    let mut i: usize = 0;
    while i < room.device_count as usize
        invariant
            i <= room.device_count <= MAX_DEVICES,
            *room == before,
            before == *old(room),
            before.wf(),
            forall|j: int| 0 <= j < i ==> (#[trigger] before@.devices[j]).id != device_id,
        decreases room.device_count - i,
    {
        if room.device_ids[i] == device_id && room.device_status[i] != 255 {
            proof {
                lemma_device_index_is(before@.devices, device_id as nat, i as int);
            }
            room.device_status[i] = if room.device_status[i] == 0 {
                1
            } else {
                0
            };
            room.status = 1;
            proof {
                assert(room.device_status@ == before.device_status@.update(
                    i as int,
                    room.device_status@[i as int],
                ));
                assert forall|k: int| 0 <= k < room.device_count implies (
                #[trigger] room.device_status@[k] == DEVICE_OFF || room.device_status@[k]
                    == DEVICE_ON) by {
                    if k != i {
                        assert(room.device_status@[k] == before.device_status@[k]);
                    }
                }
                assert forall|k: int| room.device_count <= k < MAX_DEVICES implies (
                #[trigger] room.device_status@[k] == crate::room::DEVICE_UNUSED
                    && room.device_ids@[k] == 0 && room.device_power@[k] == 0) by {
                    assert(room.device_status@[k] == before.device_status@[k]);
                }
                assert(room@.name =~= before@.name);
                assert(room@.devices =~= before@.devices.update(
                    i as int,
                    before@.devices[i as int].toggled(),
                ));
                assert(room@ == before@.with_toggled(device_id as nat));
                assert forall|k: int| 0 <= k < room@.devices.len() implies (
                #[trigger] room@.devices[k]).id == before@.devices[k].id by {}
                assert(room@.wf());
            }
            return true;
        }
        i += 1;
    }
    proof {
        lemma_device_index_is(before@.devices, device_id as nat, i as int);
    }
    false
}

/// Switches device `device_id` of room `room_id` from off to on or from on
/// to off, and marks the room active. Does nothing if there is no such room
/// or the room holds no such device.
pub fn toggle_device(registry: &mut Registry, room_id: u32, device_id: u32)
    requires
        old(registry).wf(),
    ensures
        final(registry).wf(),
        final(registry)@ == old(registry)@.with_toggled(room_id as nat, device_id as nat),
        !(old(registry)@.has_room(room_id as nat) && old(registry)@.room(
            room_id as nat,
        ).has_device(device_id as nat)) ==> *final(registry) == *old(registry),
{
    match find_room(registry, room_id) {
        Some(r) => {
            let mut room = registry.rooms[r];
            assert(room@ == registry@.rooms[r as int]);
            if toggle_in_room(&mut room, device_id) {
                proof {
                    lemma_toggle_keeps_ids(old(registry)@.rooms[r as int], device_id as nat);
                }
                registry.rooms[r] = room;
                assert(registry@.rooms =~= old(registry)@.rooms.update(r as int, room@));
            } else {
                assert(old(registry)@.rooms =~= old(registry)@.rooms.update(r as int, room@));
            }
        },
        None => {},
    }
}

/// Switching a device over changes no identifier and no name, and keeps
/// lighting and temperature.
pub proof fn lemma_toggle_keeps_ids(room: RoomView, device_id: nat)
    ensures
        room.with_toggled(device_id).id == room.id,
        room.with_toggled(device_id).name == room.name,
        room.with_toggled(device_id).lighting == room.lighting,
        room.with_toggled(device_id).temperature == room.temperature,
        room.with_toggled(device_id).devices.len() == room.devices.len(),
        forall|k: int|
            0 <= k < room.devices.len() ==> (#[trigger] room.with_toggled(device_id).devices[k]).id
                == room.devices[k].id,
        forall|k: int|
            0 <= k < room.devices.len() ==> (#[trigger] room.with_toggled(
                device_id,
            ).devices[k]).power == room.devices[k].power,
        room.wf() ==> room.with_toggled(device_id).wf(),
{
    lemma_device_index(room.devices, device_id);
}

/// Power drawn by the devices of room `room_id` that are on, in watts; a sum
/// beyond the largest 32-bit value is reported as that value. Zero if there
/// is no such room.
pub fn get_total_power(registry: &Registry, room_id: u32) -> (total: u32)
    requires
        registry.wf(),
    ensures
        total == registry@.total_power(room_id as nat),
{
    match find_room(registry, room_id) {
        Some(r) => {
            let room = &registry.rooms[r];
            assert(room@ == registry@.rooms[r as int]);
            let mut total: u32 = 0;
            let mut i: usize = 0;
            while i < room.device_count as usize
                invariant
                    i <= room.device_count <= MAX_DEVICES,
                    room.wf(),
                    total == crate::buffer::min_int(
                        active_power(room@.devices.take(i as int)) as int,
                        u32::MAX as int,
                    ),
                decreases room.device_count - i,
            {
                assert(room@.devices.take(i + 1).drop_last() =~= room@.devices.take(i as int));
                if room.device_status[i] == 1 {
                    total = total.saturating_add(room.device_power[i]);
                }
                i += 1;
            }
            assert(room@.devices.take(i as int) =~= room@.devices);
            total
        },
        None => 0,
    }
}

impl Registry {
    /// Whether every device of `room` has an identifier below the device
    /// counter.
    fn devices_below_counter(&self, room: &RoomData) -> (ok: bool)
        requires
            room.device_count <= MAX_DEVICES,
        ensures
            ok == (forall|j: int|
                0 <= j < room@.devices.len() ==> (#[trigger] room@.devices[j]).id
                    < self.next_device_id),
    {
        let mut j: usize = 0;
        while j < room.device_count as usize
            invariant
                j <= room.device_count <= MAX_DEVICES,
                forall|k: int| 0 <= k < j ==> (#[trigger] room@.devices[k]).id < self.next_device_id,
            decreases room.device_count - j,
        {
            if room.device_ids[j] >= self.next_device_id {
                assert(room@.devices[j as int].id >= self.next_device_id);
                return false;
            }
            j += 1;
        }
        true
    }

    /// Checks the registry at run time: whether it is consistent.
    pub fn is_consistent(&self) -> (ok: bool)
        ensures
            ok == self.wf(),
    {
        if self.room_count > 16 || self.next_room_id != self.room_count + 1 {
            return false;
        }
        let mut i: usize = 0;
        while i < self.room_count as usize
            invariant
                i <= self.room_count <= MAX_ROOMS,
                self.next_room_id == self.room_count + 1,
                forall|k: int|
                    0 <= k < i ==> {
                        &&& (#[trigger] self.rooms@[k]).wf()
                        &&& self.rooms@[k].id == k + FIRST_ROOM_ID
                        &&& forall|j: int|
                            0 <= j < self.rooms@[k]@.devices.len() ==> (
                            #[trigger] self.rooms@[k]@.devices[j]).id < self.next_device_id
                    },
            decreases self.room_count - i,
        {
            let room = &self.rooms[i];
            assert(self@.rooms[i as int] == room@);
            if !room.is_consistent() {
                return false;
            }
            if room.id != i as u32 + 1 {
                return false;
            }
            if !self.devices_below_counter(room) {
                return false;
            }
            i += 1;
        }
        assert forall|k: int| 0 <= k < self@.rooms.len() implies {
            &&& (#[trigger] self@.rooms[k]).wf()
            &&& self@.rooms[k].id == k + FIRST_ROOM_ID
            &&& forall|j: int|
                0 <= j < self@.rooms[k].devices.len() ==> (#[trigger] self@.rooms[k].devices[j]).id
                    < self@.next_device_id
        } by {
            assert(self.rooms@[k].wf());
        }
        true
    }
}

} // verus!
