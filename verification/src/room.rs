//! One room and its fixed set of devices.

use vstd::prelude::*;

verus! {

/// Most devices a room can hold.
pub const MAX_DEVICES: usize = 8;

/// Most bytes of a room's name that are kept.
pub const MAX_NAME_LEN: usize = 64;

/// Status of a device that is powered down.
pub const DEVICE_OFF: u8 = 0;

/// Status of a device that is running.
pub const DEVICE_ON: u8 = 1;

/// Status of a slot that holds no device.
pub const DEVICE_UNUSED: u8 = 255;

/// Status of a room that no operation has touched yet.
pub const ROOM_IDLE: u8 = 0;

/// Status of a room that an operation has changed.
pub const ROOM_ACTIVE: u8 = 1;

/// Lighting level of a new room, in percent.
pub const DEFAULT_LIGHTING: u32 = 50;

/// Highest lighting level, in percent.
pub const MAX_LIGHTING: u32 = 100;

/// Temperature of a new room.
pub const DEFAULT_TEMPERATURE: u32 = 21;

/// Lowest temperature a room can be set to.
pub const MIN_TEMPERATURE: u32 = 16;

/// Highest temperature a room can be set to.
pub const MAX_TEMPERATURE: u32 = 30;

/// One device as read out of a room.
#[derive(Clone, Copy, Debug)]
pub struct Device {
    pub id: u32,
    pub status: u8,
    pub power_usage: u32,
}

/// A room record. The devices live in three parallel arrays; the first
/// `device_count` slots are occupied.
#[derive(Clone, Copy, Debug)]
pub struct RoomData {
    pub id: u32,
    pub name: [u8; 64],
    pub name_len: u32,
    pub lighting: u32,
    pub temperature: u32,
    pub device_ids: [u32; 8],
    pub device_status: [u8; 8],
    pub device_power: [u32; 8],
    pub device_count: u32,
    pub status: u8,
}

/// What a device is, apart from how it is stored.
pub ghost struct DeviceView {
    pub id: nat,
    pub on: bool,
    pub power: nat,
}

/// What a room is, apart from how it is stored.
pub ghost struct RoomView {
    pub id: nat,
    pub name: Seq<u8>,
    pub lighting: nat,
    pub temperature: nat,
    pub active: bool,
    pub devices: Seq<DeviceView>,
}

/// Total wattage of the devices in `devices` that are on.
pub open spec fn active_power(devices: Seq<DeviceView>) -> nat
    decreases devices.len(),
{
    if devices.len() == 0 {
        0
    } else {
        let last = devices.last();
        active_power(devices.drop_last()) + if last.on {
            last.power
        } else {
            0
        }
    }
}

/// Index of the first device in `devices` with identifier `id`, or the length
/// of `devices` if there is none.
pub open spec fn device_index(devices: Seq<DeviceView>, id: nat) -> int
    decreases devices.len(),
{
    if devices.len() == 0 {
        0
    } else {
        let before = device_index(devices.drop_last(), id);
        if before < devices.len() - 1 {
            before
        } else if devices.last().id == id {
            devices.len() - 1
        } else {
            devices.len() as int
        }
    }
}

impl DeviceView {
    /// The same device with its power state flipped.
    pub open spec fn toggled(self) -> DeviceView {
        DeviceView { on: !self.on, ..self }
    }
}

impl RoomView {
    /// A freshly created room: default lighting and temperature, idle, no
    /// devices.
    pub open spec fn fresh(id: nat, name: Seq<u8>) -> RoomView {
        RoomView {
            id,
            name,
            lighting: DEFAULT_LIGHTING as nat,
            temperature: DEFAULT_TEMPERATURE as nat,
            active: false,
            devices: Seq::empty(),
        }
    }

    /// The room after its lighting was set to `level`, capped at
    /// `MAX_LIGHTING`.
    pub open spec fn with_lighting(self, level: nat) -> RoomView {
        RoomView {
            lighting: if level > MAX_LIGHTING {
                MAX_LIGHTING as nat
            } else {
                level
            },
            active: true,
            ..self
        }
    }

    /// The room after its temperature was set to `temp`, held within
    /// `MIN_TEMPERATURE` and `MAX_TEMPERATURE`.
    pub open spec fn with_temperature(self, temp: nat) -> RoomView {
        RoomView {
            temperature: if temp < MIN_TEMPERATURE {
                MIN_TEMPERATURE as nat
            } else if temp > MAX_TEMPERATURE {
                MAX_TEMPERATURE as nat
            } else {
                temp
            },
            active: true,
            ..self
        }
    }

    /// The room is consistent: lighting and temperature are in range, the
    /// name and the device list are within capacity, and the devices carry
    /// distinct positive identifiers.
    pub open spec fn wf(self) -> bool {
        &&& self.name.len() <= MAX_NAME_LEN
        &&& self.lighting <= MAX_LIGHTING
        &&& MIN_TEMPERATURE <= self.temperature <= MAX_TEMPERATURE
        &&& self.devices.len() <= MAX_DEVICES
        &&& forall|i: int| 0 <= i < self.devices.len() ==> (#[trigger] self.devices[i]).id > 0
        &&& forall|i: int, j: int|
            0 <= i < j < self.devices.len() ==> (#[trigger] self.devices[i]).id != (
            #[trigger] self.devices[j]).id
    }

    /// Whether the room holds a device with identifier `device_id`.
    pub open spec fn has_device(self, device_id: nat) -> bool {
        device_index(self.devices, device_id) < self.devices.len()
    }

    /// The room after the device `device_id` was switched over; the room
    /// itself if it holds no such device.
    pub open spec fn with_toggled(self, device_id: nat) -> RoomView {
        let i = device_index(self.devices, device_id);
        if i < self.devices.len() {
            RoomView {
                devices: self.devices.update(i, self.devices[i].toggled()),
                active: true,
                ..self
            }
        } else {
            self
        }
    }

    /// The room with one more device at the end.
    pub open spec fn with_device(self, device: DeviceView) -> RoomView {
        RoomView { devices: self.devices.push(device), ..self }
    }

    /// Power drawn by the room's running devices, capped at the largest
    /// 32-bit value.
    pub open spec fn total_power(self) -> nat {
        let sum = active_power(self.devices);
        if sum > u32::MAX {
            u32::MAX as nat
        } else {
            sum
        }
    }
}

impl RoomData {
    /// Number of occupied device slots.
    pub open spec fn spec_device_count(&self) -> nat {
        if self.device_count <= MAX_DEVICES {
            self.device_count as nat
        } else {
            MAX_DEVICES as nat
        }
    }

    /// Number of name bytes that count.
    pub open spec fn spec_name_len(&self) -> nat {
        if self.name_len <= MAX_NAME_LEN {
            self.name_len as nat
        } else {
            MAX_NAME_LEN as nat
        }
    }

    /// The device in slot `i`.
    pub open spec fn device_at(&self, i: int) -> DeviceView {
        DeviceView {
            id: self.device_ids@[i] as nat,
            on: self.device_status@[i] == DEVICE_ON,
            power: self.device_power@[i] as nat,
        }
    }

    /// The record is consistent: the counts are within capacity, occupied
    /// slots hold devices that are on or off, the other slots are empty, and
    /// the room they describe is consistent.
    pub open spec fn wf(&self) -> bool {
        &&& self.name_len <= MAX_NAME_LEN
        &&& self.device_count <= MAX_DEVICES
        &&& (self.status == ROOM_IDLE || self.status == ROOM_ACTIVE)
        &&& forall|i: int|
            0 <= i < self.device_count ==> #[trigger] self.device_status@[i] == DEVICE_OFF
                || self.device_status@[i] == DEVICE_ON
        &&& forall|i: int|
            self.device_count <= i < MAX_DEVICES ==> {
                &&& #[trigger] self.device_status@[i] == DEVICE_UNUSED
                &&& self.device_ids@[i] == 0
                &&& self.device_power@[i] == 0
            }
        &&& self@.wf()
    }
}

impl View for RoomData {
    type V = RoomView;

    open spec fn view(&self) -> RoomView {
        RoomView {
            id: self.id as nat,
            name: self.name@.take(self.spec_name_len() as int),
            lighting: self.lighting as nat,
            temperature: self.temperature as nat,
            active: self.status == ROOM_ACTIVE,
            devices: Seq::new(self.spec_device_count(), |i: int| self.device_at(i)),
        }
    }
}

/// What `device_index` returns: the first position that holds `id`.
pub proof fn lemma_device_index(devices: Seq<DeviceView>, id: nat)
    ensures
        0 <= device_index(devices, id) <= devices.len(),
        device_index(devices, id) < devices.len() ==> devices[device_index(devices, id)].id == id,
        forall|j: int| 0 <= j < device_index(devices, id) ==> (#[trigger] devices[j]).id != id,
    decreases devices.len(),
{
    if devices.len() > 0 {
        let front = devices.drop_last();
        lemma_device_index(front, id);
        assert forall|j: int| 0 <= j < device_index(devices, id) implies (#[trigger] devices[j]).id
            != id by {
            if j < front.len() {
                assert(front[j] == devices[j]);
            }
        }
        if device_index(front, id) < front.len() {
            assert(front[device_index(front, id)] == devices[device_index(front, id)]);
        }
    }
}

/// A position that holds `id` with no earlier one that does is what
/// `device_index` returns.
pub proof fn lemma_device_index_is(devices: Seq<DeviceView>, id: nat, i: int)
    requires
        0 <= i <= devices.len(),
        i < devices.len() ==> devices[i].id == id,
        forall|j: int| 0 <= j < i ==> (#[trigger] devices[j]).id != id,
    ensures
        device_index(devices, id) == i,
{
    lemma_device_index(devices, id);
    let k = device_index(devices, id);
    if k < i {
        assert(devices[k].id == id);
    }
}

impl RoomData {
    /// An empty record: no identifier, no name, default lighting and
    /// temperature, idle, every device slot unused.
    pub fn default() -> (room: RoomData)
        ensures
            room.wf(),
            room@ == RoomView::fresh(0, Seq::empty()),
            room.name@ == Seq::new(64, |i: int| 0u8),
            room.name_len == 0,
            room.device_count == 0,
    {
        let room = RoomData {
            id: 0,
            name: [0;64],
            name_len: 0,
            lighting: 50,
            temperature: 21,
            device_ids: [0;8],
            device_status: [255;8],
            device_power: [0;8],
            device_count: 0,
            status: 0,
        };
        assert(room.name@ =~= Seq::new(64, |i: int| 0u8));
        assert(room@.name =~= Seq::empty());
        assert(room@.devices =~= Seq::empty());
        room
    }

    /// The device in slot `index`, if that slot is occupied.
    pub fn device(&self, index: usize) -> (device: Option<Device>)
        requires
            self.device_count <= MAX_DEVICES,
        ensures
            device.is_some() == (index < self.device_count),
            device matches Some(d) ==> {
                &&& d.id == self.device_ids@[index as int]
                &&& d.status == self.device_status@[index as int]
                &&& d.power_usage == self.device_power@[index as int]
            },
    {
        if index < self.device_count as usize {
            Some(
                Device {
                    id: self.device_ids[index],
                    status: self.device_status[index],
                    power_usage: self.device_power[index],
                },
            )
        } else {
            None
        }
    }
}

impl RoomData {
    /// Whether the identifiers in the first `count` device slots are positive
    /// and differ from one another.
    fn device_ids_distinct(&self) -> (ok: bool)
        requires
            self.device_count <= MAX_DEVICES,
        ensures
            ok == ({
                &&& forall|i: int| 0 <= i < self.device_count ==> #[trigger] self.device_ids@[i] > 0
                &&& forall|i: int, j: int|
                    0 <= i < j < self.device_count ==> #[trigger] self.device_ids@[i]
                        != #[trigger] self.device_ids@[j]
            }),
    {
        let count: usize = self.device_count as usize;
        let mut j: usize = 0;
        while j < count
            invariant
                j <= count == self.device_count <= MAX_DEVICES,
                forall|b: int| 0 <= b < j ==> #[trigger] self.device_ids@[b] > 0,
                forall|a: int, b: int|
                    0 <= a < b < j ==> #[trigger] self.device_ids@[a]
                        != #[trigger] self.device_ids@[b],
            decreases count - j,
        {
            if self.device_ids[j] == 0 {
                return false;
            }
            let mut i: usize = 0;
            while i < j
                invariant
                    i <= j < count == self.device_count <= MAX_DEVICES,
                    forall|a: int|
                        0 <= a < i ==> #[trigger] self.device_ids@[a] != self.device_ids@[j as int],
                decreases j - i,
            {
                if self.device_ids[i] == self.device_ids[j] {
                    return false;
                }
                i += 1;
            }
            j += 1;
        }
        true
    }

    /// Whether the device slots are filled as `wf` asks: the first
    /// `device_count` hold devices that are on or off, the others are empty.
    fn device_slots_in_order(&self) -> (ok: bool)
        requires
            self.device_count <= MAX_DEVICES,
        ensures
            ok == ({
                &&& forall|i: int|
                    0 <= i < self.device_count ==> #[trigger] self.device_status@[i] == DEVICE_OFF
                        || self.device_status@[i] == DEVICE_ON
                &&& forall|i: int|
                    self.device_count <= i < MAX_DEVICES ==> {
                        &&& #[trigger] self.device_status@[i] == DEVICE_UNUSED
                        &&& self.device_ids@[i] == 0
                        &&& self.device_power@[i] == 0
                    }
            }),
    {
        let count: usize = self.device_count as usize;
        let mut i: usize = 0;
        while i < 8
            invariant
                i <= MAX_DEVICES,
                count == self.device_count <= MAX_DEVICES,
                forall|k: int|
                    0 <= k < i && k < count ==> #[trigger] self.device_status@[k] == DEVICE_OFF
                        || self.device_status@[k] == DEVICE_ON,
                forall|k: int|
                    count <= k < i ==> {
                        &&& #[trigger] self.device_status@[k] == DEVICE_UNUSED
                        &&& self.device_ids@[k] == 0
                        &&& self.device_power@[k] == 0
                    },
            decreases MAX_DEVICES - i,
        {
            if i < count {
                if self.device_status[i] != 0 && self.device_status[i] != 1 {
                    return false;
                }
            } else {
                let status = self.device_status[i];
                let id = self.device_ids[i];
                let power = self.device_power[i];
                if status != 255 || id != 0 || power != 0 {
                    return false;
                }
            }
            i += 1;
        }
        true
    }

    /// Checks the record at run time: whether it is consistent.
    pub fn is_consistent(&self) -> (ok: bool)
        ensures
            ok == self.wf(),
    {
        if self.name_len > 64 || self.device_count > 8 || self.lighting > 100
            || self.temperature < 16 || self.temperature > 30 || self.status > 1 {
            return false;
        }
        if !self.device_slots_in_order() {
            return false;
        }
        let distinct = self.device_ids_distinct();
        proof {
            let devices = self@.devices;
            if distinct {
                assert forall|i: int| 0 <= i < devices.len() implies (#[trigger] devices[i]).id
                    > 0 by {
                    assert(self.device_ids@[i] > 0);
                }
                assert forall|i: int, j: int| 0 <= i < j < devices.len() implies (
                #[trigger] devices[i]).id != (#[trigger] devices[j]).id by {
                    assert(self.device_ids@[i] != self.device_ids@[j]);
                }
            } else {
                if self@.wf() {
                    assert forall|i: int| 0 <= i < self.device_count implies (
                    #[trigger] self.device_ids@[i]) > 0 by {
                        assert(devices[i].id > 0);
                    }
                    assert forall|i: int, j: int| 0 <= i < j < self.device_count implies (
                    #[trigger] self.device_ids@[i]) != (#[trigger] self.device_ids@[j]) by {
                        assert(devices[i].id != devices[j].id);
                    }
                }
            }
        }
        distinct
    }
}

} // verus!
