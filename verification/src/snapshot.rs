//! The JSON snapshot of one room.

use vstd::prelude::*;
use crate::buffer::{
    ascii, decimal_text, lemma_decimal_digits_len, lemma_written_then, write_number,
    write_text, write_to_buffer, written, BUFFER_SIZE, TEXT_LIMIT,
};
use crate::registry::{find_room, Registry, RegistryView};
use crate::room::{DeviceView, RoomView, MAX_DEVICES};

verus! {

/// The value a 32-bit quantity is written as: quantities above the largest
/// signed 32-bit value come out negative.
pub open spec fn signed(x: nat) -> int {
    if x <= i32::MAX {
        x as int
    } else {
        x - 0x1_0000_0000
    }
}

/// The status word of a device.
pub open spec fn device_status_text(on: bool) -> Seq<u8> {
    if on {
        ascii("on"@)
    } else {
        ascii("off"@)
    }
}

/// The status word of a room.
pub open spec fn room_status_text(active: bool) -> Seq<u8> {
    if active {
        ascii("active"@)
    } else {
        ascii("idle"@)
    }
}

/// The JSON object of one device. Its name is made up from its identifier.
pub open spec fn device_json(device: DeviceView) -> Seq<u8> {
    ascii("{\"id\":"@) + decimal_text(signed(device.id)) + ascii(",\"name\":\"Device "@)
        + decimal_text(signed(device.id)) + ascii("\",\"status\":\""@) + device_status_text(
        device.on,
    ) + ascii("\",\"power\":"@) + decimal_text(signed(device.power)) + ascii("}"@)
}

/// The JSON objects of `devices`, separated by commas.
pub open spec fn devices_json(devices: Seq<DeviceView>) -> Seq<u8>
    decreases devices.len(),
{
    if devices.len() == 0 {
        Seq::empty()
    } else if devices.len() == 1 {
        device_json(devices.last())
    } else {
        devices_json(devices.drop_last()) + ascii(","@) + device_json(devices.last())
    }
}

/// The part of a room's JSON object that comes before its devices.
pub open spec fn room_json_head(room: RoomView) -> Seq<u8> {
    ascii("{\"id\":1,\"name\":\""@) + room.name + ascii("\",\"lighting\":"@) + decimal_text(
        signed(room.lighting),
    ) + ascii(",\"temperature\":"@) + decimal_text(signed(room.temperature)) + ascii(
        ",\"status\":\""@,
    ) + room_status_text(room.active) + ascii("\",\"devices\":["@)
}

/// The JSON object of a room. The `id` member is always `1`, whatever the
/// room's identifier, and the name is copied as it is, without escaping.
pub open spec fn room_json(room: RoomView) -> Seq<u8> {
    room_json_head(room) + devices_json(room.devices) + ascii("]}"@)
}

/// The snapshot of room `room_id`: its JSON object, or the empty object if
/// there is no such room.
pub open spec fn snapshot_text(registry: RegistryView, room_id: nat) -> Seq<u8> {
    if registry.has_room(room_id) {
        room_json(registry.room(room_id))
    } else {
        ascii("{}"@)
    }
}

/// The text of a 32-bit integer is at most eleven bytes long.
pub proof fn lemma_decimal_text_len(n: int)
    requires
        i32::MIN <= n <= i32::MAX,
    ensures
        1 <= decimal_text(n).len() <= 11,
{
    if n < 0 {
        lemma_decimal_digits_len((-n) as nat);
    } else {
        lemma_decimal_digits_len(n as nat);
    }
}

/// The JSON object of a device is at most 81 bytes long.
pub proof fn lemma_device_json_len(device: DeviceView)
    requires
        device.id <= u32::MAX,
        device.power <= u32::MAX,
    ensures
        device_json(device).len() <= 81,
{
    reveal_strlit("{\"id\":");
    reveal_strlit(",\"name\":\"Device ");
    reveal_strlit("\",\"status\":\"");
    reveal_strlit("on");
    reveal_strlit("off");
    reveal_strlit("\",\"power\":");
    reveal_strlit("}");
    lemma_decimal_text_len(signed(device.id));
    lemma_decimal_text_len(signed(device.power));
}

/// The JSON text of a device list grows by at most 82 bytes per device.
pub proof fn lemma_devices_json_len(devices: Seq<DeviceView>)
    requires
        forall|i: int|
            0 <= i < devices.len() ==> (#[trigger] devices[i]).id <= u32::MAX && devices[i].power
                <= u32::MAX,
    ensures
        devices_json(devices).len() <= 82 * devices.len(),
    decreases devices.len(),
{
    if devices.len() > 0 {
        lemma_device_json_len(devices.last());
        reveal_strlit(",");
        if devices.len() > 1 {
            let front = devices.drop_last();
            assert forall|i: int| 0 <= i < front.len() implies (#[trigger] front[i]).id
                <= u32::MAX && front[i].power <= u32::MAX by {
                assert(front[i] == devices[i]);
            }
            lemma_devices_json_len(front);
        }
    }
}

/// The JSON object of a consistent room fits the snapshot buffer with room
/// to spare.
pub proof fn lemma_room_json_len(room: RoomView)
    requires
        room.wf(),
        room.id <= u32::MAX,
        forall|i: int|
            0 <= i < room.devices.len() ==> (#[trigger] room.devices[i]).id <= u32::MAX
                && room.devices[i].power <= u32::MAX,
    ensures
        room_json(room).len() <= 1000,
{
    reveal_strlit("{\"id\":1,\"name\":\"");
    reveal_strlit("\",\"lighting\":");
    reveal_strlit(",\"temperature\":");
    reveal_strlit(",\"status\":\"");
    reveal_strlit("active");
    reveal_strlit("idle");
    reveal_strlit("\",\"devices\":[");
    reveal_strlit("]}");
    lemma_decimal_text_len(signed(room.lighting));
    lemma_decimal_text_len(signed(room.temperature));
    lemma_devices_json_len(room.devices);
}

/// The signed 32-bit integer with the same bits as `x`.
pub fn to_signed(x: u32) -> (n: i32)
    ensures
        n == signed(x as nat),
{
    if x <= 0x7fff_ffff {
        x as i32
    } else {
        ((x - 0x8000_0000) as i32) + i32::MIN
    }
}

/// Appends an ASCII text to what has been written from the start of the
/// buffer.
fn put_text(
    buffer: &mut [u8; 4096],
    pos: usize,
    text: &str,
    Ghost(start): Ghost<Seq<u8>>,
    Ghost(done): Ghost<Seq<u8>>,
) -> (new_pos: usize)
    requires
        vstd::utf8::is_ascii_chars(text@),
        written(start, old(buffer)@, 0, done, pos as int),
    ensures
        written(start, final(buffer)@, 0, done + ascii(text@), new_pos as int),
{
    let new_pos = write_text(buffer, pos, text);
    proof {
        lemma_written_then(
            start,
            old(buffer)@,
            buffer@,
            0,
            done,
            pos as int,
            ascii(text@),
            new_pos as int,
        );
    }
    new_pos
}

/// Appends raw bytes to what has been written from the start of the buffer.
fn put_bytes(
    buffer: &mut [u8; 4096],
    pos: usize,
    data: &[u8],
    Ghost(start): Ghost<Seq<u8>>,
    Ghost(done): Ghost<Seq<u8>>,
) -> (new_pos: usize)
    requires
        written(start, old(buffer)@, 0, done, pos as int),
    ensures
        written(start, final(buffer)@, 0, done + data@, new_pos as int),
{
    let new_pos = write_to_buffer(buffer, pos, data);
    proof {
        lemma_written_then(start, old(buffer)@, buffer@, 0, done, pos as int, data@, new_pos as int);
    }
    new_pos
}

/// Appends a 32-bit quantity in decimal to what has been written from the
/// start of the buffer.
fn put_number(
    buffer: &mut [u8; 4096],
    pos: usize,
    value: u32,
    Ghost(start): Ghost<Seq<u8>>,
    Ghost(done): Ghost<Seq<u8>>,
) -> (new_pos: usize)
    requires
        written(start, old(buffer)@, 0, done, pos as int),
    ensures
        written(
            start,
            final(buffer)@,
            0,
            done + decimal_text(signed(value as nat)),
            new_pos as int,
        ),
{
    let new_pos = write_number(buffer, pos, to_signed(value));
    proof {
        lemma_written_then(
            start,
            old(buffer)@,
            buffer@,
            0,
            done,
            pos as int,
            decimal_text(signed(value as nat)),
            new_pos as int,
        );
    }
    new_pos
}

/// `after` holds `text` from its first byte on, followed by a zero byte, and
/// is `before` in every byte after that.
pub open spec fn holds_text(before: Seq<u8>, after: Seq<u8>, text: Seq<u8>) -> bool {
    &&& before.len() == BUFFER_SIZE
    &&& after.len() == BUFFER_SIZE
    &&& text.len() < TEXT_LIMIT
    &&& after.take(text.len() as int) == text
    &&& after[text.len() as int] == 0
    &&& forall|i: int| text.len() < i < BUFFER_SIZE ==> #[trigger] after[i] == before[i]
}

/// Writes the snapshot of room `room_id` into `buffer`, followed by a zero
/// byte, and returns the length of the text. For a room that does not exist
/// the text is the empty object `{}`. The text of a consistent registry
/// always fits; bytes of the buffer past the terminator keep what they held.
pub fn get_state_json(registry: &Registry, room_id: u32, buffer: &mut [u8; 4096]) -> (len:
    usize)
    requires
        registry.wf(),
    ensures
        len == snapshot_text(registry@, room_id as nat).len(),
        holds_text(old(buffer)@, final(buffer)@, snapshot_text(registry@, room_id as nat)),
{
    let ghost start = buffer@;
    let ghost mut done = Seq::<u8>::empty();
    let mut pos: usize = 0;
    proof {
        reveal_strlit("{}");
        reveal_strlit("{\"id\":1,\"name\":\"");
        reveal_strlit("\",\"lighting\":");
        reveal_strlit(",\"temperature\":");
        reveal_strlit(",\"status\":\"");
        reveal_strlit("active");
        reveal_strlit("idle");
        reveal_strlit("offline");
        reveal_strlit("\",\"devices\":[");
        reveal_strlit("]}");
    }
    match find_room(registry, room_id) {
        Some(r) => {
            let room = &registry.rooms[r];
            assert(room@ == registry@.room(room_id as nat));
            assert(room.wf());
            proof {
                lemma_room_json_len(room@);
            }

            pos = put_text(buffer, pos, "{\"id\":1,\"name\":\"", Ghost(start), Ghost(done));
            proof {
                done = done + ascii("{\"id\":1,\"name\":\""@);
            }

            let name_len: usize = if room.name_len < 64 {
                room.name_len as usize
            } else {
                64
            };
            let name = vstd::slice::slice_subrange(room.name.as_slice(), 0, name_len);
            assert(name@ =~= room@.name);
            pos = put_bytes(buffer, pos, name, Ghost(start), Ghost(done));
            proof {
                done = done + room@.name;
            }

            pos = put_text(buffer, pos, "\",\"lighting\":", Ghost(start), Ghost(done));
            proof {
                done = done + ascii("\",\"lighting\":"@);
            }
            pos = put_number(buffer, pos, room.lighting, Ghost(start), Ghost(done));
            proof {
                done = done + decimal_text(signed(room.lighting as nat));
            }

            pos = put_text(buffer, pos, ",\"temperature\":", Ghost(start), Ghost(done));
            proof {
                done = done + ascii(",\"temperature\":"@);
            }
            pos = put_number(buffer, pos, room.temperature, Ghost(start), Ghost(done));
            proof {
                done = done + decimal_text(signed(room.temperature as nat));
            }

            pos = put_text(buffer, pos, ",\"status\":\"", Ghost(start), Ghost(done));
            proof {
                done = done + ascii(",\"status\":\""@);
            }

            let status_str = match room.status {
                0 => "idle",
                1 => "active",
                _ => "offline",
            };
            pos = put_text(buffer, pos, status_str, Ghost(start), Ghost(done));
            proof {
                done = done + room_status_text(room@.active);
            }

            pos = put_text(buffer, pos, "\",\"devices\":[", Ghost(start), Ghost(done));
            proof {
                done = done + ascii("\",\"devices\":["@);
                assert(done =~= room_json_head(room@));
            }

            let mut i: usize = 0;
            while i < room.device_count as usize
                invariant
                    i <= room.device_count <= MAX_DEVICES,
                    room.wf(),
                    written(start, buffer@, 0, done, pos as int),
                    done == room_json_head(room@) + devices_json(room@.devices.take(i as int)),
                decreases room.device_count - i,
            {
                let ghost device = room@.devices[i as int];
                let ghost so_far = done;
                proof {
                    reveal_strlit(",");
                    reveal_strlit("{\"id\":");
                    reveal_strlit(",\"name\":\"Device ");
                    reveal_strlit("\",\"status\":\"");
                    reveal_strlit("on");
                    reveal_strlit("off");
                    reveal_strlit("\",\"power\":");
                    reveal_strlit("}");
                }
                if i > 0 {
                    pos = put_text(buffer, pos, ",", Ghost(start), Ghost(done));
                    proof {
                        done = done + ascii(","@);
                    }
                }
                let ghost lead = done;

                pos = put_text(buffer, pos, "{\"id\":", Ghost(start), Ghost(done));
                proof {
                    done = done + ascii("{\"id\":"@);
                }
                pos = put_number(buffer, pos, room.device_ids[i], Ghost(start), Ghost(done));
                proof {
                    done = done + decimal_text(signed(device.id));
                }

                pos = put_text(buffer, pos, ",\"name\":\"Device ", Ghost(start), Ghost(done));
                proof {
                    done = done + ascii(",\"name\":\"Device "@);
                }
                pos = put_number(buffer, pos, room.device_ids[i], Ghost(start), Ghost(done));
                proof {
                    done = done + decimal_text(signed(device.id));
                }

                pos = put_text(buffer, pos, "\",\"status\":\"", Ghost(start), Ghost(done));
                proof {
                    done = done + ascii("\",\"status\":\""@);
                }

                if room.device_status[i] == 0 {
                    pos = put_text(buffer, pos, "off", Ghost(start), Ghost(done));
                } else if room.device_status[i] == 1 {
                    pos = put_text(buffer, pos, "on", Ghost(start), Ghost(done));
                }
                proof {
                    done = done + device_status_text(device.on);
                }

                pos = put_text(buffer, pos, "\",\"power\":", Ghost(start), Ghost(done));
                proof {
                    done = done + ascii("\",\"power\":"@);
                }
                pos = put_number(buffer, pos, room.device_power[i], Ghost(start), Ghost(done));
                proof {
                    done = done + decimal_text(signed(device.power));
                }

                pos = put_text(buffer, pos, "}", Ghost(start), Ghost(done));
                proof {
                    done = done + ascii("}"@);
                    assert(done =~= lead + device_json(device));
                    let upto = room@.devices.take(i + 1);
                    assert(upto.drop_last() =~= room@.devices.take(i as int));
                    assert(upto.last() == device);
                    assert(done =~= room_json_head(room@) + devices_json(upto));
                }
                i += 1;
            }
            assert(room@.devices.take(i as int) =~= room@.devices);

            pos = put_text(buffer, pos, "]}", Ghost(start), Ghost(done));
            proof {
                done = done + ascii("]}"@);
                assert(done == room_json(room@));
            }
        },
        None => {
            pos = put_text(buffer, pos, "{}", Ghost(start), Ghost(done));
            proof {
                done = done + ascii("{}"@);
                assert(done =~= ascii("{}"@));
            }
        },
    }
    assert(pos == done.len());
    if pos < 4096 {
        buffer[pos] = 0;
    }
    assert(buffer@.take(done.len() as int) =~= done);
    pos
}

} // verus!
