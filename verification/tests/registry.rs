use demo_room::registry::{
    create_room, create_room_internal, find_room, get_room_count, get_total_power, init_room,
    set_lighting, set_temperature, toggle_device, Registry,
};
use demo_room::room::RoomData;

fn bootstrapped() -> Registry {
    let mut registry = Registry::new();
    init_room(&mut registry);
    registry
}

fn room(registry: &Registry, room_id: u32) -> RoomData {
    let slot = find_room(registry, room_id).expect("room exists");
    registry.rooms[slot]
}

#[test]
fn new_registry_is_empty() {
    let registry = Registry::new();
    assert_eq!(get_room_count(&registry), 0);
    assert_eq!(registry.next_room_id, 1);
    assert_eq!(registry.next_device_id, 100);
    assert_eq!(find_room(&registry, 1), None);
    assert_eq!(find_room(&registry, 0), None);
}

#[test]
fn default_room_is_empty() {
    let room = RoomData::default();
    assert_eq!(room.id, 0);
    assert_eq!(room.name, [0u8; 64]);
    assert_eq!(room.name_len, 0);
    assert_eq!(room.lighting, 50);
    assert_eq!(room.temperature, 21);
    assert_eq!(room.device_ids, [0u32; 8]);
    assert_eq!(room.device_status, [255u8; 8]);
    assert_eq!(room.device_power, [0u32; 8]);
    assert_eq!(room.device_count, 0);
    assert_eq!(room.status, 0);
    assert!(room.device(0).is_none());
}

#[test]
fn seventeenth_room_is_refused() {
    let mut registry = Registry::new();
    for expected in 1..=16u32 {
        assert_eq!(create_room(&mut registry, 0, 0), expected);
        assert_eq!(get_room_count(&registry), expected);
    }
    assert_eq!(create_room(&mut registry, 0, 0), 0);
    assert_eq!(get_room_count(&registry), 16);
    assert_eq!(registry.next_room_id, 17);
    assert_eq!(create_room(&mut registry, 0, 0), 0);
    assert_eq!(get_room_count(&registry), 16);
}

#[test]
fn sixteen_rooms_after_bootstrap() {
    let mut registry = bootstrapped();
    for expected in 2..=16u32 {
        assert_eq!(create_room(&mut registry, 0, 0), expected);
    }
    assert_eq!(create_room(&mut registry, 0, 0), 0);
    assert_eq!(get_room_count(&registry), 16);
}

#[test]
fn created_room_has_defaults() {
    let mut registry = bootstrapped();
    let id = create_room(&mut registry, 1234, 99);
    assert_eq!(id, 2);
    let room = room(&registry, id);
    assert_eq!(room.id, 2);
    assert_eq!(&room.name[..room.name_len as usize], b"New Room");
    assert_eq!(room.name_len, 8);
    assert_eq!(room.lighting, 50);
    assert_eq!(room.temperature, 21);
    assert_eq!(room.status, 0);
    assert_eq!(room.device_count, 0);
    assert_eq!(get_total_power(&registry, id), 0);
}

#[test]
fn create_room_ignores_the_name_handed_in() {
    let mut a = Registry::new();
    let mut b = Registry::new();
    let first = create_room(&mut a, 0, 0);
    let second = create_room(&mut b, 4096, 17);
    assert_eq!(first, second);
    assert_eq!(room(&a, first).name, room(&b, second).name);
    assert_eq!(room(&a, first).name_len, room(&b, second).name_len);
}

#[test]
fn internal_create_keeps_the_name() {
    let mut registry = Registry::new();
    let id = create_room_internal(&mut registry, b"Kitchen", 7);
    assert_eq!(id, 1);
    let room = room(&registry, id);
    assert_eq!(room.name_len, 7);
    assert_eq!(&room.name[..7], b"Kitchen");
    assert_eq!(room.name[7], 0);
}

#[test]
fn internal_create_takes_a_prefix() {
    let mut registry = Registry::new();
    let id = create_room_internal(&mut registry, b"Kitchen", 3);
    let room = room(&registry, id);
    assert_eq!(room.name_len, 3);
    assert_eq!(&room.name[..3], b"Kit");
    assert_eq!(room.name[3], 0);
}

#[test]
fn long_name_is_cut_at_64_bytes() {
    let mut registry = Registry::new();
    let name: Vec<u8> = (0..100u8).map(|i| b'a' + (i % 26)).collect();
    let id = create_room_internal(&mut registry, &name, 100);
    let room = room(&registry, id);
    assert_eq!(room.name_len, 64);
    assert_eq!(&room.name[..], &name[..64]);
}

#[test]
fn empty_name_is_accepted() {
    let mut registry = Registry::new();
    let id = create_room_internal(&mut registry, b"", 0);
    assert_eq!(id, 1);
    assert_eq!(room(&registry, id).name_len, 0);
}

#[test]
fn internal_create_fails_when_full() {
    let mut registry = Registry::new();
    for _ in 0..16 {
        assert_ne!(create_room_internal(&mut registry, b"R", 1), 0);
    }
    assert_eq!(create_room_internal(&mut registry, b"R", 1), 0);
    assert_eq!(get_room_count(&registry), 16);
}

#[test]
fn room_ids_are_handed_out_in_order() {
    let mut registry = Registry::new();
    let a = create_room(&mut registry, 0, 0);
    let b = create_room(&mut registry, 0, 0);
    let c = create_room(&mut registry, 0, 0);
    assert_eq!((a, b, c), (1, 2, 3));
    assert_eq!(find_room(&registry, 1), Some(0));
    assert_eq!(find_room(&registry, 2), Some(1));
    assert_eq!(find_room(&registry, 3), Some(2));
    assert_eq!(find_room(&registry, 4), None);
    assert_eq!(find_room(&registry, 0), None);
}

#[test]
fn bootstrap_seeds_one_room_with_three_devices() {
    let registry = bootstrapped();
    assert_eq!(get_room_count(&registry), 1);
    assert_eq!(registry.next_room_id, 2);
    assert_eq!(registry.next_device_id, 103);
    let room = room(&registry, 1);
    assert_eq!(room.id, 1);
    assert_eq!(&room.name[..room.name_len as usize], b"Living Room");
    assert_eq!(room.lighting, 50);
    assert_eq!(room.temperature, 21);
    assert_eq!(room.status, 0);
    assert_eq!(room.device_count, 3);

    let lamp = room.device(0).expect("lamp");
    assert_eq!((lamp.id, lamp.status, lamp.power_usage), (100, 1, 60));
    let ac = room.device(1).expect("air conditioner");
    assert_eq!((ac.id, ac.status, ac.power_usage), (101, 0, 3500));
    let tv = room.device(2).expect("television");
    assert_eq!((tv.id, tv.status, tv.power_usage), (102, 0, 100));
    assert!(room.device(3).is_none());
    assert_eq!(room.device_status[3], 255);

    assert_eq!(get_total_power(&registry, 1), 60);
}

#[test]
fn bootstrap_resets_what_was_there() {
    let mut registry = bootstrapped();
    create_room(&mut registry, 0, 0);
    create_room(&mut registry, 0, 0);
    set_lighting(&mut registry, 1, 5);
    toggle_device(&mut registry, 1, 100);
    assert_eq!(get_room_count(&registry), 3);

    init_room(&mut registry);
    assert_eq!(get_room_count(&registry), 1);
    assert_eq!(find_room(&registry, 2), None);
    assert_eq!(find_room(&registry, 3), None);
    assert_eq!(get_total_power(&registry, 2), 0);
    let room = room(&registry, 1);
    assert_eq!(room.lighting, 50);
    assert_eq!(room.status, 0);
    assert_eq!(get_total_power(&registry, 1), 60);
    assert_eq!(create_room(&mut registry, 0, 0), 2);
}

#[test]
fn lighting_is_capped_at_100() {
    let mut registry = bootstrapped();
    set_lighting(&mut registry, 1, 150);
    assert_eq!(room(&registry, 1).lighting, 100);
    assert_eq!(room(&registry, 1).status, 1);
    set_lighting(&mut registry, 1, u32::MAX);
    assert_eq!(room(&registry, 1).lighting, 100);
}

#[test]
fn lighting_in_range_is_kept() {
    let mut registry = bootstrapped();
    set_lighting(&mut registry, 1, 0);
    assert_eq!(room(&registry, 1).lighting, 0);
    set_lighting(&mut registry, 1, 73);
    assert_eq!(room(&registry, 1).lighting, 73);
    set_lighting(&mut registry, 1, 100);
    assert_eq!(room(&registry, 1).lighting, 100);
    set_lighting(&mut registry, 1, 101);
    assert_eq!(room(&registry, 1).lighting, 100);
}

#[test]
fn temperature_is_held_between_16_and_30() {
    let mut registry = bootstrapped();
    set_temperature(&mut registry, 1, 5);
    assert_eq!(room(&registry, 1).temperature, 16);
    assert_eq!(room(&registry, 1).status, 1);
    set_temperature(&mut registry, 1, 99);
    assert_eq!(room(&registry, 1).temperature, 30);
    set_temperature(&mut registry, 1, 0);
    assert_eq!(room(&registry, 1).temperature, 16);
    set_temperature(&mut registry, 1, u32::MAX);
    assert_eq!(room(&registry, 1).temperature, 30);
}

#[test]
fn temperature_in_range_is_kept() {
    let mut registry = bootstrapped();
    for temp in 16..=30u32 {
        set_temperature(&mut registry, 1, temp);
        assert_eq!(room(&registry, 1).temperature, temp);
    }
    set_temperature(&mut registry, 1, 15);
    assert_eq!(room(&registry, 1).temperature, 16);
    set_temperature(&mut registry, 1, 31);
    assert_eq!(room(&registry, 1).temperature, 30);
}

#[test]
fn mutators_leave_other_rooms_alone() {
    let mut registry = bootstrapped();
    let other = create_room(&mut registry, 0, 0);
    set_lighting(&mut registry, other, 10);
    set_temperature(&mut registry, other, 25);
    assert_eq!(room(&registry, 1).lighting, 50);
    assert_eq!(room(&registry, 1).temperature, 21);
    assert_eq!(room(&registry, 1).status, 0);
    assert_eq!(room(&registry, other).lighting, 10);
    assert_eq!(room(&registry, other).temperature, 25);
    assert_eq!(room(&registry, other).status, 1);
}

#[test]
fn mutators_do_nothing_for_an_unknown_room() {
    let mut registry = bootstrapped();
    set_lighting(&mut registry, 9, 10);
    set_temperature(&mut registry, 9, 25);
    toggle_device(&mut registry, 9, 100);
    set_lighting(&mut registry, 0, 10);
    set_temperature(&mut registry, 0, 25);
    toggle_device(&mut registry, 0, 0);
    assert_eq!(get_room_count(&registry), 1);
    let room = room(&registry, 1);
    assert_eq!(room.lighting, 50);
    assert_eq!(room.temperature, 21);
    assert_eq!(room.status, 0);
    assert_eq!(room.device_status, [1, 0, 0, 255, 255, 255, 255, 255]);
    for slot in 1..16 {
        assert_eq!(registry.rooms[slot].lighting, 50);
        assert_eq!(registry.rooms[slot].temperature, 21);
        assert_eq!(registry.rooms[slot].status, 0);
    }
}

#[test]
fn toggle_twice_restores_the_device() {
    let mut registry = bootstrapped();
    for device_id in [100u32, 101, 102] {
        let before = room(&registry, 1).device_status;
        toggle_device(&mut registry, 1, device_id);
        assert_ne!(room(&registry, 1).device_status, before);
        toggle_device(&mut registry, 1, device_id);
        assert_eq!(room(&registry, 1).device_status, before);
    }
    assert_eq!(room(&registry, 1).status, 1);
}

#[test]
fn toggle_flips_only_the_named_device() {
    let mut registry = bootstrapped();
    toggle_device(&mut registry, 1, 101);
    assert_eq!(room(&registry, 1).device_status, [1, 1, 0, 255, 255, 255, 255, 255]);
    assert_eq!(room(&registry, 1).device_ids, [100, 101, 102, 0, 0, 0, 0, 0]);
    assert_eq!(room(&registry, 1).device_power, [60, 3500, 100, 0, 0, 0, 0, 0]);
    toggle_device(&mut registry, 1, 100);
    assert_eq!(room(&registry, 1).device_status, [0, 1, 0, 255, 255, 255, 255, 255]);
}

#[test]
fn toggle_of_an_unknown_device_changes_nothing() {
    let mut registry = bootstrapped();
    toggle_device(&mut registry, 1, 103);
    toggle_device(&mut registry, 1, 0);
    toggle_device(&mut registry, 1, 99);
    let room = room(&registry, 1);
    assert_eq!(room.device_status, [1, 0, 0, 255, 255, 255, 255, 255]);
    assert_eq!(room.status, 0);
}

#[test]
fn total_power_counts_running_devices_only() {
    let mut registry = bootstrapped();
    assert_eq!(get_total_power(&registry, 1), 60);
    toggle_device(&mut registry, 1, 100);
    assert_eq!(get_total_power(&registry, 1), 0);
    toggle_device(&mut registry, 1, 102);
    assert_eq!(get_total_power(&registry, 1), 100);
    toggle_device(&mut registry, 1, 100);
    assert_eq!(get_total_power(&registry, 1), 160);
    toggle_device(&mut registry, 1, 102);
    assert_eq!(get_total_power(&registry, 1), 60);
}

#[test]
fn switching_the_air_conditioner_on_gives_3560() {
    let mut registry = bootstrapped();
    toggle_device(&mut registry, 1, 101);
    assert_eq!(get_total_power(&registry, 1), 3560);
}

#[test]
fn all_devices_on_gives_3660() {
    let mut registry = bootstrapped();
    toggle_device(&mut registry, 1, 101);
    toggle_device(&mut registry, 1, 102);
    assert_eq!(get_total_power(&registry, 1), 3660);
}

#[test]
fn total_power_of_an_unknown_room_is_zero() {
    let registry = bootstrapped();
    assert_eq!(get_total_power(&registry, 2), 0);
    assert_eq!(get_total_power(&registry, 0), 0);
    assert_eq!(get_total_power(&registry, u32::MAX), 0);
}

#[test]
fn total_power_saturates() {
    let mut registry = bootstrapped();
    registry.rooms[0].device_power = [u32::MAX - 10, 7, 100, 0, 0, 0, 0, 0];
    registry.rooms[0].device_status = [1, 1, 0, 255, 255, 255, 255, 255];
    assert_eq!(get_total_power(&registry, 1), u32::MAX - 3);
    registry.rooms[0].device_status = [1, 1, 1, 255, 255, 255, 255, 255];
    assert_eq!(get_total_power(&registry, 1), u32::MAX);
    registry.rooms[0].device_status = [0, 1, 1, 255, 255, 255, 255, 255];
    assert_eq!(get_total_power(&registry, 1), 107);
}

#[test]
fn registries_made_by_the_library_are_consistent() {
    let mut registry = Registry::new();
    assert!(registry.is_consistent());
    init_room(&mut registry);
    assert!(registry.is_consistent());
    for _ in 0..20 {
        create_room(&mut registry, 0, 0);
        assert!(registry.is_consistent());
    }
    toggle_device(&mut registry, 1, 101);
    set_lighting(&mut registry, 3, 500);
    set_temperature(&mut registry, 16, 2);
    assert!(registry.is_consistent());
}

#[test]
fn broken_registries_are_told_apart() {
    let mut good = Registry::new();
    init_room(&mut good);
    create_room(&mut good, 0, 0);

    let mut registry = Registry { ..good };
    registry.room_count = 17;
    assert!(!registry.is_consistent());

    let mut registry = Registry { ..good };
    registry.next_room_id = 7;
    assert!(!registry.is_consistent());

    let mut registry = Registry { ..good };
    registry.rooms[1].id = 1;
    assert!(!registry.is_consistent());

    let mut registry = Registry { ..good };
    registry.next_device_id = 102;
    assert!(!registry.is_consistent());

    let mut registry = Registry { ..good };
    registry.rooms[0].lighting = 101;
    assert!(!registry.is_consistent());

    let mut registry = Registry { ..good };
    registry.rooms[5].lighting = 101;
    assert!(registry.is_consistent());
}

#[test]
fn broken_rooms_are_told_apart() {
    let mut registry = Registry::new();
    init_room(&mut registry);
    let good = registry.rooms[0];
    assert!(good.is_consistent());
    assert!(RoomData::default().is_consistent());

    let mut room = good;
    room.name_len = 65;
    assert!(!room.is_consistent());

    let mut room = good;
    room.temperature = 15;
    assert!(!room.is_consistent());

    let mut room = good;
    room.temperature = 31;
    assert!(!room.is_consistent());

    let mut room = good;
    room.status = 2;
    assert!(!room.is_consistent());

    let mut room = good;
    room.device_count = 9;
    assert!(!room.is_consistent());

    let mut room = good;
    room.device_ids[2] = 100;
    assert!(!room.is_consistent());

    let mut room = good;
    room.device_ids[1] = 0;
    assert!(!room.is_consistent());

    let mut room = good;
    room.device_status[1] = 255;
    assert!(!room.is_consistent());

    let mut room = good;
    room.device_status[3] = 0;
    assert!(!room.is_consistent());

    let mut room = good;
    room.device_power[7] = 1;
    assert!(!room.is_consistent());

    let mut room = good;
    room.device_count = 2;
    assert!(!room.is_consistent());
}
