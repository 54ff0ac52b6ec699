use hull_picking::codec::{pack, unpack_id, unpack_packid, ID_MEM_OFFSET};

#[test]
fn unpack_known_value() {
    assert_eq!(unpack_id(502), 5);
    assert_eq!(unpack_packid(502), 2);
    assert_eq!(unpack_id(0), 0);
    assert_eq!(unpack_packid(0), 0);
    assert_eq!(unpack_id(99), 0);
    assert_eq!(unpack_packid(99), 99);
}

#[test]
fn pack_known_value() {
    assert_eq!(pack(5, 2), 502);
    assert_eq!(pack(0, 7), 7);
    assert_eq!(ID_MEM_OFFSET, 100);
}

#[test]
fn pack_round_trip_samples() {
    let ids: [u32; 6] = [0, 1, 5, 12345, 1 << 20, (1 << 24) - 1];
    for &id in ids.iter() {
        for shard in 0..8u32 {
            let packed = pack(id, shard);
            assert_eq!(unpack_id(packed), id);
            assert_eq!(unpack_packid(packed), shard);
        }
    }
}

#[test]
fn pack_largest_object_id() {
    let id = u32::MAX / 100;
    let packed = pack(id, 0);
    assert_eq!(unpack_id(packed), id);
    assert_eq!(unpack_packid(packed), 0);
}
