//! Packing of an object id and a shard index into one picking value.
use vstd::prelude::*;

verus! {

/// Multiplier that separates the object id from the shard index.
pub const ID_MEM_OFFSET: u32 = 100;

/// Number of mesh shards a scene is split into.
pub const SHARD_COUNT: u32 = 8;

/// The object id held in a packed picking value.
pub open spec fn spec_unpack_id(raw: nat) -> nat {
    ((raw - raw % 100) / 100int) as nat
}

/// The shard index held in a packed picking value.
pub open spec fn spec_unpack_shard(raw: nat) -> nat {
    raw % (ID_MEM_OFFSET as nat)
}

/// The packed picking value of an object id and a shard index.
pub open spec fn spec_pack(object_id: nat, shard_id: nat) -> nat {
    object_id * (ID_MEM_OFFSET as nat) + shard_id
}

/// Packs an object id and a shard index into one picking value.
pub fn pack(object_id: u32, shard_id: u32) -> (r: u32)
    requires
        shard_id < ID_MEM_OFFSET,
        spec_pack(object_id as nat, shard_id as nat) <= u32::MAX,
    ensures
        r as nat == spec_pack(object_id as nat, shard_id as nat),
{
    object_id * ID_MEM_OFFSET + shard_id
}

/// The object id of a packed picking value.
pub fn unpack_id(raw_id: u32) -> (r: u32)
    ensures
        r as nat == spec_unpack_id(raw_id as nat),
        r as nat == raw_id as nat / (ID_MEM_OFFSET as nat),
{
    let pack_id: u32 = raw_id % ID_MEM_OFFSET;
    let id: u32 = (raw_id - pack_id) / ID_MEM_OFFSET;
    proof {
        let r: int = raw_id as int;
        assert(r == (r / 100) * 100 + r % 100) by (nonlinear_arith);
        assert((r - r % 100) / 100 == r / 100) by (nonlinear_arith)
            requires r == (r / 100) * 100 + r % 100;
    }
    id
}

/// The shard index of a packed picking value.
pub fn unpack_packid(raw_id: u32) -> (r: u32)
    ensures
        r as nat == spec_unpack_shard(raw_id as nat),
        r < ID_MEM_OFFSET,
{
    raw_id % ID_MEM_OFFSET
}

/// Unpacking a packed value gives back the object id and the shard index
/// it was made of, for every shard index below the offset and every object
/// id whose packed value fits in 32 bits.
pub proof fn lemma_pack_round_trip(object_id: nat, shard_id: nat)
    requires
        shard_id < ID_MEM_OFFSET,
    ensures
        spec_unpack_id(spec_pack(object_id, shard_id)) == object_id,
        spec_unpack_shard(spec_pack(object_id, shard_id)) == shard_id,
{
    let p: int = spec_pack(object_id, shard_id) as int;
    assert(p == object_id * 100 + shard_id);
    assert(p % 100 == shard_id as int) by (nonlinear_arith)
        requires p == object_id * 100 + shard_id, 0 <= shard_id < 100, object_id >= 0;
    assert((p - shard_id) / 100 == object_id as int) by (nonlinear_arith)
        requires p == object_id * 100 + shard_id, object_id >= 0;
}

/// Every object id below 2^24 with a shard index below the shard count
/// packs into 32 bits, and unpacks to the same pair.
pub proof fn lemma_pack_round_trip_in_range(object_id: nat, shard_id: nat)
    requires
        object_id < 0x100_0000,
        shard_id < SHARD_COUNT,
    ensures
        spec_pack(object_id, shard_id) <= u32::MAX,
        spec_unpack_id(spec_pack(object_id, shard_id)) == object_id,
        spec_unpack_shard(spec_pack(object_id, shard_id)) == shard_id,
{
    lemma_pack_round_trip(object_id, shard_id);
}

} // verus!
