pub mod index_map;
pub mod lookup_map;
pub mod lookup_set;
pub mod vec;

use vstd::prelude::*;

use crate::codec::{concat_bytes, le32, spec_le32, Storable};
use crate::runtime::vm_logic::TestRuntimeVMLogic;
use crate::{ATOMIC_OP_REGISTER, EVICTED_REGISTER};

pub use lookup_map::LookupMap;
pub use lookup_set::LookupSet;
pub use vec::Vector;

verus! {

/// The storage key of an index-addressed record: the collection's prefix
/// followed by the little-endian index.
pub open spec fn spec_index_key(prefix: Seq<u8>, index: u32) -> Seq<u8> {
    prefix + spec_le32(index)
}

pub fn index_key(prefix: &[u8], index: u32) -> (r: Vec<u8>)
    ensures
        r@ == spec_index_key(prefix@, index),
{
    let suffix = le32(index);
    concat_bytes(prefix, suffix.as_slice())
}

/// Distinct indices under one prefix name distinct storage keys.
pub proof fn lemma_index_key_injective(prefix: Seq<u8>, i: u32, j: u32)
    requires
        spec_index_key(prefix, i) == spec_index_key(prefix, j),
    ensures
        i == j,
{
    vstd::bytes::lemma_auto_spec_u32_to_from_le_bytes();
    assert(vstd::bytes::spec_u32_to_le_bytes(i).len() == 4);
    assert(vstd::bytes::spec_u32_to_le_bytes(j).len() == 4);
    assert(spec_le32(i) =~= spec_index_key(prefix, i).subrange(
        prefix.len() as int,
        prefix.len() as int + 4,
    ));
    assert(spec_le32(j) =~= spec_index_key(prefix, j).subrange(
        prefix.len() as int,
        prefix.len() as int + 4,
    ));
    assert(vstd::bytes::spec_u32_from_le_bytes(spec_le32(i)) == i);
    assert(vstd::bytes::spec_u32_from_le_bytes(spec_le32(j)) == j);
}

/// Whether the record stored under index `index`, if any, is a valid
/// encoding, so that reading it can resolve instead of aborting.
pub open spec fn slot_resolvable<T: Storable>(
    storage: Map<Seq<u8>, Seq<u8>>,
    prefix: Seq<u8>,
    index: u32,
) -> bool {
    storage.contains_key(spec_index_key(prefix, index)) ==> exists|v: T|
        (#[trigger] v.encoded()) == storage[spec_index_key(prefix, index)]
}

/// The element persisted under index `index`: the decoding of the stored
/// record, or absent where no record is stored.
pub open spec fn spec_stored_value<T: Storable>(
    storage: Map<Seq<u8>, Seq<u8>>,
    prefix: Seq<u8>,
    index: u32,
) -> Option<T> {
    if storage.contains_key(spec_index_key(prefix, index)) {
        Some(
            choose|v: T| (#[trigger] v.encoded()) == storage[spec_index_key(prefix, index)],
        )
    } else {
        None
    }
}

/// A record holding an element's own encoding decodes back to exactly that
/// element: persistence is the element, not an artifact of any cache.
pub proof fn lemma_stored_value_of_encoded<T: Storable>(
    storage: Map<Seq<u8>, Seq<u8>>,
    prefix: Seq<u8>,
    index: u32,
    element: T,
)
    requires
        storage.contains_key(spec_index_key(prefix, index)),
        storage[spec_index_key(prefix, index)] == element.encoded(),
    ensures
        slot_resolvable::<T>(storage, prefix, index),
        spec_stored_value::<T>(storage, prefix, index) == Some(element),
{
    assert(element.encoded() == storage[spec_index_key(prefix, index)]);
    let v = choose|v: T|
        (#[trigger] v.encoded()) == storage[spec_index_key(prefix, index)];
    T::encoded_injective(v, element);
}

/// Whether the store holds, under index `index`, exactly the given cached
/// state: the element's encoding where one is present, no record where it
/// is absent.
pub open spec fn flushed_slot_at<T: Storable>(
    storage: Map<Seq<u8>, Seq<u8>>,
    prefix: Seq<u8>,
    index: u32,
    value: Option<T>,
) -> bool {
    match value {
        Some(v) => storage.contains_key(spec_index_key(prefix, index))
            && storage[spec_index_key(prefix, index)] == v.encoded(),
        None => !storage.contains_key(spec_index_key(prefix, index)),
    }
}

/// Whether two stores agree at key `k`, both in presence and in value.
pub open spec fn storage_same_at(
    a: Map<Seq<u8>, Seq<u8>>,
    b: Map<Seq<u8>, Seq<u8>>,
    k: Seq<u8>,
) -> bool {
    b.contains_key(k) == a.contains_key(k) && (a.contains_key(k) ==> b[k] == a[k])
}

/// Leaving the reserved band untouched composes across successive calls.
pub proof fn lemma_reserved_registers_trans(
    a: TestRuntimeVMLogic,
    b: TestRuntimeVMLogic,
    c: TestRuntimeVMLogic,
)
    requires
        reserved_registers_only(a, b),
        reserved_registers_only(b, c),
    ensures
        reserved_registers_only(a, c),
{
    assert forall|id: u64|
        id != ATOMIC_OP_REGISTER && id != EVICTED_REGISTER implies #[trigger] registers_agree_at(
            a,
            c,
            id,
        ) by {
        assert(registers_agree_at(a, b, id));
        assert(registers_agree_at(b, c, id));
    }
}

/// Writing a key twice leaves only the later value: the collapse the
/// cache's populate-then-overwrite steps rely on.
pub broadcast proof fn lemma_insert_twice<K, V>(m: Map<K, V>, k: K, v1: V, v2: V)
    ensures
        #[trigger] m.insert(k, v1).insert(k, v2) == m.insert(k, v2),
{
    assert(m.insert(k, v1).insert(k, v2) =~= m.insert(k, v2));
}

/// Two host states that differ at most in the two reserved registers: the
/// atomic-operation result and the eviction byproduct. Collection
/// operations treat that band as scratch and promise nothing about it.
/// Whether two host states hold the same buffer, or the same absence, in
/// register `id`.
pub open spec fn registers_agree_at(
    a: TestRuntimeVMLogic,
    b: TestRuntimeVMLogic,
    id: u64,
) -> bool {
    b.registers@.contains_key(id) == a.registers@.contains_key(id) && (
    a.registers@.contains_key(id) ==> b.registers@[id] == a.registers@[id])
}

pub open spec fn reserved_registers_only(a: TestRuntimeVMLogic, b: TestRuntimeVMLogic) -> bool {
    forall|id: u64|
        id != ATOMIC_OP_REGISTER && id != EVICTED_REGISTER ==> #[trigger] registers_agree_at(
            a,
            b,
            id,
        )
}

} // verus!
