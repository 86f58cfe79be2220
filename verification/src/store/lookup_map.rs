use vstd::prelude::*;

use crate::codec::Storable;
use crate::runtime::vm_logic::{context_eq, TestRuntimeVMLogic};
use crate::store::lookup_set::to_key;
use crate::store::reserved_registers_only;

verus! {

/// A map that stores its content directly on the persistent storage: each
/// entry is the value's record under the prefixed key of the key's
/// encoding. Like the set, it keeps no local state beyond the prefix and
/// makes exactly one storage round trip per operation.
pub struct LookupMap<K: Storable, V: Storable> {
    prefix: Vec<u8>,
    hasher: core::marker::PhantomData<(K, V)>,
}

/// Whether the record stored under key `k`, if any, is a valid encoding,
/// so that reading it can resolve instead of aborting.
pub open spec fn value_resolvable<V: Storable>(storage: Map<Seq<u8>, Seq<u8>>, k: Seq<u8>) -> bool {
    storage.contains_key(k) ==> exists|v: V| (#[trigger] v.encoded()) == storage[k]
}

/// The value persisted under key `k`: the decoding of the stored record,
/// or absent where no record is stored.
pub open spec fn spec_value_at<V: Storable>(
    storage: Map<Seq<u8>, Seq<u8>>,
    k: Seq<u8>,
) -> Option<V> {
    if storage.contains_key(k) {
        Some(choose|v: V| (#[trigger] v.encoded()) == storage[k])
    } else {
        None
    }
}

/// A record holding a value's own encoding decodes back to exactly that
/// value.
pub proof fn lemma_value_at_of_encoded<V: Storable>(
    storage: Map<Seq<u8>, Seq<u8>>,
    k: Seq<u8>,
    value: V,
)
    requires
        storage.contains_key(k),
        storage[k] == value.encoded(),
    ensures
        value_resolvable::<V>(storage, k),
        spec_value_at::<V>(storage, k) == Some(value),
{
    assert(value.encoded() == storage[k]);
    let w = choose|v: V| (#[trigger] v.encoded()) == storage[k];
    V::encoded_injective(w, value);
}

impl<K: Storable, V: Storable> LookupMap<K, V> {
    /// The key prefix this map owns.
    pub closed spec fn spec_prefix(&self) -> Seq<u8> {
        self.prefix@
    }

    /// A map over `prefix`. Pure: no host call is made.
    pub fn new(prefix: Vec<u8>) -> (r: Self)
        ensures
            r.spec_prefix() == prefix@,
    {
        Self { prefix, hasher: core::marker::PhantomData }
    }

    /// Whether an entry exists at `key`: exactly one storage read.
    pub fn contains_key(&self, env: &mut TestRuntimeVMLogic, key: &K) -> (r: bool)
        requires
            old(env).wf(),
        ensures
            final(env).wf(),
            context_eq(*old(env), *final(env)),
            final(env).emu_storage == old(env).emu_storage,
            final(env).account_state == old(env).account_state,
            reserved_registers_only(*old(env), *final(env)),
            r == old(env).emu_storage@.contains_key(self.spec_prefix() + key.encoded()),
    {
        let mut buffer: Vec<u8> = Vec::new();
        let lookup_key = to_key(self.prefix.as_slice(), key, &mut buffer);
        crate::env::storage_read(env, lookup_key.as_slice()).is_some()
    }

    /// The value at `key`, or absent where the map holds none: exactly one
    /// storage read. A stored record that is no valid encoding would be a
    /// protocol violation, so the caller must know the entry resolves.
    pub fn get(&self, env: &mut TestRuntimeVMLogic, key: &K) -> (r: Option<V>)
        requires
            old(env).wf(),
            value_resolvable::<V>(
                old(env).emu_storage@,
                self.spec_prefix() + key.encoded(),
            ),
        ensures
            final(env).wf(),
            context_eq(*old(env), *final(env)),
            final(env).emu_storage == old(env).emu_storage,
            final(env).account_state == old(env).account_state,
            reserved_registers_only(*old(env), *final(env)),
            r == spec_value_at::<V>(old(env).emu_storage@, self.spec_prefix() + key.encoded()),
    {
        let mut buffer: Vec<u8> = Vec::new();
        let lookup_key = to_key(self.prefix.as_slice(), key, &mut buffer);
        match crate::env::storage_read(env, lookup_key.as_slice()) {
            Some(bytes) => match V::from_bytes(bytes.as_slice()) {
                Some(v) => {
                    proof {
                        let storage = old(env).emu_storage@;
                        let k = self.spec_prefix() + key.encoded();
                        assert(v.encoded() == storage[k]);
                        let w = choose|v: V| (#[trigger] v.encoded()) == storage[k];
                        assert(w.encoded() == storage[k]);
                        V::encoded_injective(v, w);
                    }
                    Some(v)
                },
                None => {
                    proof {
                        let storage = old(env).emu_storage@;
                        let k = self.spec_prefix() + key.encoded();
                        let w = choose|v: V| (#[trigger] v.encoded()) == storage[k];
                        assert(w.encoded() == storage[k]);
                        assert(w.encoded() != bytes@);
                        assert(false);
                    }
                    vstd::pervasive::unreached()
                },
            },
            None => None,
        }
    }

    /// Upserts `value` at `key`: exactly one storage write. True exactly
    /// when the entry was newly inserted, false when one was replaced.
    pub fn insert(&mut self, env: &mut TestRuntimeVMLogic, key: &K, value: &V) -> (r: bool)
        requires
            old(env).wf(),
        ensures
            final(env).wf(),
            *final(self) == *old(self),
            context_eq(*old(env), *final(env)),
            final(env).account_state == old(env).account_state,
            reserved_registers_only(*old(env), *final(env)),
            final(env).emu_storage@ == old(env).emu_storage@.insert(
                old(self).spec_prefix() + key.encoded(),
                value.encoded(),
            ),
            r == !old(env).emu_storage@.contains_key(old(self).spec_prefix() + key.encoded()),
    {
        let mut buffer: Vec<u8> = Vec::new();
        let lookup_key = to_key(self.prefix.as_slice(), key, &mut buffer);
        let record = value.to_bytes();
        proof {
            value.encoded_fits();
        }
        !crate::env::storage_write(env, lookup_key.as_slice(), record.as_slice())
    }

    /// Removes the entry at `key`: exactly one storage delete. True
    /// exactly when an entry was present.
    pub fn remove(&mut self, env: &mut TestRuntimeVMLogic, key: &K) -> (r: bool)
        requires
            old(env).wf(),
        ensures
            final(env).wf(),
            *final(self) == *old(self),
            context_eq(*old(env), *final(env)),
            final(env).account_state == old(env).account_state,
            reserved_registers_only(*old(env), *final(env)),
            final(env).emu_storage@ == old(env).emu_storage@.remove(
                old(self).spec_prefix() + key.encoded(),
            ),
            r == old(env).emu_storage@.contains_key(old(self).spec_prefix() + key.encoded()),
    {
        let mut buffer: Vec<u8> = Vec::new();
        let lookup_key = to_key(self.prefix.as_slice(), key, &mut buffer);
        crate::env::storage_remove(env, lookup_key.as_slice())
    }
}

} // verus!
