use vstd::prelude::*;

use crate::codec::{concat_bytes, copy_bytes, Storable};
use crate::runtime::vm_logic::{context_eq, TestRuntimeVMLogic};
use crate::store::{lemma_reserved_registers_trans, reserved_registers_only};

verus! {

/// A set that stores its content directly on the persistent storage: a
/// member is a zero-length record under the prefixed key of its encoding.
/// No local state beyond the prefix, no size, no enumeration: every
/// operation is exactly one storage round trip.
pub struct LookupSet<T: Storable> {
    prefix: Vec<u8>,
    hasher: core::marker::PhantomData<T>,
}

/// Appends the prefixed key of `key`'s encoding to `buffer` and hands a
/// copy of the whole buffer back.
pub fn to_key<T: Storable>(prefix: &[u8], key: &T, buffer: &mut Vec<u8>) -> (r: Vec<u8>)
    ensures
        r@ == old(buffer)@ + prefix@ + key.encoded(),
        final(buffer)@ == old(buffer)@ + prefix@ + key.encoded(),
{
    let enc = key.to_bytes();
    let mut tail = concat_bytes(prefix, enc.as_slice());
    buffer.append(&mut tail);
    let r = copy_bytes(buffer.as_slice());
    proof {
        assert(r@ =~= old(buffer)@ + prefix@ + key.encoded());
    }
    r
}

/// The store after membership records for every value of `values`, in
/// order, were upserted under `prefix`.
pub open spec fn spec_insert_all<T: Storable>(
    storage: Map<Seq<u8>, Seq<u8>>,
    prefix: Seq<u8>,
    values: Seq<T>,
) -> Map<Seq<u8>, Seq<u8>>
    decreases values.len(),
{
    if values.len() == 0 {
        storage
    } else {
        spec_insert_all(
            storage.insert(prefix + values[0].encoded(), Seq::<u8>::empty()),
            prefix,
            values.drop_first(),
        )
    }
}

proof fn lemma_insert_all_push<T: Storable>(
    storage: Map<Seq<u8>, Seq<u8>>,
    prefix: Seq<u8>,
    values: Seq<T>,
    v: T,
)
    ensures
        spec_insert_all(storage, prefix, values.push(v)) == spec_insert_all(
            storage,
            prefix,
            values,
        ).insert(prefix + v.encoded(), Seq::<u8>::empty()),
    decreases values.len(),
{
    if values.len() == 0 {
        assert(values.push(v).drop_first() =~= Seq::<T>::empty());
        assert(values.push(v)[0] == v);
        assert(spec_insert_all(storage, prefix, values.push(v)) == spec_insert_all(
            storage.insert(prefix + v.encoded(), Seq::<u8>::empty()),
            prefix,
            Seq::<T>::empty(),
        ));
        assert(spec_insert_all(storage, prefix, values) == storage);
    } else {
        assert(values.push(v).drop_first() =~= values.drop_first().push(v));
        assert(values.push(v)[0] == values[0]);
        assert(spec_insert_all(storage, prefix, values.push(v)) == spec_insert_all(
            storage.insert(prefix + values[0].encoded(), Seq::<u8>::empty()),
            prefix,
            values.drop_first().push(v),
        ));
        lemma_insert_all_push(
            storage.insert(prefix + values[0].encoded(), Seq::<u8>::empty()),
            prefix,
            values.drop_first(),
            v,
        );
        assert(spec_insert_all(storage, prefix, values) == spec_insert_all(
            storage.insert(prefix + values[0].encoded(), Seq::<u8>::empty()),
            prefix,
            values.drop_first(),
        ));
    }
}

/// The membership laws of the sparse set, over the storage map its
/// operations surface: after an insert the key is contained, so a second
/// insert of the same value reports "already present"; after a removal it
/// is not, so a membership check reports absence and a second removal
/// reports "was absent".
pub proof fn lemma_membership_round_trip<T: Storable>(
    storage: Map<Seq<u8>, Seq<u8>>,
    prefix: Seq<u8>,
    value: T,
)
    ensures
        storage.insert(prefix + value.encoded(), Seq::<u8>::empty()).contains_key(
            prefix + value.encoded(),
        ),
        !storage.insert(prefix + value.encoded(), Seq::<u8>::empty()).remove(
            prefix + value.encoded(),
        ).contains_key(prefix + value.encoded()),
        !storage.remove(prefix + value.encoded()).contains_key(prefix + value.encoded()),
{
}

impl<T: Storable> LookupSet<T> {
    /// The key prefix this set owns.
    pub closed spec fn spec_prefix(&self) -> Seq<u8> {
        self.prefix@
    }

    /// A set over `prefix`. Pure: no host call is made.
    pub fn new(prefix: Vec<u8>) -> (r: Self)
        ensures
            r.spec_prefix() == prefix@,
    {
        Self { prefix, hasher: core::marker::PhantomData }
    }

    /// The prefix as bytes.
    pub fn prefix(&self) -> (r: &Vec<u8>)
        ensures
            r@ == self.spec_prefix(),
    {
        &self.prefix
    }

    /// Whether `value` is a member: exactly one storage read.
    pub fn contains(&self, env: &mut TestRuntimeVMLogic, value: &T) -> (r: bool)
        requires
            old(env).wf(),
        ensures
            final(env).wf(),
            context_eq(*old(env), *final(env)),
            final(env).emu_storage == old(env).emu_storage,
            final(env).account_state == old(env).account_state,
            reserved_registers_only(*old(env), *final(env)),
            r == old(env).emu_storage@.contains_key(self.spec_prefix() + value.encoded()),
    {
        let mut buffer: Vec<u8> = Vec::new();
        let lookup_key = to_key(self.prefix.as_slice(), value, &mut buffer);
        crate::env::storage_read(env, lookup_key.as_slice()).is_some()
    }

    /// Adds `value`: exactly one storage write of a zero-length record.
    /// True exactly when the value was newly inserted, false when the set
    /// already contained it.
    pub fn insert(&mut self, env: &mut TestRuntimeVMLogic, value: T) -> (r: bool)
        requires
            old(env).wf(),
        ensures
            final(env).wf(),
            *final(self) == *old(self),
            context_eq(*old(env), *final(env)),
            final(env).account_state == old(env).account_state,
            reserved_registers_only(*old(env), *final(env)),
            final(env).emu_storage@ == old(env).emu_storage@.insert(
                old(self).spec_prefix() + value.encoded(),
                Seq::<u8>::empty(),
            ),
            r == !old(env).emu_storage@.contains_key(old(self).spec_prefix() + value.encoded()),
    {
        let mut buffer: Vec<u8> = Vec::new();
        let lookup_key = to_key(self.prefix.as_slice(), &value, &mut buffer);
        let empty_value: Vec<u8> = Vec::new();
        !crate::env::storage_write(env, lookup_key.as_slice(), empty_value.as_slice())
    }

    /// Removes `value`: exactly one storage delete. True exactly when the
    /// value was present.
    pub fn remove(&mut self, env: &mut TestRuntimeVMLogic, value: &T) -> (r: bool)
        requires
            old(env).wf(),
        ensures
            final(env).wf(),
            *final(self) == *old(self),
            context_eq(*old(env), *final(env)),
            final(env).account_state == old(env).account_state,
            reserved_registers_only(*old(env), *final(env)),
            final(env).emu_storage@ == old(env).emu_storage@.remove(
                old(self).spec_prefix() + value.encoded(),
            ),
            r == old(env).emu_storage@.contains_key(old(self).spec_prefix() + value.encoded()),
    {
        let mut buffer: Vec<u8> = Vec::new();
        let lookup_key = to_key(self.prefix.as_slice(), value, &mut buffer);
        crate::env::storage_remove(env, lookup_key.as_slice())
    }

    /// Adds every value of `values`, in order, one storage write each.
    pub fn extend(&mut self, env: &mut TestRuntimeVMLogic, values: Vec<T>)
        requires
            old(env).wf(),
        ensures
            final(env).wf(),
            *final(self) == *old(self),
            context_eq(*old(env), *final(env)),
            final(env).account_state == old(env).account_state,
            reserved_registers_only(*old(env), *final(env)),
            final(env).emu_storage@ == spec_insert_all(
                old(env).emu_storage@,
                old(self).spec_prefix(),
                values@,
            ),
    {
        let ghost vs0 = values@;
        let ghost st0 = old(env).emu_storage@;
        let ghost prefix = old(self).spec_prefix();
        let mut values = values;
        let ghost total: int = vs0.len() as int;
        while values.len() > 0
            invariant
                env.wf(),
                *self == *old(self),
                self.spec_prefix() == prefix,
                context_eq(*old(env), *env),
                env.account_state == old(env).account_state,
                reserved_registers_only(*old(env), *env),
                total == vs0.len(),
                values@.len() <= total,
                values@ == vs0.subrange(total - values@.len(), total),
                env.emu_storage@ == spec_insert_all(st0, prefix, vs0.take(total - values@.len())),
            decreases values@.len(),
        {
            let ghost env_before = *env;
            let ghost done: int = total - values@.len();
            let element = values.remove(0);
            proof {
                assert(element == vs0[done]);
                assert(values@ =~= vs0.subrange(done + 1, total));
            }
            let _ = self.insert(env, element);
            proof {
                lemma_reserved_registers_trans(*old(env), env_before, *env);
                lemma_insert_all_push(st0, prefix, vs0.take(done), vs0[done]);
                assert(vs0.take(done).push(vs0[done]) =~= vs0.take(done + 1));
            }
        }
        proof {
            assert(vs0.take(total) =~= vs0);
        }
    }
}

} // verus!
