use vstd::prelude::*;

use crate::codec::{concat_bytes, le32, spec_le32, Storable};
use crate::runtime::vm_logic::{context_eq, TestRuntimeVMLogic};
use crate::store::index_map::{resolved_value, IndexMap, Slot};
use crate::store::{
    flushed_slot_at, reserved_registers_only, slot_resolvable, spec_stored_value,
    storage_same_at,
};

verus! {

/// A growable array over the host's store: a logical length and a dense
/// indexed cache holding the elements. Element data persists one record
/// per index; the length itself persists only when the array's own record
/// is written by an enclosing structure.
pub struct Vector<T: Storable> {
    len: u32,
    values: IndexMap<T>,
}

impl<T: Storable> Vector<T> {
    /// The logical length.
    pub closed spec fn spec_len(&self) -> u32 {
        self.len
    }

    /// The key prefix the element records live under.
    pub closed spec fn spec_prefix(&self) -> Seq<u8> {
        self.values.spec_prefix()
    }

    /// The element cache, as the indexed cache exposes it.
    pub closed spec fn cache(&self) -> Map<u32, Slot<T>> {
        self.values@
    }

    pub closed spec fn wf(&self) -> bool {
        self.values.wf()
    }

    /// An empty array over `prefix`. Pure: no host call is made.
    pub fn new(prefix: Vec<u8>) -> (r: Self)
        ensures
            r.wf(),
            r.spec_len() == 0,
            r.spec_prefix() == prefix@,
            r.cache() == Map::<u32, Slot<T>>::empty(),
    {
        Self { len: 0, values: IndexMap::new(prefix) }
    }

    /// The logical length: elements at indices below it exist, everything
    /// at or beyond it is logically absent.
    pub fn len(&self) -> (r: u32)
        ensures
            r == self.spec_len(),
    {
        self.len
    }

    /// Writes every buffered element change through to the host's store.
    /// The array's own length is not persisted by this call.
    pub fn flush(&mut self, env: &mut TestRuntimeVMLogic)
        requires
            old(self).wf(),
            old(env).wf(),
        ensures
            final(self).wf(),
            final(env).wf(),
            final(self).spec_len() == old(self).spec_len(),
            final(self).spec_prefix() == old(self).spec_prefix(),
            context_eq(*old(env), *final(env)),
            final(env).account_state == old(env).account_state,
            reserved_registers_only(*old(env), *final(env)),
            final(self).cache().dom() == old(self).cache().dom(),
            forall|i: u32| #[trigger]
                old(self).cache().contains_key(i) ==> final(self).cache().contains_key(i)
                    && final(self).cache()[i].value == old(self).cache()[i].value
                    && final(self).cache()[i].dirty == false,
            forall|i: u32|
                old(self).cache().contains_key(i) && (#[trigger] old(self).cache()[i]).dirty
                    ==> flushed_slot_at(
                    final(env).emu_storage@,
                    old(self).spec_prefix(),
                    i,
                    old(self).cache()[i].value,
                ),
            forall|k: Seq<u8>|
                (forall|i: u32|
                    old(self).cache().contains_key(i) && (#[trigger] old(self).cache()[i]).dirty
                        ==> k != crate::store::spec_index_key(old(self).spec_prefix(), i))
                    ==> #[trigger] storage_same_at(
                    old(env).emu_storage@,
                    final(env).emu_storage@,
                    k,
                ),
    {
        self.values.flush(env);
    }

    /// Overwrites the element at `index`. An index at or beyond the length
    /// is a programmer error, fatal rather than recoverable, so the caller
    /// must stay in bounds. Pure: the change is buffered until a flush.
    pub fn set(&mut self, index: u32, value: T)
        requires
            old(self).wf(),
            index < old(self).spec_len(),
        ensures
            final(self).wf(),
            final(self).spec_len() == old(self).spec_len(),
            final(self).spec_prefix() == old(self).spec_prefix(),
            final(self).cache() == old(self).cache().insert(
                index,
                (Slot { value: Some(value), dirty: true }),
            ),
    {
        self.values.set(index, Some(value));
    }

    /// Appends `element`, growing the length by exactly one. A full index
    /// space is a fatal error, so the caller must leave room.
    pub fn push(&mut self, element: T)
        requires
            old(self).wf(),
            old(self).spec_len() < u32::MAX,
        ensures
            final(self).wf(),
            final(self).spec_len() == old(self).spec_len() + 1,
            final(self).spec_prefix() == old(self).spec_prefix(),
            final(self).cache() == old(self).cache().insert(
                old(self).spec_len(),
                (Slot { value: Some(element), dirty: true }),
            ),
    {
        let last_idx = self.len;
        self.len = self.len + 1;
        self.values.set(last_idx, Some(element));
    }

    /// The element at `index`: absent at or beyond the length; below it,
    /// the cached element, or the persisted record on a slot never touched
    /// this session. The caller must know an untouched in-bounds record
    /// resolves, as a corrupt one is a protocol violation.
    pub fn get(&mut self, env: &mut TestRuntimeVMLogic, index: u32) -> (r: Option<&T>)
        requires
            old(self).wf(),
            old(env).wf(),
            index < old(self).spec_len() ==> old(self).cache().contains_key(index)
                || slot_resolvable::<T>(
                old(env).emu_storage@,
                old(self).spec_prefix(),
                index,
            ),
        ensures
            final(self).wf(),
            final(env).wf(),
            final(self).spec_len() == old(self).spec_len(),
            final(self).spec_prefix() == old(self).spec_prefix(),
            context_eq(*old(env), *final(env)),
            final(env).emu_storage == old(env).emu_storage,
            final(env).account_state == old(env).account_state,
            reserved_registers_only(*old(env), *final(env)),
            index >= old(self).spec_len() ==> r is None && *final(self) == *old(self)
                && *final(env) == *old(env),
            index < old(self).spec_len() ==> {
                &&& (old(self).cache().contains_key(index) ==> final(self).cache() == old(
                    self,
                ).cache() && *final(env) == *old(env))
                &&& (!old(self).cache().contains_key(index) ==> final(self).cache() == old(
                    self,
                ).cache().insert(
                    index,
                    (Slot {
                        value: spec_stored_value::<T>(
                            old(env).emu_storage@,
                            old(self).spec_prefix(),
                            index,
                        ),
                        dirty: false,
                    }),
                ))
                &&& match r {
                    Some(v) => resolved_value::<T>(
                        old(self).cache(),
                        old(env).emu_storage@,
                        old(self).spec_prefix(),
                        index,
                    ) == Some(*v),
                    None => resolved_value::<T>(
                        old(self).cache(),
                        old(env).emu_storage@,
                        old(self).spec_prefix(),
                        index,
                    ) is None,
                }
            },
    {
        if index >= self.len {
            return None;
        }
        self.values.get(env, index)
    }

    /// The element at `index`, open for mutation through the handle:
    /// absent at or beyond the length; otherwise like the cache's own
    /// mutable access, with the slot marked dirty up front.
    pub fn get_mut(&mut self, env: &mut TestRuntimeVMLogic, index: u32) -> (r: Option<&mut T>)
        requires
            old(self).wf(),
            old(env).wf(),
            index < old(self).spec_len() ==> old(self).cache().contains_key(index)
                || slot_resolvable::<T>(
                old(env).emu_storage@,
                old(self).spec_prefix(),
                index,
            ),
        ensures
            final(self).wf(),
            final(env).wf(),
            final(self).spec_len() == old(self).spec_len(),
            final(self).spec_prefix() == old(self).spec_prefix(),
            context_eq(*old(env), *final(env)),
            final(env).emu_storage == old(env).emu_storage,
            final(env).account_state == old(env).account_state,
            reserved_registers_only(*old(env), *final(env)),
            index >= old(self).spec_len() ==> r is None && *final(self) == *old(self)
                && *final(env) == *old(env),
            index < old(self).spec_len() ==> match r {
                Some(p) => {
                    &&& resolved_value::<T>(
                        old(self).cache(),
                        old(env).emu_storage@,
                        old(self).spec_prefix(),
                        index,
                    ) == Some(*p)
                    &&& final(self).cache() == old(self).cache().insert(
                        index,
                        (Slot { value: Some(*final(p)), dirty: true }),
                    )
                },
                None => {
                    &&& resolved_value::<T>(
                        old(self).cache(),
                        old(env).emu_storage@,
                        old(self).spec_prefix(),
                        index,
                    ) is None
                    &&& (old(self).cache().contains_key(index) ==> final(self).cache() == old(
                        self,
                    ).cache() && *final(env) == *old(env))
                    &&& (!old(self).cache().contains_key(index) ==> final(self).cache() == old(
                        self,
                    ).cache().insert(index, (Slot { value: None, dirty: false })))
                },
            },
    {
        if index >= self.len {
            return None;
        }
        self.values.get_mut(env, index)
    }

    /// The array's own record: the little-endian length, then the cache's
    /// persisted shape, which is its length-prefixed key prefix; the
    /// element data itself lives in the per-index records.
    pub fn serialize(&self) -> (r: Vec<u8>)
        requires
            self.spec_prefix().len() <= u32::MAX,
        ensures
            r@ == spec_le32(self.spec_len()) + spec_le32(self.spec_prefix().len() as u32)
                + self.spec_prefix(),
    {
        let mut out = le32(self.len);
        let prefix = self.values.prefix_bytes();
        let plen = le32(prefix.len() as u32);
        out = concat_bytes(out.as_slice(), plen.as_slice());
        out = concat_bytes(out.as_slice(), prefix.as_slice());
        proof {
            assert(out@ =~= spec_le32(self.spec_len()) + spec_le32(
                self.spec_prefix().len() as u32,
            ) + self.spec_prefix());
        }
        out
    }

    /// Reads an array back from its record: the length, then the
    /// length-prefixed key prefix of a cache with every slot unknown.
    /// Absent where the bytes are not such a record.
    pub fn deserialize(bytes: &[u8]) -> (r: Option<Self>)
        ensures
            match r {
                Some(v) => {
                    &&& v.wf()
                    &&& v.cache() == Map::<u32, Slot<T>>::empty()
                    &&& bytes@ == spec_le32(v.spec_len()) + spec_le32(
                        v.spec_prefix().len() as u32,
                    ) + v.spec_prefix()
                },
                None => true,
            },
    {
        proof {
            vstd::bytes::lemma_auto_spec_u32_to_from_le_bytes();
        }
        if bytes.len() < 8 {
            return None;
        }
        let len_bytes = vstd::slice::slice_subrange(bytes, 0, 4);
        let len = vstd::bytes::u32_from_le_bytes(len_bytes);
        let plen_bytes = vstd::slice::slice_subrange(bytes, 4, 8);
        let plen = vstd::bytes::u32_from_le_bytes(plen_bytes);
        if (bytes.len() - 8) as u64 != plen as u64 {
            return None;
        }
        let prefix_bytes = vstd::slice::slice_subrange(bytes, 8, bytes.len());
        let prefix = crate::codec::copy_bytes(prefix_bytes);
        let v = Self { len, values: IndexMap::new(prefix) };
        proof {
            assert(bytes@ =~= spec_le32(v.spec_len()) + spec_le32(
                v.spec_prefix().len() as u32,
            ) + v.spec_prefix());
        }
        Some(v)
    }
}

} // verus!
