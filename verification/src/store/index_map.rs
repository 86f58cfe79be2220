use vstd::prelude::*;

use crate::codec::Storable;
use crate::runtime::vm_logic::{context_eq, TestRuntimeVMLogic};
use crate::store::{
    flushed_slot_at, index_key, lemma_index_key_injective, reserved_registers_only,
    slot_resolvable, spec_index_key, spec_stored_value, storage_same_at,
};
use crate::EVICTED_REGISTER;

verus! {

/// One touched slot of the cache, holding the element found or set at its
/// index (or its absence) and whether that state still has to be written
/// back. Untouched indices carry no slot at all: they are unknown and must
/// consult storage on their next read.
pub struct Slot<T> {
    pub value: Option<T>,
    pub dirty: bool,
}

/// A lazily populated, write-buffered cache over the host's store, keyed
/// by a dense unsigned index under one key prefix. Reads fill it from
/// storage, writes stay local until an explicit flush.
pub struct IndexMap<T: Storable> {
    prefix: Vec<u8>,
    entries: Vec<(u32, Slot<T>)>,
}

/// Whether some entry of `s` caches index `index`.
pub open spec fn slots_have_key<T>(s: Seq<(u32, Slot<T>)>, index: u32) -> bool {
    exists|i: int| 0 <= i < s.len() && #[trigger] s[i].0 == index
}

/// The position of the entry of `s` caching index `index`.
pub open spec fn slot_index_of<T>(s: Seq<(u32, Slot<T>)>, index: u32) -> int {
    choose|i: int| 0 <= i < s.len() && #[trigger] s[i].0 == index
}

/// The cache state described by an entry list.
pub open spec fn slots_as_map<T>(s: Seq<(u32, Slot<T>)>) -> Map<u32, Slot<T>> {
    Map::new(
        |index: u32| slots_have_key(s, index),
        |index: u32| s[slot_index_of(s, index)].1,
    )
}

/// No two entries cache the same index.
pub open spec fn slots_unique<T>(s: Seq<(u32, Slot<T>)>) -> bool {
    forall|i: int, j: int|
        0 <= i < j < s.len() ==> #[trigger] s[i].0 != #[trigger] s[j].0
}

/// With pairwise-distinct indices, the entry caching index `s[i].0` is
/// entry `i`.
proof fn lemma_slot_at<T>(s: Seq<(u32, Slot<T>)>, i: int)
    requires
        slots_unique(s),
        0 <= i < s.len(),
    ensures
        slots_have_key(s, s[i].0),
        slot_index_of(s, s[i].0) == i,
{
    assert(slots_have_key(s, s[i].0));
    let j = slot_index_of(s, s[i].0);
    if j < i {
        assert(s[j].0 != s[i].0);
        assert(false);
    } else if j > i {
        assert(s[i].0 != s[j].0);
        assert(false);
    }
}

/// If no entry of `s` caches index `index`, the described cache has no
/// slot there.
proof fn lemma_slot_absent<T>(s: Seq<(u32, Slot<T>)>, index: u32)
    requires
        forall|j: int| 0 <= j < s.len() ==> #[trigger] s[j].0 != index,
    ensures
        !slots_as_map(s).contains_key(index),
{
    if slots_have_key(s, index) {
        let j = choose|j: int| 0 <= j < s.len() && #[trigger] s[j].0 == index;
        assert(s[j].0 != index);
        assert(false);
    }
}

/// Replacing entry `i` in place, index kept, turns the described cache
/// into an insert at that index.
pub broadcast proof fn lemma_slots_updated<T>(s: Seq<(u32, Slot<T>)>, i: int, e: (u32, Slot<T>))
    requires
        slots_unique(s),
        0 <= i < s.len(),
        e.0 == s[i].0,
    ensures
        slots_unique(#[trigger] s.update(i, e)),
        slots_as_map(s.update(i, e)) == slots_as_map(s).insert(e.0, e.1),
{
    let s1 = s.update(i, e);
    let k = s[i].0;
    assert forall|a: int| 0 <= a < s1.len() implies #[trigger] s1[a].0 == s[a].0 by {
        if a != i {
            assert(s1[a] == s[a]);
        }
    }
    assert(slots_unique(s1));
    assert forall|k2: u32| slots_have_key(s1, k2) == slots_have_key(s, k2) by {
        if slots_have_key(s1, k2) {
            let j = choose|j: int| 0 <= j < s1.len() && #[trigger] s1[j].0 == k2;
            assert(s[j].0 == k2);
            assert(slots_have_key(s, k2));
        }
        if slots_have_key(s, k2) {
            let j = choose|j: int| 0 <= j < s.len() && #[trigger] s[j].0 == k2;
            assert(s1[j].0 == k2);
            assert(slots_have_key(s1, k2));
        }
    }
    assert forall|k2: u32| #[trigger]
        slots_as_map(s1).contains_key(k2) implies slots_as_map(s1)[k2]
        == slots_as_map(s).insert(k, e.1)[k2] by {
        let j = slot_index_of(s1, k2);
        assert(0 <= j < s1.len() && s1[j].0 == k2);
        lemma_slot_at(s, j);
        if k2 == k {
            lemma_slot_at(s1, i);
            lemma_slot_at(s1, j);
            assert(j == i);
            assert(slots_as_map(s1)[k2] == e.1);
        } else {
            assert(j != i);
            assert(s1[j] == s[j]);
            assert(slots_as_map(s1)[k2] == s1[j].1);
            assert(slots_as_map(s)[k2] == s[j].1);
        }
    }
    assert(slots_as_map(s1) =~= slots_as_map(s).insert(k, e.1));
}

/// Appending an entry for an uncached index turns the described cache
/// into an insert of that entry.
pub broadcast proof fn lemma_slots_pushed<T>(s: Seq<(u32, Slot<T>)>, e: (u32, Slot<T>))
    requires
        slots_unique(s),
        forall|j: int| 0 <= j < s.len() ==> #[trigger] s[j].0 != e.0,
    ensures
        slots_unique(#[trigger] s.push(e)),
        slots_as_map(s.push(e)) == slots_as_map(s).insert(e.0, e.1),
{
    let s1 = s.push(e);
    let k = e.0;
    let n = s.len() as int;
    assert forall|a: int, b: int|
        0 <= a < b < s1.len() implies #[trigger] s1[a].0 != #[trigger] s1[b].0 by {
        if b < n {
            assert(s1[a] == s[a] && s1[b] == s[b]);
        } else {
            assert(s1[a] == s[a]);
            assert(s[a].0 != k);
        }
    }
    assert forall|k2: u32|
        slots_have_key(s1, k2) == (slots_have_key(s, k2) || k2 == k) by {
        if slots_have_key(s1, k2) {
            let j = choose|j: int| 0 <= j < s1.len() && #[trigger] s1[j].0 == k2;
            if j < n {
                assert(s[j].0 == k2);
                assert(slots_have_key(s, k2));
            }
        }
        if slots_have_key(s, k2) {
            let j = choose|j: int| 0 <= j < s.len() && #[trigger] s[j].0 == k2;
            assert(s1[j].0 == k2);
            assert(slots_have_key(s1, k2));
        }
        if k2 == k {
            assert(s1[n].0 == k2);
            assert(slots_have_key(s1, k2));
        }
    }
    assert forall|k2: u32| #[trigger]
        slots_as_map(s1).contains_key(k2) implies slots_as_map(s1)[k2]
        == slots_as_map(s).insert(k, e.1)[k2] by {
        let j = slot_index_of(s1, k2);
        assert(0 <= j < s1.len() && s1[j].0 == k2);
        if k2 == k {
            lemma_slot_at(s1, n);
            lemma_slot_at(s1, j);
            assert(j == n);
            assert(slots_as_map(s1)[k2] == e.1);
        } else {
            assert(j != n);
            assert(s1[j] == s[j]);
            lemma_slot_at(s, j);
            assert(slots_as_map(s1)[k2] == s1[j].1);
            assert(slots_as_map(s)[k2] == s[j].1);
        }
    }
    assert(slots_as_map(s1) =~= slots_as_map(s).insert(k, e.1));
}

/// The element index `index` holds in a cache-and-store pair: the cached
/// state where the slot was touched, the persisted record otherwise.
pub open spec fn resolved_value<T: Storable>(
    cache: Map<u32, Slot<T>>,
    storage: Map<Seq<u8>, Seq<u8>>,
    prefix: Seq<u8>,
    index: u32,
) -> Option<T> {
    if cache.contains_key(index) {
        cache[index].value
    } else {
        spec_stored_value::<T>(storage, prefix, index)
    }
}

/// Setting an element and then reading the same index back, with no flush
/// between, yields exactly that element: the read is served from the
/// freshly written slot, as `set`'s cache transition and `get`'s result
/// clause state it.
pub proof fn lemma_set_then_get<T: Storable>(
    cache: Map<u32, Slot<T>>,
    storage: Map<Seq<u8>, Seq<u8>>,
    prefix: Seq<u8>,
    index: u32,
    value: T,
)
    ensures
        resolved_value::<T>(
            cache.insert(index, (Slot { value: Some(value), dirty: true })),
            storage,
            prefix,
            index,
        ) == Some(value),
{
}

/// Writing an element, flushing, and reading through a fresh cache over
/// the same prefix yields an equal element: after the flush the record
/// under the index's key is the element's own encoding, and a fresh cache
/// with every slot unknown resolves it back to the element itself, so
/// persistence is no artifact of the in-memory cache.
pub proof fn lemma_flush_round_trip<T: Storable>(
    storage: Map<Seq<u8>, Seq<u8>>,
    prefix: Seq<u8>,
    index: u32,
    element: T,
)
    requires
        flushed_slot_at::<T>(storage, prefix, index, Some(element)),
    ensures
        resolved_value::<T>(Map::<u32, Slot<T>>::empty(), storage, prefix, index) == Some(
            element,
        ),
{
    crate::store::lemma_stored_value_of_encoded(storage, prefix, index, element);
}

impl<T: Storable> View for IndexMap<T> {
    type V = Map<u32, Slot<T>>;

    closed spec fn view(&self) -> Map<u32, Slot<T>> {
        slots_as_map(self.entries@)
    }
}

impl<T: Storable> IndexMap<T> {
    /// Each index is cached at most once; everything else is visible
    /// through the view.
    pub closed spec fn wf(&self) -> bool {
        slots_unique(self.entries@)
    }

    /// The key prefix this cache owns.
    pub closed spec fn spec_prefix(&self) -> Seq<u8> {
        self.prefix@
    }

    /// A fresh cache over `prefix`, with every slot unknown. Pure: no slot
    /// is consulted and no host call is made.
    pub fn new(prefix: Vec<u8>) -> (r: Self)
        ensures
            r.wf(),
            r.spec_prefix() == prefix@,
            r@ == Map::<u32, Slot<T>>::empty(),
    {
        let r = IndexMap { prefix, entries: Vec::new() };
        proof {
            assert(r@ =~= Map::<u32, Slot<T>>::empty());
        }
        r
    }

    /// The prefix as bytes, for the record an enclosing structure
    /// persists.
    pub fn prefix_bytes(&self) -> (r: &Vec<u8>)
        ensures
            r@ == self.spec_prefix(),
    {
        &self.prefix
    }

    /// The position of the slot caching `index`, if that index was ever
    /// touched.
    fn find_pos(&self, index: u32) -> (r: Option<usize>)
        requires
            self.wf(),
        ensures
            match r {
                Some(i) => i < self.entries@.len() && self.entries@[i as int].0 == index
                    && self@.contains_key(index) && self@[index] == self.entries@[i as int].1,
                None => !self@.contains_key(index),
            },
    {
        let n = self.entries.len();
        let mut i: usize = 0;
        while i < n
            invariant
                self.wf(),
                n == self.entries@.len(),
                i <= n,
                forall|j: int| 0 <= j < i ==> #[trigger] self.entries@[j].0 != index,
            decreases n - i,
        {
            if self.entries[i].0 == index {
                proof {
                    lemma_slot_at(self.entries@, i as int);
                }
                return Some(i);
            }
            i = i + 1;
        }
        proof {
            lemma_slot_absent(self.entries@, index);
        }
        None
    }

    /// The element at `index`. An unknown slot consults storage once,
    /// populates itself clean, and the answer is served from the cache
    /// from then on. A stored record that is no valid encoding would be a
    /// protocol violation, so the caller must know the slot resolves.
    pub fn get(&mut self, env: &mut TestRuntimeVMLogic, index: u32) -> (r: Option<&T>)
        requires
            old(self).wf(),
            old(env).wf(),
            old(self)@.contains_key(index) || slot_resolvable::<T>(
                old(env).emu_storage@,
                old(self).spec_prefix(),
                index,
            ),
        ensures
            final(self).wf(),
            final(env).wf(),
            final(self).spec_prefix() == old(self).spec_prefix(),
            context_eq(*old(env), *final(env)),
            final(env).emu_storage == old(env).emu_storage,
            final(env).account_state == old(env).account_state,
            reserved_registers_only(*old(env), *final(env)),
            old(self)@.contains_key(index) ==> final(self)@ == old(self)@ && *final(env) == *old(
                env,
            ),
            !old(self)@.contains_key(index) ==> final(self)@ == old(self)@.insert(
                index,
                (Slot {
                    value: spec_stored_value::<T>(
                        old(env).emu_storage@,
                        old(self).spec_prefix(),
                        index,
                    ),
                    dirty: false,
                }),
            ),
            match r {
                Some(v) => resolved_value::<T>(
                    old(self)@,
                    old(env).emu_storage@,
                    old(self).spec_prefix(),
                    index,
                ) == Some(*v),
                None => resolved_value::<T>(
                    old(self)@,
                    old(env).emu_storage@,
                    old(self).spec_prefix(),
                    index,
                ) is None,
            },
    {
        match self.find_pos(index) {
            Some(i) => {
                match &self.entries[i].1.value {
                    Some(v) => Some(v),
                    None => None,
                }
            },
            None => {
                let key = index_key(self.prefix.as_slice(), index);
                let stored = crate::env::storage_read(env, key.as_slice());
                let value = match stored {
                    Some(bytes) => match T::from_bytes(bytes.as_slice()) {
                        Some(v) => Some(v),
                        None => {
                            proof {
                                let held = old(env).emu_storage@[spec_index_key(
                                    old(self).spec_prefix(),
                                    index,
                                )];
                                let w = choose|w: T| (#[trigger] w.encoded()) == held;
                                assert(w.encoded() != bytes@);
                                assert(false);
                            }
                            vstd::pervasive::unreached()
                        },
                    },
                    None => None,
                };
                proof {
                    let storage = old(env).emu_storage@;
                    let prefix = old(self).spec_prefix();
                    if storage.contains_key(spec_index_key(prefix, index)) {
                        match &value {
                            Some(v) => {
                                assert(v.encoded() == storage[spec_index_key(prefix, index)]);
                                let w = choose|v: T|
                                    (#[trigger] v.encoded()) == storage[spec_index_key(
                                        prefix,
                                        index,
                                    )];
                                assert(w.encoded() == storage[spec_index_key(prefix, index)]);
                                T::encoded_injective(*v, w);
                            },
                            None => {},
                        }
                    }
                    assert(value == spec_stored_value::<T>(storage, prefix, index));
                }
                let entry = (index, Slot { value, dirty: false });
                let ghost ge = entry;
                self.entries.push(entry);
                proof {
                    lemma_slots_pushed(old(self).entries@, ge);
                }
                let last = self.entries.len() - 1;
                match &self.entries[last].1.value {
                    Some(v) => Some(v),
                    None => None,
                }
            },
        }
    }

    /// The element at `index`, open for mutation through the handle. The
    /// slot is populated like `get` and, when an element is there, marked
    /// dirty up front: the cache cannot observe writes through the handle,
    /// so it conservatively assumes one.
    pub fn get_mut(&mut self, env: &mut TestRuntimeVMLogic, index: u32) -> (r: Option<&mut T>)
        requires
            old(self).wf(),
            old(env).wf(),
            old(self)@.contains_key(index) || slot_resolvable::<T>(
                old(env).emu_storage@,
                old(self).spec_prefix(),
                index,
            ),
        ensures
            final(self).wf(),
            final(env).wf(),
            final(self).spec_prefix() == old(self).spec_prefix(),
            context_eq(*old(env), *final(env)),
            final(env).emu_storage == old(env).emu_storage,
            final(env).account_state == old(env).account_state,
            reserved_registers_only(*old(env), *final(env)),
            match r {
                Some(p) => {
                    &&& resolved_value::<T>(
                        old(self)@,
                        old(env).emu_storage@,
                        old(self).spec_prefix(),
                        index,
                    ) == Some(*p)
                    &&& final(self)@ == old(self)@.insert(
                        index,
                        (Slot { value: Some(*final(p)), dirty: true }),
                    )
                },
                None => {
                    &&& resolved_value::<T>(
                        old(self)@,
                        old(env).emu_storage@,
                        old(self).spec_prefix(),
                        index,
                    ) is None
                    &&& (old(self)@.contains_key(index) ==> final(self)@ == old(self)@
                        && *final(env) == *old(env))
                    &&& (!old(self)@.contains_key(index) ==> final(self)@ == old(self)@.insert(
                        index,
                        (Slot { value: None, dirty: false }),
                    ))
                },
            },
    {
        broadcast use lemma_slots_updated;
        broadcast use crate::store::lemma_insert_twice;

        let pos = self.find_pos(index);
        let i = match pos {
            Some(i) => i,
            None => {
                let key = index_key(self.prefix.as_slice(), index);
                let stored = crate::env::storage_read(env, key.as_slice());
                let value = match stored {
                    Some(bytes) => match T::from_bytes(bytes.as_slice()) {
                        Some(v) => Some(v),
                        None => {
                            proof {
                                let held = old(env).emu_storage@[spec_index_key(
                                    old(self).spec_prefix(),
                                    index,
                                )];
                                let w = choose|w: T| (#[trigger] w.encoded()) == held;
                                assert(w.encoded() != bytes@);
                                assert(false);
                            }
                            vstd::pervasive::unreached()
                        },
                    },
                    None => None,
                };
                proof {
                    let storage = old(env).emu_storage@;
                    let prefix = old(self).spec_prefix();
                    if storage.contains_key(spec_index_key(prefix, index)) {
                        match &value {
                            Some(v) => {
                                assert(v.encoded() == storage[spec_index_key(prefix, index)]);
                                let w = choose|v: T|
                                    (#[trigger] v.encoded()) == storage[spec_index_key(
                                        prefix,
                                        index,
                                    )];
                                assert(w.encoded() == storage[spec_index_key(prefix, index)]);
                                T::encoded_injective(*v, w);
                            },
                            None => {},
                        }
                    }
                    assert(value == spec_stored_value::<T>(storage, prefix, index));
                }
                let entry = (index, Slot { value, dirty: false });
                let ghost ge = entry;
                self.entries.push(entry);
                proof {
                    lemma_slots_pushed(old(self).entries@, ge);
                }
                self.entries.len() - 1
            },
        };
        if self.entries[i].1.value.is_none() {
            return None;
        }
        let slot = vstd::std_specs::vec::vec_index_mut(&mut self.entries, i);
        slot.1.dirty = true;
        match &mut slot.1.value {
            Some(v) => Some(v),
            None => vstd::pervasive::unreached(),
        }
    }

    /// Writes every dirty slot through to the host's store, an element as
    /// its record and an absence as a removal, and marks the whole cache
    /// clean. The order across distinct indices is not part of the
    /// contract: each index's key is independent.
    pub fn flush(&mut self, env: &mut TestRuntimeVMLogic)
        requires
            old(self).wf(),
            old(env).wf(),
        ensures
            final(self).wf(),
            final(env).wf(),
            final(self).spec_prefix() == old(self).spec_prefix(),
            context_eq(*old(env), *final(env)),
            final(env).account_state == old(env).account_state,
            reserved_registers_only(*old(env), *final(env)),
            final(self)@.dom() == old(self)@.dom(),
            forall|i: u32| #[trigger]
                old(self)@.contains_key(i) ==> final(self)@.contains_key(i)
                    && final(self)@[i].value == old(self)@[i].value
                    && final(self)@[i].dirty == false,
            forall|i: u32|
                old(self)@.contains_key(i) && (#[trigger] old(self)@[i]).dirty
                    ==> flushed_slot_at(
                    final(env).emu_storage@,
                    old(self).spec_prefix(),
                    i,
                    old(self)@[i].value,
                ),
            forall|k: Seq<u8>|
                (forall|i: u32|
                    old(self)@.contains_key(i) && (#[trigger] old(self)@[i]).dirty ==> k
                        != spec_index_key(old(self).spec_prefix(), i)) ==> #[trigger]
                    storage_same_at(old(env).emu_storage@, final(env).emu_storage@, k),
    {
        let ghost s0 = old(self).entries@;
        let ghost prefix = old(self).spec_prefix();
        let ghost storage0 = old(env).emu_storage@;
        let n = self.entries.len();
        let mut i: usize = 0;
        while i < n
            invariant
                env.wf(),
                slots_unique(s0),
                self.prefix@ == prefix,
                n == s0.len(),
                i <= n,
                self.entries@.len() == n,
                forall|j: int| 0 <= j < n ==> (#[trigger] self.entries@[j]).0 == s0[j].0,
                forall|j: int|
                    0 <= j < n ==> (#[trigger] self.entries@[j]).1.value == s0[j].1.value,
                forall|j: int| 0 <= j < i ==> (#[trigger] self.entries@[j]).1.dirty == false,
                forall|j: int|
                    i <= j < n ==> (#[trigger] self.entries@[j]).1.dirty == s0[j].1.dirty,
                context_eq(*old(env), *env),
                env.account_state == old(env).account_state,
                reserved_registers_only(*old(env), *env),
                storage0 == old(env).emu_storage@,
                forall|j: int|
                    0 <= j < i && (#[trigger] s0[j]).1.dirty ==> flushed_slot_at(
                        env.emu_storage@,
                        prefix,
                        s0[j].0,
                        s0[j].1.value,
                    ),
                forall|k: Seq<u8>|
                    (forall|j: int|
                        0 <= j < i && (#[trigger] s0[j]).1.dirty ==> k != spec_index_key(
                            prefix,
                            s0[j].0,
                        )) ==> #[trigger] storage_same_at(storage0, env.emu_storage@, k),
            decreases n - i,
        {
            let ghost storage_before = env.emu_storage@;
            let ghost env_before = *env;
            if self.entries[i].1.dirty {
                let idx = self.entries[i].0;
                let key = index_key(self.prefix.as_slice(), idx);
                let enc_opt = match &self.entries[i].1.value {
                    Some(v) => {
                        proof {
                            v.encoded_fits();
                        }
                        Some(v.to_bytes())
                    },
                    None => None,
                };
                match enc_opt {
                    Some(enc) => {
                        let _ = crate::env::storage_write(env, key.as_slice(), enc.as_slice());
                    },
                    None => {
                        let _ = crate::env::storage_remove(env, key.as_slice());
                    },
                }
                let slot = vstd::std_specs::vec::vec_index_mut(&mut self.entries, i);
                slot.1.dirty = false;
                proof {
                    assert(reserved_registers_only(env_before, *env));
                    crate::store::lemma_reserved_registers_trans(*old(env), env_before, *env);
                    let st = env.emu_storage@;
                    assert forall|j: int|
                        0 <= j < i + 1 && (#[trigger] s0[j]).1.dirty implies flushed_slot_at(
                            st,
                            prefix,
                            s0[j].0,
                            s0[j].1.value,
                        ) by {
                        if j < i {
                            if spec_index_key(prefix, s0[j].0) == spec_index_key(prefix, idx) {
                                lemma_index_key_injective(prefix, s0[j].0, idx);
                                assert(s0[j].0 == s0[i as int].0);
                                assert(false);
                            }
                            assert(storage_same_at(
                                storage_before,
                                st,
                                spec_index_key(prefix, s0[j].0),
                            ));
                        } else {
                            assert(j == i);
                        }
                    }
                    assert forall|k: Seq<u8>|
                        (forall|j: int|
                            0 <= j < i + 1 && (#[trigger] s0[j]).1.dirty ==> k != spec_index_key(
                                prefix,
                                s0[j].0,
                            )) implies storage_same_at(storage0, st, k) by {
                        assert(k != spec_index_key(prefix, s0[i as int].0));
                        assert(storage_same_at(storage0, storage_before, k));
                    }
                }
            }
            i = i + 1;
        }
        proof {
            let s1 = self.entries@;
            assert forall|idx: u32|
                slots_have_key(s1, idx) == slots_have_key(s0, idx) by {
                if slots_have_key(s1, idx) {
                    let j = choose|j: int| 0 <= j < s1.len() && #[trigger] s1[j].0 == idx;
                    assert(s0[j].0 == idx);
                    assert(slots_have_key(s0, idx));
                }
                if slots_have_key(s0, idx) {
                    let j = choose|j: int| 0 <= j < s0.len() && #[trigger] s0[j].0 == idx;
                    assert(s1[j].0 == idx);
                    assert(slots_have_key(s1, idx));
                }
            }
            assert forall|a: int, b: int|
                0 <= a < b < s1.len() implies #[trigger] s1[a].0 != #[trigger] s1[b].0 by {
                assert(s1[a].0 == s0[a].0 && s1[b].0 == s0[b].0);
            }
            assert(slots_as_map(s1).dom() =~= slots_as_map(s0).dom());
            assert forall|idx: u32| #[trigger]
                slots_as_map(s0).contains_key(idx) implies slots_as_map(s1).contains_key(idx)
                && slots_as_map(s1)[idx].value == slots_as_map(s0)[idx].value
                && slots_as_map(s1)[idx].dirty == false by {
                let j = slot_index_of(s0, idx);
                assert(0 <= j < s0.len() && s0[j].0 == idx);
                lemma_slot_at(s0, j);
                lemma_slot_at(s1, j);
                assert(slots_as_map(s0)[idx] == s0[j].1);
                assert(slots_as_map(s1)[idx] == s1[j].1);
            }
            assert forall|idx: u32|
                slots_as_map(s0).contains_key(idx) && (#[trigger] slots_as_map(s0)[idx]).dirty
                    implies flushed_slot_at(
                    env.emu_storage@,
                    prefix,
                    idx,
                    slots_as_map(s0)[idx].value,
                ) by {
                let j = slot_index_of(s0, idx);
                assert(0 <= j < s0.len() && s0[j].0 == idx);
                lemma_slot_at(s0, j);
                assert(slots_as_map(s0)[idx] == s0[j].1);
            }
            assert forall|k: Seq<u8>|
                (forall|idx: u32|
                    slots_as_map(s0).contains_key(idx) && (#[trigger] slots_as_map(s0)[idx]).dirty
                        ==> k != spec_index_key(prefix, idx)) implies storage_same_at(
                    storage0,
                    env.emu_storage@,
                    k,
                ) by {
                assert forall|j: int|
                    0 <= j < s0.len() && (#[trigger] s0[j]).1.dirty implies k != spec_index_key(
                        prefix,
                        s0[j].0,
                    ) by {
                    lemma_slot_at(s0, j);
                    assert(slots_as_map(s0).contains_key(s0[j].0));
                    assert(slots_as_map(s0)[s0[j].0] == s0[j].1);
                }
            }
        }
    }

    /// Overwrites the slot at `index` with the given element or absence
    /// and marks it dirty, without consulting storage. Pure: no host call
    /// is made.
    pub fn set(&mut self, index: u32, value: Option<T>)
        requires
            old(self).wf(),
        ensures
            final(self).wf(),
            final(self).spec_prefix() == old(self).spec_prefix(),
            final(self)@ == old(self)@.insert(index, (Slot { value, dirty: true })),
    {
        let ghost slot_value = Slot { value, dirty: true };
        let pos = self.find_pos(index);
        match pos {
            Some(i) => {
                let slot = vstd::std_specs::vec::vec_index_mut(&mut self.entries, i);
                slot.1 = Slot { value, dirty: true };
                proof {
                    lemma_slots_updated(
                        old(self).entries@,
                        i as int,
                        (old(self).entries@[i as int].0, slot_value),
                    );
                }
            },
            None => {
                let entry = (index, Slot { value, dirty: true });
                self.entries.push(entry);
                proof {
                    lemma_slots_pushed(old(self).entries@, (index, slot_value));
                }
            },
        }
    }
}

} // verus!
