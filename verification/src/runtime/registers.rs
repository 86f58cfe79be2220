use vstd::prelude::*;

use crate::codec::copy_bytes;

verus! {

/// The host-owned register table: buffer slots identified by numeric
/// handles, seen abstractly as a map from handle to buffer bytes.
#[derive(Debug)]
pub struct RegisterTable {
    entries: Vec<(u64, Vec<u8>)>,
}

/// Whether some entry of `s` has handle `id`.
pub open spec fn registers_have_id(s: Seq<(u64, Vec<u8>)>, id: u64) -> bool {
    exists|i: int| 0 <= i < s.len() && #[trigger] s[i].0 == id
}

/// The index of the entry of `s` with handle `id`.
pub open spec fn register_index_of(s: Seq<(u64, Vec<u8>)>, id: u64) -> int {
    choose|i: int| 0 <= i < s.len() && #[trigger] s[i].0 == id
}

/// The map described by a register entry list.
pub open spec fn registers_as_map(s: Seq<(u64, Vec<u8>)>) -> Map<u64, Seq<u8>> {
    Map::new(
        |id: u64| registers_have_id(s, id),
        |id: u64| s[register_index_of(s, id)].1@,
    )
}

/// No two entries share a handle.
pub open spec fn registers_unique(s: Seq<(u64, Vec<u8>)>) -> bool {
    forall|i: int, j: int|
        0 <= i < j < s.len() ==> #[trigger] s[i].0 != #[trigger] s[j].0
}

/// Every buffer fits the host's length counter, below the sentinel
/// reserved for "no such register".
pub open spec fn registers_bounded(s: Seq<(u64, Vec<u8>)>) -> bool {
    forall|i: int| 0 <= i < s.len() ==> (#[trigger] s[i].1@.len()) < u64::MAX
}

/// With pairwise-distinct handles, the entry holding handle `s[i].0` is
/// entry `i`.
proof fn lemma_register_at(s: Seq<(u64, Vec<u8>)>, i: int)
    requires
        registers_unique(s),
        0 <= i < s.len(),
    ensures
        registers_have_id(s, s[i].0),
        register_index_of(s, s[i].0) == i,
{
    assert(registers_have_id(s, s[i].0));
    let j = register_index_of(s, s[i].0);
    if j < i {
        assert(s[j].0 != s[i].0);
        assert(false);
    } else if j > i {
        assert(s[i].0 != s[j].0);
        assert(false);
    }
}

/// If no entry of `s` has handle `id`, the described map has no key `id`.
proof fn lemma_register_absent(s: Seq<(u64, Vec<u8>)>, id: u64)
    requires
        forall|j: int| 0 <= j < s.len() ==> #[trigger] s[j].0 != id,
    ensures
        !registers_as_map(s).contains_key(id),
{
    if registers_have_id(s, id) {
        let j = choose|j: int| 0 <= j < s.len() && #[trigger] s[j].0 == id;
        assert(s[j].0 != id);
        assert(false);
    }
}

/// Replacing the buffer of entry `i` in place turns the described map into
/// an insert at that entry's handle.
proof fn lemma_register_updated(
    s0: Seq<(u64, Vec<u8>)>,
    s1: Seq<(u64, Vec<u8>)>,
    i: int,
    v: Seq<u8>,
)
    requires
        registers_unique(s0),
        0 <= i < s0.len(),
        s1.len() == s0.len(),
        forall|j: int| 0 <= j < s0.len() && j != i ==> s1[j] == s0[j],
        s1[i].0 == s0[i].0,
        s1[i].1@ == v,
    ensures
        registers_unique(s1),
        registers_as_map(s1) == registers_as_map(s0).insert(s0[i].0, v),
{
    let k = s0[i].0;
    assert forall|a: int| 0 <= a < s1.len() implies #[trigger] s1[a].0 == s0[a].0 by {
        if a != i {
            assert(s1[a] == s0[a]);
        }
    }
    assert(registers_unique(s1));
    assert forall|k2: u64|
        registers_have_id(s1, k2) == registers_have_id(s0, k2) by {
        if registers_have_id(s1, k2) {
            let j = choose|j: int| 0 <= j < s1.len() && #[trigger] s1[j].0 == k2;
            assert(s0[j].0 == k2);
            assert(registers_have_id(s0, k2));
        }
        if registers_have_id(s0, k2) {
            let j = choose|j: int| 0 <= j < s0.len() && #[trigger] s0[j].0 == k2;
            assert(s1[j].0 == k2);
            assert(registers_have_id(s1, k2));
        }
    }
    assert forall|k2: u64| #[trigger]
        registers_as_map(s1).contains_key(k2) implies registers_as_map(s1)[k2]
        == registers_as_map(s0).insert(k, v)[k2] by {
        let j = register_index_of(s1, k2);
        assert(0 <= j < s1.len() && s1[j].0 == k2);
        lemma_register_at(s0, j);
        if k2 == k {
            lemma_register_at(s1, i);
            lemma_register_at(s1, j);
            assert(j == i);
            assert(registers_as_map(s1)[k2] == v);
        } else {
            assert(j != i);
            assert(s1[j] == s0[j]);
            assert(registers_as_map(s1)[k2] == s1[j].1@);
            assert(registers_as_map(s0)[k2] == s0[j].1@);
        }
    }
    assert(registers_as_map(s1) =~= registers_as_map(s0).insert(k, v));
}

/// Appending an entry with a fresh handle turns the described map into an
/// insert of that entry.
proof fn lemma_register_pushed(
    s0: Seq<(u64, Vec<u8>)>,
    s1: Seq<(u64, Vec<u8>)>,
    k: u64,
    v: Seq<u8>,
)
    requires
        registers_unique(s0),
        forall|j: int| 0 <= j < s0.len() ==> #[trigger] s0[j].0 != k,
        s1.len() == s0.len() + 1,
        forall|j: int| 0 <= j < s0.len() ==> s1[j] == s0[j],
        s1[s0.len() as int].0 == k,
        s1[s0.len() as int].1@ == v,
    ensures
        registers_unique(s1),
        registers_as_map(s1) == registers_as_map(s0).insert(k, v),
{
    let n = s0.len() as int;
    assert forall|a: int, b: int|
        0 <= a < b < s1.len() implies #[trigger] s1[a].0 != #[trigger] s1[b].0 by {
        if b < n {
            assert(s1[a] == s0[a] && s1[b] == s0[b]);
        } else {
            assert(s1[a] == s0[a]);
            assert(s0[a].0 != k);
        }
    }
    assert forall|k2: u64|
        registers_have_id(s1, k2) == (registers_have_id(s0, k2) || k2 == k) by {
        if registers_have_id(s1, k2) {
            let j = choose|j: int| 0 <= j < s1.len() && #[trigger] s1[j].0 == k2;
            if j < n {
                assert(s0[j].0 == k2);
                assert(registers_have_id(s0, k2));
            }
        }
        if registers_have_id(s0, k2) {
            let j = choose|j: int| 0 <= j < s0.len() && #[trigger] s0[j].0 == k2;
            assert(s1[j].0 == k2);
            assert(registers_have_id(s1, k2));
        }
        if k2 == k {
            assert(s1[n].0 == k2);
            assert(registers_have_id(s1, k2));
        }
    }
    assert forall|k2: u64| #[trigger]
        registers_as_map(s1).contains_key(k2) implies registers_as_map(s1)[k2]
        == registers_as_map(s0).insert(k, v)[k2] by {
        let j = register_index_of(s1, k2);
        assert(0 <= j < s1.len() && s1[j].0 == k2);
        if k2 == k {
            lemma_register_at(s1, n);
            lemma_register_at(s1, j);
            assert(j == n);
            assert(registers_as_map(s1)[k2] == v);
        } else {
            assert(j != n);
            assert(s1[j] == s0[j]);
            lemma_register_at(s0, j);
            assert(registers_as_map(s1)[k2] == s1[j].1@);
            assert(registers_as_map(s0)[k2] == s0[j].1@);
        }
    }
    assert(registers_as_map(s1) =~= registers_as_map(s0).insert(k, v));
}

/// Swap-removing entry `i` turns the described map into a removal of that
/// entry's handle.
proof fn lemma_register_swap_removed(s0: Seq<(u64, Vec<u8>)>, i: int)
    requires
        registers_unique(s0),
        0 <= i < s0.len(),
    ensures
        registers_unique(s0.update(i, s0.last()).drop_last()),
        registers_as_map(s0.update(i, s0.last()).drop_last())
            == registers_as_map(s0).remove(s0[i].0),
{
    let k = s0[i].0;
    let n = s0.len() - 1;
    let s1 = s0.update(i, s0.last()).drop_last();
    assert(s1.len() == n);
    assert forall|a: int, b: int|
        0 <= a < b < s1.len() implies #[trigger] s1[a].0 != #[trigger] s1[b].0 by {
        if a == i {
            assert(s1[a] == s0[n] && s1[b] == s0[b]);
            assert(s0[b].0 != s0[n].0);
        } else if b == i {
            assert(s1[b] == s0[n] && s1[a] == s0[a]);
            assert(s0[a].0 != s0[n].0);
        } else {
            assert(s1[a] == s0[a] && s1[b] == s0[b]);
        }
    }
    assert forall|k2: u64|
        registers_have_id(s1, k2) == (registers_have_id(s0, k2) && k2 != k) by {
        if registers_have_id(s1, k2) {
            let j = choose|j: int| 0 <= j < s1.len() && #[trigger] s1[j].0 == k2;
            if j == i {
                assert(s0[n].0 == k2);
                assert(registers_have_id(s0, k2));
                if k2 == k {
                    if n != i {
                        assert(s0[i].0 != s0[n].0);
                    }
                    assert(false);
                }
            } else {
                assert(s0[j].0 == k2);
                assert(registers_have_id(s0, k2));
                if k2 == k {
                    lemma_register_at(s0, j);
                    lemma_register_at(s0, i);
                    assert(false);
                }
            }
        }
        if registers_have_id(s0, k2) && k2 != k {
            let j = choose|j: int| 0 <= j < s0.len() && #[trigger] s0[j].0 == k2;
            assert(j != i);
            if j == n {
                assert(i < n);
                assert(s1[i].0 == k2);
                assert(registers_have_id(s1, k2));
            } else {
                assert(s1[j].0 == k2);
                assert(registers_have_id(s1, k2));
            }
        }
    }
    assert forall|k2: u64| #[trigger]
        registers_as_map(s1).contains_key(k2) implies registers_as_map(s1)[k2]
        == registers_as_map(s0).remove(k)[k2] by {
        let j = register_index_of(s1, k2);
        assert(0 <= j < s1.len() && s1[j].0 == k2);
        assert(k2 != k);
        if j == i {
            lemma_register_at(s0, n);
            assert(s1[j] == s0[n]);
            assert(registers_as_map(s0)[k2] == s0[n].1@);
        } else {
            lemma_register_at(s0, j);
            assert(s1[j] == s0[j]);
            assert(registers_as_map(s0)[k2] == s0[j].1@);
        }
    }
    assert(registers_as_map(s1) =~= registers_as_map(s0).remove(k));
}

impl View for RegisterTable {
    type V = Map<u64, Seq<u8>>;

    closed spec fn view(&self) -> Map<u64, Seq<u8>> {
        registers_as_map(self.entries@)
    }
}

impl RegisterTable {
    /// Distinct handles, and every buffer below the length sentinel;
    /// everything else is visible through the view.
    pub closed spec fn wf(&self) -> bool {
        registers_unique(self.entries@) && registers_bounded(self.entries@)
    }

    /// Every buffer a well-formed table holds is below the length sentinel.
    pub proof fn lemma_buffers_bounded(&self, id: u64)
        requires
            self.wf(),
            self@.contains_key(id),
        ensures
            self@[id].len() < u64::MAX,
    {
        let j = register_index_of(self.entries@, id);
    }

    pub fn new() -> (r: Self)
        ensures
            r.wf(),
            r@ == Map::<u64, Seq<u8>>::empty(),
    {
        let r = RegisterTable { entries: Vec::new() };
        proof {
            assert(r@ =~= Map::<u64, Seq<u8>>::empty());
        }
        r
    }

    /// The buffer held in register `id`, if that register was ever
    /// populated.
    pub fn get(&self, id: u64) -> (r: Option<&Vec<u8>>)
        requires
            self.wf(),
        ensures
            match r {
                Some(v) => self@.contains_key(id) && self@[id] == v@,
                None => !self@.contains_key(id),
            },
    {
        let n = self.entries.len();
        let mut i: usize = 0;
        while i < n
            invariant
                self.wf(),
                n == self.entries@.len(),
                i <= n,
                forall|j: int| 0 <= j < i ==> #[trigger] self.entries@[j].0 != id,
            decreases n - i,
        {
            if self.entries[i].0 == id {
                proof {
                    lemma_register_at(self.entries@, i as int);
                }
                return Some(&self.entries[i].1);
            }
            i = i + 1;
        }
        proof {
            lemma_register_absent(self.entries@, id);
        }
        None
    }

    /// Fills register `id` with `data`, replacing whatever it held.
    pub fn set(&mut self, id: u64, data: &[u8])
        requires
            old(self).wf(),
            data@.len() < u64::MAX,
        ensures
            final(self).wf(),
            final(self)@ == old(self)@.insert(id, data@),
    {
        let ghost s0 = old(self).entries@;
        let n = self.entries.len();
        let mut i: usize = 0;
        while i < n
            invariant
                self.wf(),
                *self == *old(self),
                self.entries@ == s0,
                n == s0.len(),
                i <= n,
                data@.len() < u64::MAX,
                forall|j: int| 0 <= j < i ==> #[trigger] s0[j].0 != id,
            decreases n - i,
        {
            if self.entries[i].0 == id {
                proof {
                    lemma_register_at(s0, i as int);
                }
                let fresh = copy_bytes(data);
                let ghost fv = fresh@;
                let slot = vstd::std_specs::vec::vec_index_mut(&mut self.entries, i);
                slot.1 = fresh;
                proof {
                    lemma_register_updated(s0, self.entries@, i as int, fv);
                    assert forall|j: int| 0 <= j < self.entries@.len()
                        implies (#[trigger] self.entries@[j].1@.len()) < u64::MAX by {
                        if j != i {
                            assert(self.entries@[j] == s0[j]);
                        } else {
                            assert(self.entries@[j].1@ == fv);
                        }
                    }
                }
                return;
            }
            i = i + 1;
        }
        proof {
            lemma_register_absent(s0, id);
        }
        let pair = (id, copy_bytes(data));
        let ghost pv = pair.1@;
        self.entries.push(pair);
        proof {
            lemma_register_pushed(s0, self.entries@, id, pv);
            assert(pv.len() < u64::MAX);
            assert forall|j: int| 0 <= j < self.entries@.len()
                implies (#[trigger] self.entries@[j].1@.len()) < u64::MAX by {
                if j < s0.len() {
                    assert(self.entries@[j] == s0[j]);
                } else {
                    assert(self.entries@[j].1@ == pv);
                }
            }
        }
    }

    /// Empties register `id`, leaving it unpopulated.
    pub fn clear(&mut self, id: u64)
        requires
            old(self).wf(),
        ensures
            final(self).wf(),
            final(self)@ == old(self)@.remove(id),
    {
        let ghost s0 = old(self).entries@;
        let n = self.entries.len();
        let mut i: usize = 0;
        while i < n
            invariant
                self.wf(),
                *self == *old(self),
                self.entries@ == s0,
                n == s0.len(),
                i <= n,
                forall|j: int| 0 <= j < i ==> #[trigger] s0[j].0 != id,
            decreases n - i,
        {
            if self.entries[i].0 == id {
                proof {
                    lemma_register_at(s0, i as int);
                }
                let _ = self.entries.swap_remove(i);
                proof {
                    lemma_register_swap_removed(s0, i as int);
                    assert forall|j: int| 0 <= j < self.entries@.len()
                        implies (#[trigger] self.entries@[j].1@.len()) < u64::MAX by {
                        if j == i {
                            assert(self.entries@[j] == s0[s0.len() - 1]);
                        } else {
                            assert(self.entries@[j] == s0[j]);
                        }
                    }
                }
                return;
            }
            i = i + 1;
        }
        proof {
            lemma_register_absent(s0, id);
            assert(old(self)@.remove(id) =~= old(self)@);
        }
    }
}

} // verus!
