use vstd::prelude::*;

use crate::codec::{bytes_eq, copy_bytes};

verus! {

/// The emulated persistent key-value store of the mock host: a list of
/// entries with pairwise-distinct keys, seen abstractly as a map from key
/// bytes to value bytes.
#[derive(Debug)]
pub struct StorageMap {
    entries: Vec<(Vec<u8>, Vec<u8>)>,
}

/// Whether some entry of `s` has key `k`.
pub open spec fn entries_have_key(s: Seq<(Vec<u8>, Vec<u8>)>, k: Seq<u8>) -> bool {
    exists|i: int| 0 <= i < s.len() && #[trigger] s[i].0@ == k
}

/// The index of the entry of `s` with key `k`.
pub open spec fn entry_index_of(s: Seq<(Vec<u8>, Vec<u8>)>, k: Seq<u8>) -> int {
    choose|i: int| 0 <= i < s.len() && #[trigger] s[i].0@ == k
}

/// The map described by an entry list.
pub open spec fn entries_as_map(s: Seq<(Vec<u8>, Vec<u8>)>) -> Map<Seq<u8>, Seq<u8>> {
    Map::new(
        |k: Seq<u8>| entries_have_key(s, k),
        |k: Seq<u8>| s[entry_index_of(s, k)].1@,
    )
}

/// No two entries share a key.
pub open spec fn entries_unique(s: Seq<(Vec<u8>, Vec<u8>)>) -> bool {
    forall|i: int, j: int|
        0 <= i < j < s.len() ==> #[trigger] s[i].0@ != #[trigger] s[j].0@
}

/// Every stored value fits the host's length counter, below the sentinel
/// reserved for "no such register".
pub open spec fn entries_bounded(s: Seq<(Vec<u8>, Vec<u8>)>) -> bool {
    forall|i: int| 0 <= i < s.len() ==> (#[trigger] s[i].1@.len()) < u64::MAX
}

/// With pairwise-distinct keys, the entry holding key `s[i].0@` is entry `i`.
proof fn lemma_entry_at(s: Seq<(Vec<u8>, Vec<u8>)>, i: int)
    requires
        entries_unique(s),
        0 <= i < s.len(),
    ensures
        entries_have_key(s, s[i].0@),
        entry_index_of(s, s[i].0@) == i,
{
    assert(entries_have_key(s, s[i].0@));
    let j = entry_index_of(s, s[i].0@);
    if j < i {
        assert(s[j].0@ != s[i].0@);
        assert(false);
    } else if j > i {
        assert(s[i].0@ != s[j].0@);
        assert(false);
    }
}

/// If no entry of `s` has key `k`, the described map has no key `k`.
proof fn lemma_key_absent(s: Seq<(Vec<u8>, Vec<u8>)>, k: Seq<u8>)
    requires
        forall|j: int| 0 <= j < s.len() ==> #[trigger] s[j].0@ != k,
    ensures
        !entries_as_map(s).contains_key(k),
{
    if entries_have_key(s, k) {
        let j = choose|j: int| 0 <= j < s.len() && #[trigger] s[j].0@ == k;
        assert(s[j].0@ != k);
        assert(false);
    }
}

/// Replacing the value of entry `i` in place turns the described map into
/// an insert at that entry's key.
proof fn lemma_value_updated(
    s0: Seq<(Vec<u8>, Vec<u8>)>,
    s1: Seq<(Vec<u8>, Vec<u8>)>,
    i: int,
    v: Seq<u8>,
)
    requires
        entries_unique(s0),
        0 <= i < s0.len(),
        s1.len() == s0.len(),
        forall|j: int| 0 <= j < s0.len() && j != i ==> s1[j] == s0[j],
        s1[i].0@ == s0[i].0@,
        s1[i].1@ == v,
    ensures
        entries_unique(s1),
        entries_as_map(s1) == entries_as_map(s0).insert(s0[i].0@, v),
{
    let k = s0[i].0@;
    assert forall|a: int| 0 <= a < s1.len() implies #[trigger] s1[a].0@ == s0[a].0@ by {
        if a != i {
            assert(s1[a] == s0[a]);
        }
    }
    assert(entries_unique(s1));
    assert forall|k2: Seq<u8>|
        entries_have_key(s1, k2) == entries_have_key(s0, k2) by {
        if entries_have_key(s1, k2) {
            let j = choose|j: int| 0 <= j < s1.len() && #[trigger] s1[j].0@ == k2;
            assert(s0[j].0@ == k2);
            assert(entries_have_key(s0, k2));
        }
        if entries_have_key(s0, k2) {
            let j = choose|j: int| 0 <= j < s0.len() && #[trigger] s0[j].0@ == k2;
            assert(s1[j].0@ == k2);
            assert(entries_have_key(s1, k2));
        }
    }
    assert forall|k2: Seq<u8>| #[trigger]
        entries_as_map(s1).contains_key(k2) implies entries_as_map(s1)[k2]
        == entries_as_map(s0).insert(k, v)[k2] by {
        let j = entry_index_of(s1, k2);
        assert(0 <= j < s1.len() && s1[j].0@ == k2);
        lemma_entry_at(s0, j);
        if k2 == k {
            lemma_entry_at(s1, i);
            lemma_entry_at(s1, j);
            assert(j == i);
            assert(entries_as_map(s1)[k2] == v);
        } else {
            assert(j != i);
            assert(s1[j] == s0[j]);
            assert(entries_as_map(s1)[k2] == s1[j].1@);
            assert(entries_as_map(s0)[k2] == s0[j].1@);
        }
    }
    assert(entries_as_map(s1) =~= entries_as_map(s0).insert(k, v));
}

/// Appending an entry with a fresh key turns the described map into an
/// insert of that entry.
proof fn lemma_entry_pushed(
    s0: Seq<(Vec<u8>, Vec<u8>)>,
    s1: Seq<(Vec<u8>, Vec<u8>)>,
    k: Seq<u8>,
    v: Seq<u8>,
)
    requires
        entries_unique(s0),
        forall|j: int| 0 <= j < s0.len() ==> #[trigger] s0[j].0@ != k,
        s1.len() == s0.len() + 1,
        forall|j: int| 0 <= j < s0.len() ==> s1[j] == s0[j],
        s1[s0.len() as int].0@ == k,
        s1[s0.len() as int].1@ == v,
    ensures
        entries_unique(s1),
        entries_as_map(s1) == entries_as_map(s0).insert(k, v),
{
    let n = s0.len() as int;
    assert forall|a: int, b: int|
        0 <= a < b < s1.len() implies #[trigger] s1[a].0@ != #[trigger] s1[b].0@ by {
        if b < n {
            assert(s1[a] == s0[a] && s1[b] == s0[b]);
        } else {
            assert(s1[a] == s0[a]);
            assert(s0[a].0@ != k);
        }
    }
    assert forall|k2: Seq<u8>|
        entries_have_key(s1, k2) == (entries_have_key(s0, k2) || k2 == k) by {
        if entries_have_key(s1, k2) {
            let j = choose|j: int| 0 <= j < s1.len() && #[trigger] s1[j].0@ == k2;
            if j < n {
                assert(s0[j].0@ == k2);
                assert(entries_have_key(s0, k2));
            }
        }
        if entries_have_key(s0, k2) {
            let j = choose|j: int| 0 <= j < s0.len() && #[trigger] s0[j].0@ == k2;
            assert(s1[j].0@ == k2);
            assert(entries_have_key(s1, k2));
        }
        if k2 == k {
            assert(s1[n].0@ == k2);
            assert(entries_have_key(s1, k2));
        }
    }
    assert forall|k2: Seq<u8>| #[trigger]
        entries_as_map(s1).contains_key(k2) implies entries_as_map(s1)[k2]
        == entries_as_map(s0).insert(k, v)[k2] by {
        let j = entry_index_of(s1, k2);
        assert(0 <= j < s1.len() && s1[j].0@ == k2);
        if k2 == k {
            lemma_entry_at(s1, n);
            lemma_entry_at(s1, j);
            assert(j == n);
            assert(entries_as_map(s1)[k2] == v);
        } else {
            assert(j != n);
            assert(s1[j] == s0[j]);
            lemma_entry_at(s0, j);
            assert(entries_as_map(s1)[k2] == s1[j].1@);
            assert(entries_as_map(s0)[k2] == s0[j].1@);
        }
    }
    assert(entries_as_map(s1) =~= entries_as_map(s0).insert(k, v));
}

/// Swap-removing entry `i` turns the described map into a removal of that
/// entry's key.
proof fn lemma_entry_swap_removed(s0: Seq<(Vec<u8>, Vec<u8>)>, i: int)
    requires
        entries_unique(s0),
        0 <= i < s0.len(),
    ensures
        entries_unique(s0.update(i, s0.last()).drop_last()),
        entries_as_map(s0.update(i, s0.last()).drop_last())
            == entries_as_map(s0).remove(s0[i].0@),
{
    let k = s0[i].0@;
    let n = s0.len() - 1;
    let s1 = s0.update(i, s0.last()).drop_last();
    assert(s1.len() == n);
    assert forall|j: int| 0 <= j < n implies s1[j] == (if j == i {
        s0[n]
    } else {
        s0[j]
    }) by {}
    assert forall|a: int, b: int|
        0 <= a < b < s1.len() implies #[trigger] s1[a].0@ != #[trigger] s1[b].0@ by {
        if a == i {
            assert(s1[a] == s0[n] && s1[b] == s0[b]);
            assert(s0[b].0@ != s0[n].0@);
        } else if b == i {
            assert(s1[b] == s0[n] && s1[a] == s0[a]);
            assert(s0[a].0@ != s0[n].0@);
        } else {
            assert(s1[a] == s0[a] && s1[b] == s0[b]);
        }
    }
    assert forall|k2: Seq<u8>|
        entries_have_key(s1, k2) == (entries_have_key(s0, k2) && k2 != k) by {
        if entries_have_key(s1, k2) {
            let j = choose|j: int| 0 <= j < s1.len() && #[trigger] s1[j].0@ == k2;
            if j == i {
                assert(s0[n].0@ == k2);
                assert(entries_have_key(s0, k2));
                if k2 == k {
                    if n != i {
                        assert(s0[i].0@ != s0[n].0@);
                    }
                    assert(n == i);
                    assert(false);
                }
            } else {
                assert(s0[j].0@ == k2);
                assert(entries_have_key(s0, k2));
                if k2 == k {
                    lemma_entry_at(s0, j);
                    lemma_entry_at(s0, i);
                    assert(false);
                }
            }
        }
        if entries_have_key(s0, k2) && k2 != k {
            let j = choose|j: int| 0 <= j < s0.len() && #[trigger] s0[j].0@ == k2;
            assert(j != i);
            if j == n {
                assert(i < n);
                assert(s1[i].0@ == k2);
                assert(entries_have_key(s1, k2));
            } else {
                assert(s1[j].0@ == k2);
                assert(entries_have_key(s1, k2));
            }
        }
    }
    assert forall|k2: Seq<u8>| #[trigger]
        entries_as_map(s1).contains_key(k2) implies entries_as_map(s1)[k2]
        == entries_as_map(s0).remove(k)[k2] by {
        let j = entry_index_of(s1, k2);
        assert(0 <= j < s1.len() && s1[j].0@ == k2);
        assert(k2 != k);
        if j == i {
            lemma_entry_at(s0, n);
            assert(s1[j] == s0[n]);
            assert(entries_as_map(s0)[k2] == s0[n].1@);
        } else {
            lemma_entry_at(s0, j);
            assert(s1[j] == s0[j]);
            assert(entries_as_map(s0)[k2] == s0[j].1@);
        }
    }
    assert(entries_as_map(s1) =~= entries_as_map(s0).remove(k));
}

impl View for StorageMap {
    type V = Map<Seq<u8>, Seq<u8>>;

    closed spec fn view(&self) -> Map<Seq<u8>, Seq<u8>> {
        entries_as_map(self.entries@)
    }
}

impl StorageMap {
    /// Distinct keys, and every value below the host's length sentinel;
    /// everything else is visible through the view.
    pub closed spec fn wf(&self) -> bool {
        entries_unique(self.entries@) && entries_bounded(self.entries@)
    }

    /// Every value a well-formed store holds is below the length sentinel.
    pub proof fn lemma_values_bounded(&self, k: Seq<u8>)
        requires
            self.wf(),
            self@.contains_key(k),
        ensures
            self@[k].len() < u64::MAX,
    {
        let j = entry_index_of(self.entries@, k);
    }

    pub fn new() -> (r: Self)
        ensures
            r.wf(),
            r@ == Map::<Seq<u8>, Seq<u8>>::empty(),
    {
        let r = StorageMap { entries: Vec::new() };
        proof {
            assert(r@ =~= Map::<Seq<u8>, Seq<u8>>::empty());
        }
        r
    }

    /// The value stored under `key`, if any.
    pub fn get(&self, key: &[u8]) -> (r: Option<&Vec<u8>>)
        requires
            self.wf(),
        ensures
            match r {
                Some(v) => self@.contains_key(key@) && self@[key@] == v@,
                None => !self@.contains_key(key@),
            },
    {
        let n = self.entries.len();
        let mut i: usize = 0;
        while i < n
            invariant
                self.wf(),
                n == self.entries@.len(),
                i <= n,
                forall|j: int| 0 <= j < i ==> #[trigger] self.entries@[j].0@ != key@,
            decreases n - i,
        {
            if bytes_eq(self.entries[i].0.as_slice(), key) {
                proof {
                    lemma_entry_at(self.entries@, i as int);
                }
                return Some(&self.entries[i].1);
            }
            i = i + 1;
        }
        proof {
            lemma_key_absent(self.entries@, key@);
        }
        None
    }

    /// Unconditional upsert; hands back the value that was replaced, if the
    /// key was already present.
    pub fn insert(&mut self, key: &[u8], value: &[u8]) -> (prev: Option<Vec<u8>>)
        requires
            old(self).wf(),
            value@.len() < u64::MAX,
        ensures
            final(self).wf(),
            final(self)@ == old(self)@.insert(key@, value@),
            match prev {
                Some(p) => old(self)@.contains_key(key@) && p@ == old(self)@[key@],
                None => !old(self)@.contains_key(key@),
            },
    {
        let ghost s0 = old(self).entries@;
        let n = self.entries.len();
        let mut i: usize = 0;
        while i < n
            invariant
                self.wf(),
                *self == *old(self),
                self.entries@ == s0,
                n == s0.len(),
                i <= n,
                value@.len() < u64::MAX,
                forall|j: int| 0 <= j < i ==> #[trigger] s0[j].0@ != key@,
            decreases n - i,
        {
            if bytes_eq(self.entries[i].0.as_slice(), key) {
                proof {
                    lemma_entry_at(s0, i as int);
                }
                let prev = copy_bytes(self.entries[i].1.as_slice());
                let fresh = copy_bytes(value);
                let ghost fv = fresh@;
                let slot = vstd::std_specs::vec::vec_index_mut(&mut self.entries, i);
                slot.1 = fresh;
                proof {
                    lemma_value_updated(s0, self.entries@, i as int, fv);
                    assert forall|j: int| 0 <= j < self.entries@.len()
                        implies (#[trigger] self.entries@[j].1@.len()) < u64::MAX by {
                        if j != i {
                            assert(self.entries@[j] == s0[j]);
                        } else {
                            assert(self.entries@[j].1@ == fv);
                        }
                    }
                }
                return Some(prev);
            }
            i = i + 1;
        }
        proof {
            lemma_key_absent(s0, key@);
        }
        let pair = (copy_bytes(key), copy_bytes(value));
        let ghost pk = pair.0@;
        let ghost pv = pair.1@;
        self.entries.push(pair);
        proof {
            lemma_entry_pushed(s0, self.entries@, pk, pv);
            assert(pv.len() < u64::MAX);
            assert forall|j: int| 0 <= j < self.entries@.len()
                implies (#[trigger] self.entries@[j].1@.len()) < u64::MAX by {
                if j < s0.len() {
                    assert(self.entries@[j] == s0[j]);
                } else {
                    assert(self.entries@[j].1@ == pv);
                }
            }
        }
        None
    }

    /// Deletes the entry under `key` and hands back its value, if the key
    /// was present.
    pub fn remove(&mut self, key: &[u8]) -> (prev: Option<Vec<u8>>)
        requires
            old(self).wf(),
        ensures
            final(self).wf(),
            final(self)@ == old(self)@.remove(key@),
            match prev {
                Some(p) => old(self)@.contains_key(key@) && p@ == old(self)@[key@],
                None => !old(self)@.contains_key(key@),
            },
    {
        let ghost s0 = old(self).entries@;
        let n = self.entries.len();
        let mut i: usize = 0;
        while i < n
            invariant
                self.wf(),
                *self == *old(self),
                self.entries@ == s0,
                n == s0.len(),
                i <= n,
                forall|j: int| 0 <= j < i ==> #[trigger] s0[j].0@ != key@,
            decreases n - i,
        {
            if bytes_eq(self.entries[i].0.as_slice(), key) {
                proof {
                    lemma_entry_at(s0, i as int);
                }
                let pair = self.entries.swap_remove(i);
                proof {
                    lemma_entry_swap_removed(s0, i as int);
                    assert forall|j: int| 0 <= j < self.entries@.len()
                        implies (#[trigger] self.entries@[j].1@.len()) < u64::MAX by {
                        if j == i {
                            assert(self.entries@[j] == s0[s0.len() - 1]);
                        } else {
                            assert(self.entries@[j] == s0[j]);
                        }
                    }
                }
                return Some(pair.1);
            }
            i = i + 1;
        }
        proof {
            lemma_key_absent(s0, key@);
            assert(old(self)@.remove(key@) =~= old(self)@);
        }
        None
    }
}

} // verus!
