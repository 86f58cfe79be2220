use vstd::prelude::*;

use crate::runtime::vm_logic::TestRuntimeVMLogic;

verus! {

/// The set of simulated hosts alive at once, keyed by their identifiers,
/// so that several environments can coexist.
pub struct TestUtilMockEnvManager {
    entries: Vec<(usize, TestRuntimeVMLogic)>,
}

/// Whether some entry of `s` has identifier `id`.
pub open spec fn envs_have_id(s: Seq<(usize, TestRuntimeVMLogic)>, id: usize) -> bool {
    exists|i: int| 0 <= i < s.len() && #[trigger] s[i].0 == id
}

/// The index of the entry of `s` with identifier `id`.
pub open spec fn env_index_of(s: Seq<(usize, TestRuntimeVMLogic)>, id: usize) -> int {
    choose|i: int| 0 <= i < s.len() && #[trigger] s[i].0 == id
}

/// The map described by an environment entry list.
pub open spec fn envs_as_map(
    s: Seq<(usize, TestRuntimeVMLogic)>,
) -> Map<usize, TestRuntimeVMLogic> {
    Map::new(
        |id: usize| envs_have_id(s, id),
        |id: usize| s[env_index_of(s, id)].1,
    )
}

/// No two entries share an identifier.
pub open spec fn envs_unique(s: Seq<(usize, TestRuntimeVMLogic)>) -> bool {
    forall|i: int, j: int|
        0 <= i < j < s.len() ==> #[trigger] s[i].0 != #[trigger] s[j].0
}

/// Every kept host state is well formed.
pub open spec fn envs_wf(s: Seq<(usize, TestRuntimeVMLogic)>) -> bool {
    forall|i: int| 0 <= i < s.len() ==> (#[trigger] s[i].1).wf()
}

/// With pairwise-distinct identifiers, the entry holding identifier
/// `s[i].0` is entry `i`.
proof fn lemma_env_at(s: Seq<(usize, TestRuntimeVMLogic)>, i: int)
    requires
        envs_unique(s),
        0 <= i < s.len(),
    ensures
        envs_have_id(s, s[i].0),
        env_index_of(s, s[i].0) == i,
{
    assert(envs_have_id(s, s[i].0));
    let j = env_index_of(s, s[i].0);
    if j < i {
        assert(s[j].0 != s[i].0);
        assert(false);
    } else if j > i {
        assert(s[i].0 != s[j].0);
        assert(false);
    }
}

/// If no entry of `s` has identifier `id`, the described map has no key
/// `id`.
proof fn lemma_env_absent(s: Seq<(usize, TestRuntimeVMLogic)>, id: usize)
    requires
        forall|j: int| 0 <= j < s.len() ==> #[trigger] s[j].0 != id,
    ensures
        !envs_as_map(s).contains_key(id),
{
    if envs_have_id(s, id) {
        let j = choose|j: int| 0 <= j < s.len() && #[trigger] s[j].0 == id;
        assert(s[j].0 != id);
        assert(false);
    }
}

/// Replacing the host state of entry `i` in place turns the described map
/// into an insert at that entry's identifier.
proof fn lemma_env_updated(
    s0: Seq<(usize, TestRuntimeVMLogic)>,
    s1: Seq<(usize, TestRuntimeVMLogic)>,
    i: int,
    v: TestRuntimeVMLogic,
)
    requires
        envs_unique(s0),
        0 <= i < s0.len(),
        s1.len() == s0.len(),
        forall|j: int| 0 <= j < s0.len() && j != i ==> s1[j] == s0[j],
        s1[i].0 == s0[i].0,
        s1[i].1 == v,
    ensures
        envs_unique(s1),
        envs_as_map(s1) == envs_as_map(s0).insert(s0[i].0, v),
{
    let k = s0[i].0;
    assert forall|a: int| 0 <= a < s1.len() implies #[trigger] s1[a].0 == s0[a].0 by {
        if a != i {
            assert(s1[a] == s0[a]);
        }
    }
    assert(envs_unique(s1));
    assert forall|k2: usize| envs_have_id(s1, k2) == envs_have_id(s0, k2) by {
        if envs_have_id(s1, k2) {
            let j = choose|j: int| 0 <= j < s1.len() && #[trigger] s1[j].0 == k2;
            assert(s0[j].0 == k2);
            assert(envs_have_id(s0, k2));
        }
        if envs_have_id(s0, k2) {
            let j = choose|j: int| 0 <= j < s0.len() && #[trigger] s0[j].0 == k2;
            assert(s1[j].0 == k2);
            assert(envs_have_id(s1, k2));
        }
    }
    assert forall|k2: usize| #[trigger]
        envs_as_map(s1).contains_key(k2) implies envs_as_map(s1)[k2]
        == envs_as_map(s0).insert(k, v)[k2] by {
        let j = env_index_of(s1, k2);
        assert(0 <= j < s1.len() && s1[j].0 == k2);
        lemma_env_at(s0, j);
        if k2 == k {
            lemma_env_at(s1, i);
            lemma_env_at(s1, j);
            assert(j == i);
            assert(envs_as_map(s1)[k2] == v);
        } else {
            assert(j != i);
            assert(s1[j] == s0[j]);
            assert(envs_as_map(s1)[k2] == s1[j].1);
            assert(envs_as_map(s0)[k2] == s0[j].1);
        }
    }
    assert(envs_as_map(s1) =~= envs_as_map(s0).insert(k, v));
}

/// Appending an entry with a fresh identifier turns the described map into
/// an insert of that entry.
proof fn lemma_env_pushed(
    s0: Seq<(usize, TestRuntimeVMLogic)>,
    s1: Seq<(usize, TestRuntimeVMLogic)>,
    k: usize,
    v: TestRuntimeVMLogic,
)
    requires
        envs_unique(s0),
        forall|j: int| 0 <= j < s0.len() ==> #[trigger] s0[j].0 != k,
        s1.len() == s0.len() + 1,
        forall|j: int| 0 <= j < s0.len() ==> s1[j] == s0[j],
        s1[s0.len() as int].0 == k,
        s1[s0.len() as int].1 == v,
    ensures
        envs_unique(s1),
        envs_as_map(s1) == envs_as_map(s0).insert(k, v),
{
    let n = s0.len() as int;
    assert forall|a: int, b: int|
        0 <= a < b < s1.len() implies #[trigger] s1[a].0 != #[trigger] s1[b].0 by {
        if b < n {
            assert(s1[a] == s0[a] && s1[b] == s0[b]);
        } else {
            assert(s1[a] == s0[a]);
            assert(s0[a].0 != k);
        }
    }
    assert forall|k2: usize|
        envs_have_id(s1, k2) == (envs_have_id(s0, k2) || k2 == k) by {
        if envs_have_id(s1, k2) {
            let j = choose|j: int| 0 <= j < s1.len() && #[trigger] s1[j].0 == k2;
            if j < n {
                assert(s0[j].0 == k2);
                assert(envs_have_id(s0, k2));
            }
        }
        if envs_have_id(s0, k2) {
            let j = choose|j: int| 0 <= j < s0.len() && #[trigger] s0[j].0 == k2;
            assert(s1[j].0 == k2);
            assert(envs_have_id(s1, k2));
        }
        if k2 == k {
            assert(s1[n].0 == k2);
            assert(envs_have_id(s1, k2));
        }
    }
    assert forall|k2: usize| #[trigger]
        envs_as_map(s1).contains_key(k2) implies envs_as_map(s1)[k2]
        == envs_as_map(s0).insert(k, v)[k2] by {
        let j = env_index_of(s1, k2);
        assert(0 <= j < s1.len() && s1[j].0 == k2);
        if k2 == k {
            lemma_env_at(s1, n);
            lemma_env_at(s1, j);
            assert(j == n);
            assert(envs_as_map(s1)[k2] == v);
        } else {
            assert(j != n);
            assert(s1[j] == s0[j]);
            lemma_env_at(s0, j);
            assert(envs_as_map(s1)[k2] == s1[j].1);
            assert(envs_as_map(s0)[k2] == s0[j].1);
        }
    }
    assert(envs_as_map(s1) =~= envs_as_map(s0).insert(k, v));
}

/// Swap-removing entry `i` turns the described map into a removal of that
/// entry's identifier.
proof fn lemma_env_swap_removed(s0: Seq<(usize, TestRuntimeVMLogic)>, i: int)
    requires
        envs_unique(s0),
        0 <= i < s0.len(),
    ensures
        envs_unique(s0.update(i, s0.last()).drop_last()),
        envs_as_map(s0.update(i, s0.last()).drop_last()) == envs_as_map(s0).remove(s0[i].0),
{
    let k = s0[i].0;
    let n = s0.len() - 1;
    let s1 = s0.update(i, s0.last()).drop_last();
    assert(s1.len() == n);
    assert forall|a: int, b: int|
        0 <= a < b < s1.len() implies #[trigger] s1[a].0 != #[trigger] s1[b].0 by {
        if a == i {
            assert(s1[a] == s0[n] && s1[b] == s0[b]);
            assert(s0[b].0 != s0[n].0);
        } else if b == i {
            assert(s1[b] == s0[n] && s1[a] == s0[a]);
            assert(s0[a].0 != s0[n].0);
        } else {
            assert(s1[a] == s0[a] && s1[b] == s0[b]);
        }
    }
    assert forall|k2: usize|
        envs_have_id(s1, k2) == (envs_have_id(s0, k2) && k2 != k) by {
        if envs_have_id(s1, k2) {
            let j = choose|j: int| 0 <= j < s1.len() && #[trigger] s1[j].0 == k2;
            if j == i {
                assert(s0[n].0 == k2);
                assert(envs_have_id(s0, k2));
                if k2 == k {
                    if n != i {
                        assert(s0[i].0 != s0[n].0);
                    }
                    assert(false);
                }
            } else {
                assert(s0[j].0 == k2);
                assert(envs_have_id(s0, k2));
                if k2 == k {
                    lemma_env_at(s0, j);
                    lemma_env_at(s0, i);
                    assert(false);
                }
            }
        }
        if envs_have_id(s0, k2) && k2 != k {
            let j = choose|j: int| 0 <= j < s0.len() && #[trigger] s0[j].0 == k2;
            assert(j != i);
            if j == n {
                assert(i < n);
                assert(s1[i].0 == k2);
                assert(envs_have_id(s1, k2));
            } else {
                assert(s1[j].0 == k2);
                assert(envs_have_id(s1, k2));
            }
        }
    }
    assert forall|k2: usize| #[trigger]
        envs_as_map(s1).contains_key(k2) implies envs_as_map(s1)[k2]
        == envs_as_map(s0).remove(k)[k2] by {
        let j = env_index_of(s1, k2);
        assert(0 <= j < s1.len() && s1[j].0 == k2);
        assert(k2 != k);
        if j == i {
            lemma_env_at(s0, n);
            assert(s1[j] == s0[n]);
            assert(envs_as_map(s0)[k2] == s0[n].1);
        } else {
            lemma_env_at(s0, j);
            assert(s1[j] == s0[j]);
            assert(envs_as_map(s0)[k2] == s0[j].1);
        }
    }
    assert(envs_as_map(s1) =~= envs_as_map(s0).remove(k));
}

impl View for TestUtilMockEnvManager {
    type V = Map<usize, TestRuntimeVMLogic>;

    closed spec fn view(&self) -> Map<usize, TestRuntimeVMLogic> {
        envs_as_map(self.entries@)
    }
}

impl TestUtilMockEnvManager {
    /// Distinct identifiers, and every kept host state well formed;
    /// everything else is visible through the view.
    pub closed spec fn wf(&self) -> bool {
        envs_unique(self.entries@) && envs_wf(self.entries@)
    }

    pub fn new() -> (r: Self)
        ensures
            r.wf(),
            r@ == Map::<usize, TestRuntimeVMLogic>::empty(),
    {
        let r = TestUtilMockEnvManager { entries: Vec::new() };
        proof {
            assert(r@ =~= Map::<usize, TestRuntimeVMLogic>::empty());
        }
        r
    }

    /// Keeps `rt_vmlogic` under `test_vmlogic_id`, replacing whatever that
    /// identifier held.
    pub fn update_test_env_rt(
        mgr: &mut TestUtilMockEnvManager,
        test_vmlogic_id: usize,
        rt_vmlogic: TestRuntimeVMLogic,
    )
        requires
            old(mgr).wf(),
            rt_vmlogic.wf(),
        ensures
            final(mgr).wf(),
            final(mgr)@ == old(mgr)@.insert(test_vmlogic_id, rt_vmlogic),
    {
        let ghost s0 = old(mgr).entries@;
        let ghost lv = rt_vmlogic;
        let n = mgr.entries.len();
        let mut i: usize = 0;
        while i < n
            invariant
                mgr.wf(),
                *mgr == *old(mgr),
                mgr.entries@ == s0,
                n == s0.len(),
                i <= n,
                lv == rt_vmlogic,
                lv.wf(),
                forall|j: int| 0 <= j < i ==> #[trigger] s0[j].0 != test_vmlogic_id,
            decreases n - i,
        {
            if mgr.entries[i].0 == test_vmlogic_id {
                proof {
                    lemma_env_at(s0, i as int);
                }
                let slot = vstd::std_specs::vec::vec_index_mut(&mut mgr.entries, i);
                slot.1 = rt_vmlogic;
                proof {
                    lemma_env_updated(s0, mgr.entries@, i as int, lv);
                    assert forall|j: int| 0 <= j < mgr.entries@.len()
                        implies (#[trigger] mgr.entries@[j].1).wf() by {
                        if j != i {
                            assert(mgr.entries@[j] == s0[j]);
                        } else {
                            assert(mgr.entries@[j].1 == lv);
                        }
                    }
                }
                return;
            }
            i = i + 1;
        }
        proof {
            lemma_env_absent(s0, test_vmlogic_id);
        }
        let pair = (test_vmlogic_id, rt_vmlogic);
        mgr.entries.push(pair);
        proof {
            lemma_env_pushed(s0, mgr.entries@, test_vmlogic_id, lv);
            assert forall|j: int| 0 <= j < mgr.entries@.len()
                implies (#[trigger] mgr.entries@[j].1).wf() by {
                if j < s0.len() {
                    assert(mgr.entries@[j] == s0[j]);
                } else {
                    assert(mgr.entries@[j].1 == lv);
                }
            }
        }
    }

    /// The host state kept under `test_vmlogic_id`, if any.
    pub fn get_test_env_rt(
        mgr: &TestUtilMockEnvManager,
        test_vmlogic_id: usize,
    ) -> (r: Option<&TestRuntimeVMLogic>)
        requires
            mgr.wf(),
        ensures
            match r {
                Some(l) => mgr@.contains_key(test_vmlogic_id) && mgr@[test_vmlogic_id] == *l
                    && l.wf(),
                None => !mgr@.contains_key(test_vmlogic_id),
            },
    {
        let n = mgr.entries.len();
        let mut i: usize = 0;
        while i < n
            invariant
                mgr.wf(),
                n == mgr.entries@.len(),
                i <= n,
                forall|j: int| 0 <= j < i ==> #[trigger] mgr.entries@[j].0 != test_vmlogic_id,
            decreases n - i,
        {
            if mgr.entries[i].0 == test_vmlogic_id {
                proof {
                    lemma_env_at(mgr.entries@, i as int);
                }
                return Some(&mgr.entries[i].1);
            }
            i = i + 1;
        }
        proof {
            lemma_env_absent(mgr.entries@, test_vmlogic_id);
        }
        None
    }

    /// Hands out the host state kept under `test_vmlogic_id`, removing it
    /// from the manager until it is put back.
    pub fn take_test_env_rt(
        mgr: &mut TestUtilMockEnvManager,
        test_vmlogic_id: usize,
    ) -> (r: TestRuntimeVMLogic)
        requires
            old(mgr).wf(),
            old(mgr)@.contains_key(test_vmlogic_id),
        ensures
            final(mgr).wf(),
            final(mgr)@ == old(mgr)@.remove(test_vmlogic_id),
            r == old(mgr)@[test_vmlogic_id],
            r.wf(),
    {
        let ghost s0 = old(mgr).entries@;
        let n = mgr.entries.len();
        let mut i: usize = 0;
        while i < n
            invariant
                mgr.wf(),
                *mgr == *old(mgr),
                mgr.entries@ == s0,
                n == s0.len(),
                i <= n,
                forall|j: int| 0 <= j < i ==> #[trigger] s0[j].0 != test_vmlogic_id,
            decreases n - i,
        {
            if mgr.entries[i].0 == test_vmlogic_id {
                proof {
                    lemma_env_at(s0, i as int);
                }
                let pair = mgr.entries.swap_remove(i);
                proof {
                    lemma_env_swap_removed(s0, i as int);
                    assert forall|j: int| 0 <= j < mgr.entries@.len()
                        implies (#[trigger] mgr.entries@[j].1).wf() by {
                        if j == i {
                            assert(mgr.entries@[j] == s0[s0.len() - 1]);
                        } else {
                            assert(mgr.entries@[j] == s0[j]);
                        }
                    }
                }
                return pair.1;
            }
            i = i + 1;
        }
        proof {
            lemma_env_absent(s0, test_vmlogic_id);
        }
        vstd::pervasive::unreached()
    }
}

} // verus!
