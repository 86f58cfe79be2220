use vstd::prelude::*;

use crate::types::primitives::{Address, Balance, Nonce};

verus! {

/// Whether an account belongs to the system or to a user.
#[derive(Debug, Clone, Copy, PartialEq, Eq, Structural)]
pub enum AccountType {
    System,
    User,
}

impl AccountType {
    /// The printable name of the account kind.
    pub fn as_str(&self) -> (r: &'static str)
        ensures
            match self {
                AccountType::System => r@ == "System"@,
                AccountType::User => r@ == "User"@,
            },
    {
        match *self {
            AccountType::System => "System",
            AccountType::User => "User",
        }
    }
}

/// One ledger account of the mock chain.
#[derive(Debug, Clone, Copy)]
pub struct Account {
    pub address: Address,
    pub balance: Balance,
    pub nonce: Nonce,
    pub account_type: AccountType,
}

impl Account {
    /// A fresh user account with an empty balance.
    pub fn new(address: Address) -> (r: Account)
        ensures
            r.address == address,
            r.balance == 0,
            r.nonce == 0,
            r.account_type == AccountType::User,
    {
        Account { address, balance: 0, nonce: 0, account_type: AccountType::User }
    }

    /// A fresh system account with an empty balance.
    pub fn new_system(address: Address) -> (r: Account)
        ensures
            r.address == address,
            r.balance == 0,
            r.nonce == 0,
            r.account_type == AccountType::System,
    {
        Account { address, balance: 0, nonce: 0, account_type: AccountType::System }
    }
}

/// The ledger state of the mock chain: accounts keyed by their address
/// bytes, with pairwise-distinct keys.
#[derive(Debug)]
pub struct AccountMap {
    entries: Vec<(Address, Account)>,
}

/// Whether some entry of `s` has address `k`.
pub open spec fn accounts_have_key(s: Seq<(Address, Account)>, k: Seq<u8>) -> bool {
    exists|i: int| 0 <= i < s.len() && #[trigger] s[i].0@ == k
}

/// The index of the entry of `s` with address `k`.
pub open spec fn account_index_of(s: Seq<(Address, Account)>, k: Seq<u8>) -> int {
    choose|i: int| 0 <= i < s.len() && #[trigger] s[i].0@ == k
}

/// The map described by an account entry list.
pub open spec fn accounts_as_map(s: Seq<(Address, Account)>) -> Map<Seq<u8>, Account> {
    Map::new(
        |k: Seq<u8>| accounts_have_key(s, k),
        |k: Seq<u8>| s[account_index_of(s, k)].1,
    )
}

/// No two entries share an address.
pub open spec fn accounts_unique(s: Seq<(Address, Account)>) -> bool {
    forall|i: int, j: int|
        0 <= i < j < s.len() ==> #[trigger] s[i].0@ != #[trigger] s[j].0@
}

/// With pairwise-distinct addresses, the entry holding address `s[i].0@`
/// is entry `i`.
proof fn lemma_account_at(s: Seq<(Address, Account)>, i: int)
    requires
        accounts_unique(s),
        0 <= i < s.len(),
    ensures
        accounts_have_key(s, s[i].0@),
        account_index_of(s, s[i].0@) == i,
{
    assert(accounts_have_key(s, s[i].0@));
    let j = account_index_of(s, s[i].0@);
    if j < i {
        assert(s[j].0@ != s[i].0@);
        assert(false);
    } else if j > i {
        assert(s[i].0@ != s[j].0@);
        assert(false);
    }
}

/// If no entry of `s` has address `k`, the described map has no key `k`.
proof fn lemma_account_absent(s: Seq<(Address, Account)>, k: Seq<u8>)
    requires
        forall|j: int| 0 <= j < s.len() ==> #[trigger] s[j].0@ != k,
    ensures
        !accounts_as_map(s).contains_key(k),
{
    if accounts_have_key(s, k) {
        let j = choose|j: int| 0 <= j < s.len() && #[trigger] s[j].0@ == k;
        assert(s[j].0@ != k);
        assert(false);
    }
}

/// Replacing the account of entry `i` in place turns the described map
/// into an insert at that entry's address.
proof fn lemma_account_updated(
    s0: Seq<(Address, Account)>,
    s1: Seq<(Address, Account)>,
    i: int,
    v: Account,
)
    requires
        accounts_unique(s0),
        0 <= i < s0.len(),
        s1.len() == s0.len(),
        forall|j: int| 0 <= j < s0.len() && j != i ==> s1[j] == s0[j],
        s1[i].0@ == s0[i].0@,
        s1[i].1 == v,
    ensures
        accounts_unique(s1),
        accounts_as_map(s1) == accounts_as_map(s0).insert(s0[i].0@, v),
{
    let k = s0[i].0@;
    assert forall|a: int| 0 <= a < s1.len() implies #[trigger] s1[a].0@ == s0[a].0@ by {
        if a != i {
            assert(s1[a] == s0[a]);
        }
    }
    assert(accounts_unique(s1));
    assert forall|k2: Seq<u8>|
        accounts_have_key(s1, k2) == accounts_have_key(s0, k2) by {
        if accounts_have_key(s1, k2) {
            let j = choose|j: int| 0 <= j < s1.len() && #[trigger] s1[j].0@ == k2;
            assert(s0[j].0@ == k2);
            assert(accounts_have_key(s0, k2));
        }
        if accounts_have_key(s0, k2) {
            let j = choose|j: int| 0 <= j < s0.len() && #[trigger] s0[j].0@ == k2;
            assert(s1[j].0@ == k2);
            assert(accounts_have_key(s1, k2));
        }
    }
    assert forall|k2: Seq<u8>| #[trigger]
        accounts_as_map(s1).contains_key(k2) implies accounts_as_map(s1)[k2]
        == accounts_as_map(s0).insert(k, v)[k2] by {
        let j = account_index_of(s1, k2);
        assert(0 <= j < s1.len() && s1[j].0@ == k2);
        lemma_account_at(s0, j);
        if k2 == k {
            lemma_account_at(s1, i);
            lemma_account_at(s1, j);
            assert(j == i);
            assert(accounts_as_map(s1)[k2] == v);
        } else {
            assert(j != i);
            assert(s1[j] == s0[j]);
            assert(accounts_as_map(s1)[k2] == s1[j].1);
            assert(accounts_as_map(s0)[k2] == s0[j].1);
        }
    }
    assert(accounts_as_map(s1) =~= accounts_as_map(s0).insert(k, v));
}

/// Appending an entry with a fresh address turns the described map into an
/// insert of that entry.
proof fn lemma_account_pushed(
    s0: Seq<(Address, Account)>,
    s1: Seq<(Address, Account)>,
    k: Seq<u8>,
    v: Account,
)
    requires
        accounts_unique(s0),
        forall|j: int| 0 <= j < s0.len() ==> #[trigger] s0[j].0@ != k,
        s1.len() == s0.len() + 1,
        forall|j: int| 0 <= j < s0.len() ==> s1[j] == s0[j],
        s1[s0.len() as int].0@ == k,
        s1[s0.len() as int].1 == v,
    ensures
        accounts_unique(s1),
        accounts_as_map(s1) == accounts_as_map(s0).insert(k, v),
{
    let n = s0.len() as int;
    assert forall|a: int, b: int|
        0 <= a < b < s1.len() implies #[trigger] s1[a].0@ != #[trigger] s1[b].0@ by {
        if b < n {
            assert(s1[a] == s0[a] && s1[b] == s0[b]);
        } else {
            assert(s1[a] == s0[a]);
            assert(s0[a].0@ != k);
        }
    }
    assert forall|k2: Seq<u8>|
        accounts_have_key(s1, k2) == (accounts_have_key(s0, k2) || k2 == k) by {
        if accounts_have_key(s1, k2) {
            let j = choose|j: int| 0 <= j < s1.len() && #[trigger] s1[j].0@ == k2;
            if j < n {
                assert(s0[j].0@ == k2);
                assert(accounts_have_key(s0, k2));
            }
        }
        if accounts_have_key(s0, k2) {
            let j = choose|j: int| 0 <= j < s0.len() && #[trigger] s0[j].0@ == k2;
            assert(s1[j].0@ == k2);
            assert(accounts_have_key(s1, k2));
        }
        if k2 == k {
            assert(s1[n].0@ == k2);
            assert(accounts_have_key(s1, k2));
        }
    }
    assert forall|k2: Seq<u8>| #[trigger]
        accounts_as_map(s1).contains_key(k2) implies accounts_as_map(s1)[k2]
        == accounts_as_map(s0).insert(k, v)[k2] by {
        let j = account_index_of(s1, k2);
        assert(0 <= j < s1.len() && s1[j].0@ == k2);
        if k2 == k {
            lemma_account_at(s1, n);
            lemma_account_at(s1, j);
            assert(j == n);
            assert(accounts_as_map(s1)[k2] == v);
        } else {
            assert(j != n);
            assert(s1[j] == s0[j]);
            lemma_account_at(s0, j);
            assert(accounts_as_map(s1)[k2] == s1[j].1);
            assert(accounts_as_map(s0)[k2] == s0[j].1);
        }
    }
    assert(accounts_as_map(s1) =~= accounts_as_map(s0).insert(k, v));
}

impl View for AccountMap {
    type V = Map<Seq<u8>, Account>;

    closed spec fn view(&self) -> Map<Seq<u8>, Account> {
        accounts_as_map(self.entries@)
    }
}

impl AccountMap {
    /// Distinct addresses; everything else is visible through the view.
    pub closed spec fn wf(&self) -> bool {
        accounts_unique(self.entries@)
    }

    pub fn new() -> (r: Self)
        ensures
            r.wf(),
            r@ == Map::<Seq<u8>, Account>::empty(),
    {
        let r = AccountMap { entries: Vec::new() };
        proof {
            assert(r@ =~= Map::<Seq<u8>, Account>::empty());
        }
        r
    }

    /// Whether an account exists at `address`.
    pub fn contains_key(&self, address: &Address) -> (r: bool)
        requires
            self.wf(),
        ensures
            r == self@.contains_key(address@),
    {
        match self.get(address) {
            Some(_) => true,
            None => false,
        }
    }

    /// The account at `address`, if one exists.
    pub fn get(&self, address: &Address) -> (r: Option<&Account>)
        requires
            self.wf(),
        ensures
            match r {
                Some(a) => self@.contains_key(address@) && self@[address@] == *a,
                None => !self@.contains_key(address@),
            },
    {
        let n = self.entries.len();
        let mut i: usize = 0;
        while i < n
            invariant
                self.wf(),
                n == self.entries@.len(),
                i <= n,
                forall|j: int| 0 <= j < i ==> #[trigger] self.entries@[j].0@ != address@,
            decreases n - i,
        {
            if address_eq(&self.entries[i].0, address) {
                proof {
                    lemma_account_at(self.entries@, i as int);
                }
                return Some(&self.entries[i].1);
            }
            i = i + 1;
        }
        proof {
            lemma_account_absent(self.entries@, address@);
        }
        None
    }

    /// Unconditional upsert of the account at `address`.
    pub fn insert(&mut self, address: Address, account: Account)
        requires
            old(self).wf(),
        ensures
            final(self).wf(),
            final(self)@ == old(self)@.insert(address@, account),
    {
        let ghost s0 = old(self).entries@;
        let n = self.entries.len();
        let mut i: usize = 0;
        while i < n
            invariant
                self.wf(),
                *self == *old(self),
                self.entries@ == s0,
                n == s0.len(),
                i <= n,
                forall|j: int| 0 <= j < i ==> #[trigger] s0[j].0@ != address@,
            decreases n - i,
        {
            if address_eq(&self.entries[i].0, &address) {
                proof {
                    lemma_account_at(s0, i as int);
                }
                let ghost av = account;
                let slot = vstd::std_specs::vec::vec_index_mut(&mut self.entries, i);
                slot.1 = account;
                proof {
                    lemma_account_updated(s0, self.entries@, i as int, av);
                    assert(old(self)@.insert(s0[i as int].0@, av)
                        =~= old(self)@.insert(address@, av));
                }
                return;
            }
            i = i + 1;
        }
        proof {
            lemma_account_absent(s0, address@);
        }
        let ghost av = account;
        let pair = (address, account);
        self.entries.push(pair);
        proof {
            lemma_account_pushed(s0, self.entries@, address@, av);
        }
    }
}

/// Byte-wise equality of two addresses.
pub fn address_eq(a: &Address, b: &Address) -> (r: bool)
    ensures
        r == (a@ == b@),
{
    let av = a.to_vec();
    let bv = b.to_vec();
    crate::codec::bytes_eq(av.as_slice(), bv.as_slice())
}

} // verus!
