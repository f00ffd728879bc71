use vstd::prelude::*;
use crate::bytes::{bytes_eq, copy_bytes};

verus! {

/// Balance given to an account the first time it is referenced.
pub const INIT_BALANCE: i64 = 1_000_000_000_000_000_000;

/// An account: how many debits it has made and its balance, in fixed-point units.
#[derive(Clone, Copy, Debug, PartialEq, Eq, Structural)]
pub struct Account {
    pub nonce: u64,
    pub balance: i64,
}

/// One stored account under its address.
pub struct AccountEntry {
    pub addr: Vec<u8>,
    pub account: Account,
}

/// The account a lazily created address starts with.
pub open spec fn fresh_account() -> Account {
    Account { nonce: 0, balance: INIT_BALANCE }
}

/// The account that `a` holds in `m`, materialised with the initial balance when absent.
pub open spec fn current(m: Map<Seq<u8>, Account>, a: Seq<u8>) -> Account {
    if m.contains_key(a) {
        m[a]
    } else {
        fresh_account()
    }
}

/// Sum over the entries of (balance - INIT_BALANCE): the net inflow into the
/// stored accounts, counting an absent account as holding the initial balance.
pub open spec fn net_of(s: Seq<AccountEntry>) -> int
    decreases s.len(),
{
    if s.len() == 0 {
        0
    } else {
        net_of(s.drop_last()) + (s.last().account.balance - INIT_BALANCE)
    }
}

proof fn lemma_net_update(s: Seq<AccountEntry>, i: int, e: AccountEntry)
    requires
        0 <= i < s.len(),
    ensures
        net_of(s.update(i, e)) == net_of(s) - s[i].account.balance + e.account.balance,
    decreases s.len(),
{
    if i == s.len() - 1 {
        assert(s.update(i, e).drop_last() =~= s.drop_last());
    } else {
        lemma_net_update(s.drop_last(), i, e);
        assert(s.update(i, e).drop_last() =~= s.drop_last().update(i, e));
    }
}

proof fn lemma_net_push(s: Seq<AccountEntry>, e: AccountEntry)
    ensures
        net_of(s.push(e)) == net_of(s) + e.account.balance - INIT_BALANCE,
{
    assert(s.push(e).drop_last() =~= s);
}

/// A key-value store from addresses to accounts.
pub struct AccountStore {
    entries: Vec<AccountEntry>,
    contents: Ghost<Map<Seq<u8>, Account>>,
}

impl View for AccountStore {
    type V = Map<Seq<u8>, Account>;

    closed spec fn view(&self) -> Map<Seq<u8>, Account> {
        self.contents@
    }
}

impl AccountStore {
    /// The store's internal consistency: one entry per address, matching the view.
    pub closed spec fn wf(&self) -> bool {
        &&& forall|i: int, j: int|
            0 <= i < j < self.entries@.len() ==> self.entries@[i].addr@
                != self.entries@[j].addr@
        &&& forall|i: int|
            0 <= i < self.entries@.len() ==> self.contents@.contains_key(
                #[trigger] self.entries@[i].addr@,
            ) && self.contents@[self.entries@[i].addr@] == self.entries@[i].account
        &&& forall|k: Seq<u8>|
            self.contents@.contains_key(k) ==> exists|i: int|
                0 <= i < self.entries@.len() && #[trigger] self.entries@[i].addr@ == k
    }

    /// Net inflow into the store: the sum of (balance - INIT_BALANCE) over its accounts.
    pub closed spec fn net_total(&self) -> int {
        net_of(self.entries@)
    }

    pub fn new() -> (r: AccountStore)
        ensures
            r.wf(),
            r@ == Map::<Seq<u8>, Account>::empty(),
            r.net_total() == 0,
    {
        AccountStore { entries: Vec::new(), contents: Ghost(Map::empty()) }
    }

    pub fn len(&self) -> (r: usize)
        requires
            self.wf(),
        ensures
            r == self@.len(),
    {
        proof {
            self.lemma_len();
        }
        self.entries.len()
    }

    proof fn lemma_len(&self)
        requires
            self.wf(),
        ensures
            self@.len() == self.entries@.len(),
            self@.dom().finite(),
        decreases self.entries@.len(),
    {
        let keys = Seq::new(self.entries@.len(), |i: int| self.entries@[i].addr@);
        assert(keys.no_duplicates());
        assert(keys.to_set() =~= self@.dom()) by {
            assert forall|k: Seq<u8>| keys.to_set().contains(k) implies self@.dom().contains(k) by {
                let i = choose|i: int| 0 <= i < keys.len() && keys[i] == k;
                assert(self.contents@.contains_key(self.entries@[i].addr@));
            }
            assert forall|k: Seq<u8>| self@.dom().contains(k) implies keys.to_set().contains(k) by {
                let i = choose|i: int| 0 <= i < self.entries@.len() && #[trigger] self.entries@[i].addr@ == k;
                assert(keys[i] == k);
            }
        }
        keys.unique_seq_to_set();
    }

    fn find(&self, addr: &Vec<u8>) -> (r: Option<usize>)
        requires
            self.wf(),
        ensures
            match r {
                Some(i) => i < self.entries@.len() && self.entries@[i as int].addr@ == addr@,
                None => !self@.contains_key(addr@),
            },
    {
        let mut i: usize = 0;
        while i < self.entries.len()
            invariant
                self.wf(),
                i <= self.entries@.len(),
                forall|j: int| 0 <= j < i ==> self.entries@[j].addr@ != addr@,
            decreases self.entries@.len() - i,
        {
            if bytes_eq(&self.entries[i].addr, addr) {
                return Some(i);
            }
            i = i + 1;
        }
        None
    }

    /// The account stored under `addr`, if any.
    pub fn get(&self, addr: &Vec<u8>) -> (r: Option<Account>)
        requires
            self.wf(),
        ensures
            r == (if self@.contains_key(addr@) {
                Some(self@[addr@])
            } else {
                None
            }),
    {
        match self.find(addr) {
            Some(i) => Some(self.entries[i].account),
            None => None,
        }
    }

    /// The account under `addr`, or a fresh one with the initial balance.
    pub fn load(&self, addr: &Vec<u8>) -> (r: Account)
        requires
            self.wf(),
        ensures
            r == current(self@, addr@),
    {
        match self.get(addr) {
            Some(a) => a,
            None => Account { nonce: 0, balance: INIT_BALANCE },
        }
    }

    /// Stores `account` under `addr`, replacing what was there.
    pub fn insert(&mut self, addr: &Vec<u8>, account: Account)
        requires
            old(self).wf(),
        ensures
            final(self).wf(),
            final(self)@ == old(self)@.insert(addr@, account),
            final(self).net_total() == old(self).net_total() + account.balance - current(
                old(self)@,
                addr@,
            ).balance,
    {
        match self.find(addr) {
            Some(i) => {
                let ghost s = self.entries@;
                let ghost k = self.entries@[i as int].addr@;
                let a = copy_bytes(addr);
                let e = AccountEntry { addr: a, account };
                proof {
                    lemma_net_update(s, i as int, e);
                }
                self.entries.set(i, e);
                self.contents = Ghost(self.contents@.insert(addr@, account));
                assert(self.entries@ =~= s.update(i as int, e));
                assert forall|k2: Seq<u8>| self.contents@.contains_key(k2) implies exists|j: int|
                    0 <= j < self.entries@.len() && #[trigger] self.entries@[j].addr@ == k2 by {
                    if k2 != k {
                        let j = choose|j: int| 0 <= j < s.len() && #[trigger] s[j].addr@ == k2;
                        assert(self.entries@[j].addr@ == k2);
                    } else {
                        assert(self.entries@[i as int].addr@ == k2);
                    }
                }
            },
            None => {
                let ghost s = self.entries@;
                let a = copy_bytes(addr);
                let e = AccountEntry { addr: a, account };
                proof {
                    lemma_net_push(s, e);
                }
                self.entries.push(e);
                self.contents = Ghost(self.contents@.insert(addr@, account));
                assert(self.entries@ =~= s.push(e));
                assert forall|k2: Seq<u8>| self.contents@.contains_key(k2) implies exists|j: int|
                    0 <= j < self.entries@.len() && #[trigger] self.entries@[j].addr@ == k2 by {
                    if k2 != addr@ {
                        let j = choose|j: int| 0 <= j < s.len() && #[trigger] s[j].addr@ == k2;
                        assert(self.entries@[j].addr@ == k2);
                    } else {
                        assert(self.entries@[s.len() as int].addr@ == k2);
                    }
                }
            },
        }
    }

    /// The stored addresses, each once.
    pub fn addresses(&self) -> (r: Vec<Vec<u8>>)
        requires
            self.wf(),
        ensures
            r@.len() == self@.len(),
            forall|i: int| 0 <= i < r@.len() ==> self@.contains_key((#[trigger] r@[i])@),
            forall|k: Seq<u8>| self@.contains_key(k) ==> exists|i: int| 0 <= i < r@.len() && (#[trigger] r@[i])@ == k,
            forall|i: int, j: int| 0 <= i < j < r@.len() ==> r@[i]@ != r@[j]@,
    {
        proof {
            self.lemma_len();
        }
        let mut out: Vec<Vec<u8>> = Vec::new();
        let mut i: usize = 0;
        while i < self.entries.len()
            invariant
                self.wf(),
                i <= self.entries@.len(),
                out@.len() == i,
                forall|j: int| 0 <= j < i ==> (#[trigger] out@[j])@ == self.entries@[j].addr@,
            decreases self.entries@.len() - i,
        {
            out.push(copy_bytes(&self.entries[i].addr));
            i = i + 1;
        }
        assert forall|k: Seq<u8>| self@.contains_key(k) implies exists|i: int| 0 <= i < out@.len() && (#[trigger] out@[i])@ == k by {
            let i = choose|i: int| 0 <= i < self.entries@.len() && #[trigger] self.entries@[i].addr@ == k;
            assert(out@[i]@ == k);
        }
        assert forall|i: int| 0 <= i < out@.len() implies self@.contains_key((#[trigger] out@[i])@) by {
            assert(self.contents@.contains_key(self.entries@[i].addr@));
        }
        out
    }

    /// Removes the account under `addr`, returning it.
    pub fn remove(&mut self, addr: &Vec<u8>) -> (r: Option<Account>)
        requires
            old(self).wf(),
        ensures
            final(self).wf(),
            final(self)@ == old(self)@.remove(addr@),
            r == (if old(self)@.contains_key(addr@) {
                Some(old(self)@[addr@])
            } else {
                None
            }),
    {
        match self.find(addr) {
            Some(i) => {
                let ghost s = self.entries@;
                let e = self.entries.remove(i);
                self.contents = Ghost(self.contents@.remove(addr@));
                assert(self.entries@ =~= s.remove(i as int));
                assert forall|j: int| 0 <= j < self.entries@.len() implies self.contents@.contains_key(
                    #[trigger] self.entries@[j].addr@,
                ) && self.contents@[self.entries@[j].addr@] == self.entries@[j].account by {
                    if j < i {
                        assert(self.entries@[j] == s[j]);
                    } else {
                        assert(self.entries@[j] == s[j + 1]);
                    }
                }
                assert forall|k2: Seq<u8>| self.contents@.contains_key(k2) implies exists|j: int|
                    0 <= j < self.entries@.len() && #[trigger] self.entries@[j].addr@ == k2 by {
                    let j = choose|j: int| 0 <= j < s.len() && #[trigger] s[j].addr@ == k2;
                    if j < i {
                        assert(self.entries@[j].addr@ == k2);
                    } else {
                        assert(self.entries@[j - 1].addr@ == k2);
                    }
                }
                Some(e.account)
            },
            None => {
                assert(self.contents@.remove(addr@) =~= self.contents@);
                None
            },
        }
    }
}

/// What the store's operations promise, read back: after `insert(k, v)`,
/// `get(k)` gives `v`; after `insert(k, v)` then `remove(k)`, `get(k)` gives nothing.
pub proof fn lemma_insert_get_remove(m: Map<Seq<u8>, Account>, k: Seq<u8>, v: Account)
    ensures
        m.insert(k, v).contains_key(k),
        m.insert(k, v)[k] == v,
        !m.insert(k, v).remove(k).contains_key(k),
{
}

} // verus!
