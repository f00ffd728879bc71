use vstd::prelude::*;
use crate::account_store::{Account, AccountStore};
use crate::bytes::copy_bytes;
use crate::messages::ShardId;

verus! {

/// Which state store a shard runs with.
#[derive(Clone, Copy, Debug, PartialEq, Eq, Structural)]
pub enum StateStoreType {
    /// Active accounts in memory over the full account set.
    TStore,
    /// One store over the full account set.
    MStore,
}

/// One row of a broker list: an address in `0x`-prefixed hex and how often it trades.
pub struct BrokerItem {
    pub account: String,
    pub freq: u64,
}

/// One measured migration run.
pub struct NewRes {
    pub method: String,
    pub epoch: u64,
    pub total_accs: u64,
    pub active_accs: u64,
    pub out_accs: u64,
    pub load_dur_ms: u128,
    pub total_dur: u128,
    pub mig_data_size_b: usize,
}

/// An account shipped to another shard, with the value it held at the source.
pub struct MigratedAccount {
    pub addr: Vec<u8>,
    pub account: Account,
}

/// The accounts a shard hands over at an epoch boundary, active and dormant
/// ones apart.
pub struct Migration {
    pub source_shard: ShardId,
    pub target_shard: ShardId,
    pub epoch: u64,
    pub active_accs: Vec<MigratedAccount>,
    pub dormant_accs: Vec<MigratedAccount>,
}

impl Migration {
    pub fn new(
        source_shard: ShardId,
        target_shard: ShardId,
        epoch: u64,
        active_accs: Vec<MigratedAccount>,
        dormant_accs: Vec<MigratedAccount>,
    ) -> (r: Migration)
        ensures
            r.source_shard == source_shard,
            r.target_shard == target_shard,
            r.epoch == epoch,
            r.active_accs@ == active_accs@,
            r.dormant_accs@ == dormant_accs@,
    {
        Migration { source_shard, target_shard, epoch, active_accs, dormant_accs }
    }
}

/// `m` with each shipped account stored in turn.
pub open spec fn insert_all(m: Map<Seq<u8>, Account>, s: Seq<MigratedAccount>) -> Map<Seq<u8>, Account>
    decreases s.len(),
{
    if s.len() == 0 {
        m
    } else {
        insert_all(m, s.drop_last()).insert(s.last().addr@, s.last().account)
    }
}

/// The addresses of a list, as a set.
pub open spec fn addr_set(s: Seq<Vec<u8>>) -> Set<Seq<u8>> {
    Set::new(|k: Seq<u8>| exists|i: int| 0 <= i < s.len() && (#[trigger] s[i])@ == k)
}

/// Taking one more address of a list adds it to the prefix's address set.
proof fn lemma_addr_set_step(out: Seq<Vec<u8>>, i: int)
    requires
        0 <= i < out.len(),
    ensures
        addr_set(out.subrange(0, i + 1)) == addr_set(out.subrange(0, i)).insert(out[i]@),
{
    let pre = out.subrange(0, i);
    let post = out.subrange(0, i + 1);
    assert forall|k: Seq<u8>| addr_set(post).contains(k) implies addr_set(pre).insert(out[i]@).contains(k) by {
        let j = choose|j: int| 0 <= j < post.len() && (#[trigger] post[j])@ == k;
        if j < i {
            assert(pre[j]@ == k);
        }
    }
    assert forall|k: Seq<u8>| addr_set(pre).insert(out[i]@).contains(k) implies addr_set(post).contains(k) by {
        if k == out[i]@ {
            assert(post[i]@ == k);
        } else {
            let j = choose|j: int| 0 <= j < pre.len() && (#[trigger] pre[j])@ == k;
            assert(post[j]@ == k);
        }
    }
    assert(addr_set(post) =~= addr_set(pre).insert(out[i]@));
}

/// What a source hands over for a list of outgoing addresses: each shipped
/// account is one of the list and carries the value `before` held for it;
/// every listed address that `before` holds and no earlier list took is
/// shipped; no address is shipped twice.
pub open spec fn ships(
    before: Map<Seq<u8>, Account>,
    out: Seq<Vec<u8>>,
    taken: Set<Seq<u8>>,
    shipped: Seq<MigratedAccount>,
) -> bool {
    &&& forall|j: int|
        0 <= j < shipped.len() ==> before.contains_key((#[trigger] shipped[j]).addr@)
            && before[shipped[j].addr@] == shipped[j].account && addr_set(out).contains(
            shipped[j].addr@,
        ) && !taken.contains(shipped[j].addr@)
    &&& forall|i: int|
        0 <= i < out.len() && before.contains_key((#[trigger] out[i])@) && !taken.contains(
            out[i]@,
        ) ==> exists|j: int| 0 <= j < shipped.len() && (#[trigger] shipped[j]).addr@ == out[i]@
    &&& forall|a: int, b: int| 0 <= a < b < shipped.len() ==> shipped[a].addr@ != shipped[b].addr@
}

proof fn lemma_insert_all_lookup(m: Map<Seq<u8>, Account>, s: Seq<MigratedAccount>, j: int)
    requires
        0 <= j < s.len(),
        forall|a: int, b: int| 0 <= a < b < s.len() ==> s[a].addr@ != s[b].addr@,
    ensures
        insert_all(m, s).contains_key(s[j].addr@),
        insert_all(m, s)[s[j].addr@] == s[j].account,
    decreases s.len(),
{
    if j < s.len() - 1 {
        lemma_insert_all_lookup(m, s.drop_last(), j);
    }
}

/// A migration hands accounts over unchanged: when the target stores the
/// shipped accounts, each of them holds there the value it held at the source
/// before the migration.
pub proof fn lemma_migration_round_trip(
    source_before: Map<Seq<u8>, Account>,
    out: Seq<Vec<u8>>,
    taken: Set<Seq<u8>>,
    shipped: Seq<MigratedAccount>,
    target_before: Map<Seq<u8>, Account>,
)
    requires
        ships(source_before, out, taken, shipped),
    ensures
        forall|j: int|
            0 <= j < shipped.len() ==> insert_all(target_before, shipped).contains_key(
                (#[trigger] shipped[j]).addr@,
            ) && insert_all(target_before, shipped)[shipped[j].addr@] == source_before[shipped[j].addr@],
{
    assert forall|j: int| 0 <= j < shipped.len() implies insert_all(
        target_before,
        shipped,
    ).contains_key((#[trigger] shipped[j]).addr@) && insert_all(target_before, shipped)[shipped[j].addr@]
        == source_before[shipped[j].addr@] by {
        lemma_insert_all_lookup(target_before, shipped, j);
    }
}

/// Stores each shipped account into `store`.
fn store_all(store: &mut AccountStore, s: &Vec<MigratedAccount>)
    requires
        old(store).wf(),
    ensures
        final(store).wf(),
        final(store)@ == insert_all(old(store)@, s@),
{
    let mut i: usize = 0;
    assert(s@.subrange(0, 0) =~= Seq::<MigratedAccount>::empty());
    while i < s.len()
        invariant
            store.wf(),
            i <= s@.len(),
            store@ == insert_all(old(store)@, s@.subrange(0, i as int)),
        decreases s@.len() - i,
    {
        store.insert(&s[i].addr, s[i].account);
        assert(s@.subrange(0, i + 1).drop_last() =~= s@.subrange(0, i as int));
        i = i + 1;
    }
    assert(s@.subrange(0, s@.len() as int) =~= s@);
}

/// The state of a shard in one tier.
pub struct MStore {
    shard_id: ShardId,
    full_t: AccountStore,
}

impl MStore {
    /// The shard this store belongs to.
    pub closed spec fn shard(&self) -> ShardId {
        self.shard_id
    }

    pub fn shard_id(&self) -> (r: ShardId)
        ensures
            r == self.shard(),
    {
        self.shard_id
    }

    pub closed spec fn wf(&self) -> bool {
        self.full_t.wf()
    }

    /// The accounts the shard holds.
    pub closed spec fn contents(&self) -> Map<Seq<u8>, Account> {
        self.full_t@
    }

    pub fn new(shard_id: ShardId) -> (r: MStore)
        ensures
            r.wf(),
            r.shard() == shard_id,
            r.contents() == Map::<Seq<u8>, Account>::empty(),
    {
        MStore { shard_id, full_t: AccountStore::new() }
    }

    pub fn insert(&mut self, addr: &Vec<u8>, account: Account)
        requires
            old(self).wf(),
        ensures
            final(self).wf(),
            final(self).shard() == old(self).shard(),
            final(self).contents() == old(self).contents().insert(addr@, account),
    {
        self.full_t.insert(addr, account);
    }

    pub fn get(&self, addr: &Vec<u8>) -> (r: Option<Account>)
        requires
            self.wf(),
        ensures
            r == (if self.contents().contains_key(addr@) {
                Some(self.contents()[addr@])
            } else {
                None
            }),
    {
        self.full_t.get(addr)
    }

    /// The store that executors run frames against.
    pub fn accounts(&mut self) -> (r: &mut AccountStore)
        requires
            old(self).wf(),
        ensures
            r@ == old(self).contents(),
            r.wf(),
    {
        &mut self.full_t
    }
}

/// Whether `a` is one of the addresses of `list`.
fn contains_addr(list: &Vec<Vec<u8>>, a: &Vec<u8>) -> (r: bool)
    ensures
        r == addr_set(list@).contains(a@),
{
    let mut i: usize = 0;
    while i < list.len()
        invariant
            i <= list@.len(),
            forall|j: int| 0 <= j < i ==> (#[trigger] list@[j])@ != a@,
        decreases list@.len() - i,
    {
        if crate::bytes::bytes_eq(&list[i], a) {
            assert(list@[i as int]@ == a@);
            return true;
        }
        i = i + 1;
    }
    false
}

/// Takes the outgoing accounts out of `store`, returning each with its value,
/// in the list order, skipping addresses the store does not hold and ones
/// already taken.
fn take_accounts(store: &mut AccountStore, out: &Vec<Vec<u8>>, taken: Ghost<Set<Seq<u8>>>) -> (r: Vec<MigratedAccount>)
    requires
        old(store).wf(),
        forall|k: Seq<u8>| taken@.contains(k) ==> !old(store)@.contains_key(k),
    ensures
        final(store).wf(),
        final(store)@ == old(store)@.remove_keys(addr_set(out@)),
        ships(old(store)@, out@, taken@, r@),
{
    let ghost c0 = store@;
    let mut shipped: Vec<MigratedAccount> = Vec::new();
    let mut i: usize = 0;
    assert(c0.remove_keys(addr_set(out@.subrange(0, 0))) =~= c0);
    while i < out.len()
        invariant
            store.wf(),
            c0 == old(store)@,
            forall|k: Seq<u8>| taken@.contains(k) ==> !c0.contains_key(k),
            i <= out@.len(),
            store@ == c0.remove_keys(addr_set(out@.subrange(0, i as int))),
            forall|j: int|
                0 <= j < shipped@.len() ==> c0.contains_key((#[trigger] shipped@[j]).addr@)
                    && c0[shipped@[j].addr@] == shipped@[j].account && addr_set(
                    out@.subrange(0, i as int),
                ).contains(shipped@[j].addr@) && !taken@.contains(shipped@[j].addr@),
            forall|j: int|
                0 <= j < i && c0.contains_key((#[trigger] out@[j])@) && !taken@.contains(out@[j]@)
                    ==> exists|s: int| 0 <= s < shipped@.len() && (#[trigger] shipped@[s]).addr@ == out@[j]@,
            forall|a: int, b: int|
                0 <= a < b < shipped@.len() ==> shipped@[a].addr@ != shipped@[b].addr@,
        decreases out@.len() - i,
    {
        let addr = &out[i];
        let ghost pre = out@.subrange(0, i as int);
        let ghost post = out@.subrange(0, i + 1);
        proof {
            lemma_addr_set_step(out@, i as int);
        }
        let ghost sh0 = shipped@;
        let ghost before_rm = store@;
        match store.remove(addr) {
            Some(a) => {
                shipped.push(MigratedAccount { addr: copy_bytes(addr), account: a });
                proof {
                    assert forall|a1: int, b1: int|
                        0 <= a1 < b1 < shipped@.len() implies shipped@[a1].addr@ != shipped@[b1].addr@ by {
                        if b1 == shipped@.len() - 1 {
                            assert(shipped@[a1] == sh0[a1]);
                            assert(addr_set(pre).contains(sh0[a1].addr@));
                        }
                    }
                }
            },
            None => {},
        }
        proof {
            assert(store@ =~= c0.remove_keys(addr_set(post)));
            assert forall|j: int|
                0 <= j < i + 1 && c0.contains_key((#[trigger] out@[j])@) && !taken@.contains(out@[j]@)
                    implies exists|s: int| 0 <= s < shipped@.len() && (#[trigger] shipped@[s]).addr@ == out@[j]@ by {
                if j < i {
                    let s = choose|s: int| 0 <= s < sh0.len() && (#[trigger] sh0[s]).addr@ == out@[j]@;
                    assert(shipped@[s] == sh0[s]);
                } else {
                    if !addr_set(pre).contains(addr@) {
                        assert(before_rm.contains_key(addr@));
                        assert(shipped@[sh0.len() as int].addr@ == out@[j]@);
                    } else {
                        let j2 = choose|j2: int| 0 <= j2 < pre.len() && (#[trigger] pre[j2])@ == addr@;
                        assert(out@[j2]@ == addr@);
                        let s = choose|s: int| 0 <= s < sh0.len() && (#[trigger] sh0[s]).addr@ == out@[j2]@;
                        assert(shipped@[s] == sh0[s]);
                    }
                }
            }
        }
        i = i + 1;
    }
    assert(out@.subrange(0, out@.len() as int) =~= out@);
    shipped
}

impl MStore {
    /// Hands the outgoing accounts over to `target_shard` at `epoch`: the
    /// active ones and then the dormant ones are taken out, each with its value.
    pub fn migrate_out(
        &mut self,
        out_act_accs: &Vec<Vec<u8>>,
        out_dor_accs: &Vec<Vec<u8>>,
        epoch: u64,
        target_shard: ShardId,
    ) -> (r: Migration)
        requires
            old(self).wf(),
        ensures
            final(self).wf(),
            final(self).shard() == old(self).shard(),
            final(self).contents() == old(self).contents().remove_keys(addr_set(out_act_accs@)).remove_keys(
                addr_set(out_dor_accs@),
            ),
            r.source_shard == old(self).shard(),
            r.target_shard == target_shard,
            r.epoch == epoch,
            ships(old(self).contents(), out_act_accs@, Set::empty(), r.active_accs@),
            ships(old(self).contents(), out_dor_accs@, addr_set(out_act_accs@), r.dormant_accs@),
    {
        let ghost c0 = self.full_t@;
        let active = take_accounts(&mut self.full_t, out_act_accs, Ghost(Set::empty()));
        let ghost c1 = self.full_t@;
        let dormant = take_accounts(&mut self.full_t, out_dor_accs, Ghost(addr_set(out_act_accs@)));
        proof {
            let a = addr_set(out_act_accs@);
            assert forall|j: int| 0 <= j < dormant@.len() implies c0.contains_key((#[trigger] dormant@[j]).addr@)
                && c0[dormant@[j].addr@] == dormant@[j].account by {
                assert(c1.contains_key(dormant@[j].addr@));
            }
            assert forall|i: int|
                0 <= i < out_dor_accs@.len() && c0.contains_key((#[trigger] out_dor_accs@[i])@) && !a.contains(
                    out_dor_accs@[i]@,
                ) implies exists|j: int| 0 <= j < dormant@.len() && (#[trigger] dormant@[j]).addr@ == out_dor_accs@[i]@ by {
                assert(c1.contains_key(out_dor_accs@[i]@));
            }
        }
        Migration::new(self.shard_id, target_shard, epoch, active, dormant)
    }

    /// Takes in a migration: every shipped account is stored.
    pub fn migrate_in(&mut self, m: &Migration)
        requires
            old(self).wf(),
        ensures
            final(self).wf(),
            final(self).shard() == old(self).shard(),
            final(self).contents() == insert_all(insert_all(old(self).contents(), m.active_accs@), m.dormant_accs@),
    {
        store_all(&mut self.full_t, &m.active_accs);
        store_all(&mut self.full_t, &m.dormant_accs);
    }
}

/// The state of a shard in two tiers: the active accounts in memory over the
/// full account set. Reads probe the active tier first; writes go to it.
pub struct TStore {
    shard_id: ShardId,
    act: AccountStore,
    full: AccountStore,
}

impl TStore {
    /// The shard this store belongs to.
    pub closed spec fn shard(&self) -> ShardId {
        self.shard_id
    }

    pub fn shard_id(&self) -> (r: ShardId)
        ensures
            r == self.shard(),
    {
        self.shard_id
    }

    pub closed spec fn wf(&self) -> bool {
        self.act.wf() && self.full.wf()
    }

    pub closed spec fn act_view(&self) -> Map<Seq<u8>, Account> {
        self.act@
    }

    pub closed spec fn full_view(&self) -> Map<Seq<u8>, Account> {
        self.full@
    }

    /// The accounts as readers see them: the active tier over the full one.
    pub open spec fn contents(&self) -> Map<Seq<u8>, Account> {
        self.full_view().union_prefer_right(self.act_view())
    }

    pub fn new(shard_id: ShardId) -> (r: TStore)
        ensures
            r.wf(),
            r.shard() == shard_id,
            r.act_view() == Map::<Seq<u8>, Account>::empty(),
            r.full_view() == Map::<Seq<u8>, Account>::empty(),
    {
        TStore { shard_id, act: AccountStore::new(), full: AccountStore::new() }
    }

    /// Stores an account in the full tier only, as when loading a shard's state.
    pub fn load_full(&mut self, addr: &Vec<u8>, account: Account)
        requires
            old(self).wf(),
        ensures
            final(self).wf(),
            final(self).shard() == old(self).shard(),
            final(self).act_view() == old(self).act_view(),
            final(self).full_view() == old(self).full_view().insert(addr@, account),
    {
        self.full.insert(addr, account);
    }

    /// Writes go to the active tier.
    pub fn insert(&mut self, addr: &Vec<u8>, account: Account)
        requires
            old(self).wf(),
        ensures
            final(self).wf(),
            final(self).shard() == old(self).shard(),
            final(self).act_view() == old(self).act_view().insert(addr@, account),
            final(self).full_view() == old(self).full_view(),
            final(self).contents() == old(self).contents().insert(addr@, account),
    {
        self.act.insert(addr, account);
        assert(self.contents() =~= old(self).contents().insert(addr@, account));
    }

    /// Reads an account: from the active tier, or else from the full tier, in
    /// which case it is promoted into the active tier.
    pub fn get(&mut self, addr: &Vec<u8>) -> (r: Option<Account>)
        requires
            old(self).wf(),
        ensures
            final(self).wf(),
            final(self).shard() == old(self).shard(),
            r == (if old(self).contents().contains_key(addr@) {
                Some(old(self).contents()[addr@])
            } else {
                None
            }),
            final(self).contents() == old(self).contents(),
            final(self).full_view() == old(self).full_view(),
            final(self).act_view() == (if !old(self).act_view().contains_key(addr@)
                && old(self).full_view().contains_key(addr@) {
                old(self).act_view().insert(addr@, old(self).full_view()[addr@])
            } else {
                old(self).act_view()
            }),
    {
        match self.act.get(addr) {
            Some(a) => Some(a),
            None => match self.full.get(addr) {
                Some(a) => {
                    self.act.insert(addr, a);
                    assert(self.contents() =~= old(self).contents());
                    Some(a)
                },
                None => None,
            },
        }
    }

    /// Moves every active account into the full tier, leaving the active tier
    /// empty; readers see no change.
    pub fn flush(&mut self)
        requires
            old(self).wf(),
        ensures
            final(self).wf(),
            final(self).shard() == old(self).shard(),
            final(self).act_view() == Map::<Seq<u8>, Account>::empty(),
            final(self).contents() == old(self).contents(),
    {
        let keys = self.act.addresses();
        let ghost a0 = self.act@;
        let ghost f0 = self.full@;
        let mut i: usize = 0;
        while i < keys.len()
            invariant
                self.act.wf(),
                self.full.wf(),
                self.shard_id == old(self).shard_id,
                self.act@ == a0,
                i <= keys@.len(),
                keys@.len() == a0.len(),
                forall|j: int| 0 <= j < keys@.len() ==> a0.contains_key((#[trigger] keys@[j])@),
                forall|k: Seq<u8>| a0.contains_key(k) ==> exists|j: int| 0 <= j < keys@.len() && (#[trigger] keys@[j])@ == k,
                forall|k: Seq<u8>|
                    #[trigger] self.full@.contains_key(k) <==> (f0.contains_key(k) || exists|j: int|
                        0 <= j < i && (#[trigger] keys@[j])@ == k),
                forall|k: Seq<u8>|
                    #[trigger] self.full@.contains_key(k) ==> self.full@[k] == if (exists|j: int|
                        0 <= j < i && (#[trigger] keys@[j])@ == k) {
                        a0[k]
                    } else {
                        f0[k]
                    },
            decreases keys@.len() - i,
        {
            let a = self.act.get(&keys[i]).unwrap();
            let ghost before = self.full@;
            self.full.insert(&keys[i], a);
            proof {
                assert forall|k: Seq<u8>| #[trigger] self.full@.contains_key(k) <==> (f0.contains_key(k) || exists|j: int|
                        0 <= j < i + 1 && (#[trigger] keys@[j])@ == k) by {
                    if k == keys@[i as int]@ {
                        assert(keys@[i as int]@ == k);
                    }
                }
                assert forall|k: Seq<u8>| #[trigger] self.full@.contains_key(k) implies self.full@[k] == if (exists|j: int|
                        0 <= j < i + 1 && (#[trigger] keys@[j])@ == k) {
                        a0[k]
                    } else {
                        f0[k]
                    } by {
                    if k == keys@[i as int]@ {
                        assert(keys@[i as int]@ == k);
                    } else {
                        if exists|j: int| 0 <= j < i + 1 && (#[trigger] keys@[j])@ == k {
                            let j = choose|j: int| 0 <= j < i + 1 && (#[trigger] keys@[j])@ == k;
                            assert(j < i);
                        }
                    }
                }
            }
            i = i + 1;
        }
        self.act = AccountStore::new();
        proof {
            assert(self.contents() =~= old(self).contents()) by {
                assert forall|k: Seq<u8>| #[trigger] self.contents().contains_key(k) == old(self).contents().contains_key(k) by {
                    if a0.contains_key(k) {
                        let j = choose|j: int| 0 <= j < keys@.len() && (#[trigger] keys@[j])@ == k;
                        assert(keys@[j]@ == k);
                    }
                }
                assert forall|k: Seq<u8>| #[trigger] self.contents().contains_key(k) implies self.contents()[k] == old(self).contents()[k] by {
                    if a0.contains_key(k) {
                        let j = choose|j: int| 0 <= j < keys@.len() && (#[trigger] keys@[j])@ == k;
                        assert(keys@[j]@ == k);
                    }
                }
            }
        }
    }

    /// Starts a new epoch's active tier: of the active accounts, those listed
    /// in `act_accs` stay active in a fresh tier, and the rest, now dormant,
    /// move into the full tier. Readers see no change.
    pub fn rebuild_active(&mut self, act_accs: &Vec<Vec<u8>>)
        requires
            old(self).wf(),
        ensures
            final(self).wf(),
            final(self).shard() == old(self).shard(),
            final(self).act_view() == old(self).act_view().restrict(addr_set(act_accs@)),
            final(self).full_view() == old(self).full_view().union_prefer_right(
                old(self).act_view().remove_keys(addr_set(act_accs@)),
            ),
            final(self).contents() == old(self).contents(),
    {
        let keys = self.act.addresses();
        let ghost a0 = self.act@;
        let ghost f0 = self.full@;
        let ghost keep = addr_set(act_accs@);
        let mut fresh = AccountStore::new();
        let mut i: usize = 0;
        let ghost seen: Set<Seq<u8>> = Set::empty();
        assert(a0.restrict(seen.intersect(keep)) =~= Map::<Seq<u8>, Account>::empty());
        assert(f0.union_prefer_right(a0.restrict(seen.difference(keep))) =~= f0);
        while i < keys.len()
            invariant
                self.act.wf(),
                self.full.wf(),
                fresh.wf(),
                self.shard_id == old(self).shard_id,
                self.act@ == a0,
                a0 == old(self).act_view(),
                f0 == old(self).full_view(),
                keep == addr_set(act_accs@),
                i <= keys@.len(),
                keys@.len() == a0.len(),
                forall|j: int| 0 <= j < keys@.len() ==> a0.contains_key((#[trigger] keys@[j])@),
                forall|k: Seq<u8>| a0.contains_key(k) ==> exists|j: int| 0 <= j < keys@.len() && (#[trigger] keys@[j])@ == k,
                forall|x: int, y: int| 0 <= x < y < keys@.len() ==> keys@[x]@ != keys@[y]@,
                seen == Set::new(|k: Seq<u8>| exists|j: int| 0 <= j < i && (#[trigger] keys@[j])@ == k),
                fresh@ == a0.restrict(seen.intersect(keep)),
                self.full@ == f0.union_prefer_right(a0.restrict(seen.difference(keep))),
            decreases keys@.len() - i,
        {
            let k = &keys[i];
            let a = self.act.get(k).unwrap();
            let ghost next = seen.insert(k@);
            assert(!seen.contains(k@)) by {
                if seen.contains(k@) {
                    let j = choose|j: int| 0 <= j < i && (#[trigger] keys@[j])@ == k@;
                    assert(keys@[j]@ != keys@[i as int]@);
                }
            }
            if contains_addr(act_accs, k) {
                fresh.insert(k, a);
                assert(fresh@ =~= a0.restrict(next.intersect(keep)));
                assert(self.full@ =~= f0.union_prefer_right(a0.restrict(next.difference(keep))));
            } else {
                self.full.insert(k, a);
                assert(fresh@ =~= a0.restrict(next.intersect(keep)));
                assert(self.full@ =~= f0.union_prefer_right(a0.restrict(next.difference(keep))));
            }
            i = i + 1;
            proof {
                assert(next =~= Set::new(|q: Seq<u8>| exists|j: int| 0 <= j < i && (#[trigger] keys@[j])@ == q)) by {
                    assert forall|q: Seq<u8>| next.contains(q) implies exists|j: int| 0 <= j < i && (#[trigger] keys@[j])@ == q by {
                        if q == k@ {
                            assert(keys@[i - 1]@ == q);
                        } else {
                            let j = choose|j: int| 0 <= j < i - 1 && (#[trigger] keys@[j])@ == q;
                            assert(keys@[j]@ == q);
                        }
                    }
                }
                seen = next;
            }
        }
        proof {
            assert(seen =~= a0.dom()) by {
                assert forall|q: Seq<u8>| a0.dom().contains(q) implies seen.contains(q) by {
                    let j = choose|j: int| 0 <= j < keys@.len() && (#[trigger] keys@[j])@ == q;
                    assert(keys@[j]@ == q);
                }
            }
            assert(a0.restrict(seen.intersect(keep)) =~= a0.restrict(keep));
            assert(a0.restrict(seen.difference(keep)) =~= a0.remove_keys(keep));
        }
        self.act = fresh;
        assert(self.contents() =~= old(self).contents());
    }

    /// Takes the outgoing accounts out of both tiers, returning each with the
    /// value readers saw, in the list order, skipping addresses the shard does
    /// not hold and ones already taken.
    fn take_out(&mut self, out: &Vec<Vec<u8>>, taken: Ghost<Set<Seq<u8>>>) -> (r: Vec<MigratedAccount>)
        requires
            old(self).wf(),
            forall|k: Seq<u8>| taken@.contains(k) ==> !old(self).contents().contains_key(k),
        ensures
            final(self).wf(),
            final(self).shard() == old(self).shard(),
            final(self).contents() == old(self).contents().remove_keys(addr_set(out@)),
            final(self).act_view() == old(self).act_view().remove_keys(addr_set(out@)),
            final(self).full_view() == old(self).full_view().remove_keys(addr_set(out@)),
            ships(old(self).contents(), out@, taken@, r@),
    {
        let ghost c0 = self.contents();
        let ghost a0 = self.act@;
        let ghost f0 = self.full@;
        assert(a0.remove_keys(addr_set(out@.subrange(0, 0))) =~= a0);
        assert(f0.remove_keys(addr_set(out@.subrange(0, 0))) =~= f0);
        let mut shipped: Vec<MigratedAccount> = Vec::new();
        let mut i: usize = 0;
        assert(c0.remove_keys(addr_set(out@.subrange(0, 0))) =~= c0);
        while i < out.len()
            invariant
                self.wf(),
                self.shard_id == old(self).shard(),
                c0 == old(self).contents(),
                forall|k: Seq<u8>| taken@.contains(k) ==> !c0.contains_key(k),
                i <= out@.len(),
                self.contents() == c0.remove_keys(addr_set(out@.subrange(0, i as int))),
                self.act@ == a0.remove_keys(addr_set(out@.subrange(0, i as int))),
                self.full@ == f0.remove_keys(addr_set(out@.subrange(0, i as int))),
                a0 == old(self).act_view(),
                f0 == old(self).full_view(),
                forall|j: int|
                    0 <= j < shipped@.len() ==> c0.contains_key((#[trigger] shipped@[j]).addr@)
                        && c0[shipped@[j].addr@] == shipped@[j].account && addr_set(
                        out@.subrange(0, i as int),
                    ).contains(shipped@[j].addr@) && !taken@.contains(shipped@[j].addr@),
                forall|j: int|
                    0 <= j < i && c0.contains_key((#[trigger] out@[j])@) && !taken@.contains(out@[j]@)
                        ==> exists|s: int| 0 <= s < shipped@.len() && (#[trigger] shipped@[s]).addr@ == out@[j]@,
                forall|a: int, b: int|
                    0 <= a < b < shipped@.len() ==> shipped@[a].addr@ != shipped@[b].addr@,
            decreases out@.len() - i,
        {
            let addr = &out[i];
            let ghost pre = out@.subrange(0, i as int);
            let ghost post = out@.subrange(0, i + 1);
            proof {
                lemma_addr_set_step(out@, i as int);
            }
            let ghost sh0 = shipped@;
            let value = match self.act.get(addr) {
                Some(a) => Some(a),
                None => self.full.get(addr),
            };
            assert(value == if self.contents().contains_key(addr@) {
                Some(self.contents()[addr@])
            } else {
                None::<Account>
            });
            let ghost before_rm = self.contents();
            match value {
                Some(a) => {
                    shipped.push(MigratedAccount { addr: copy_bytes(addr), account: a });
                    proof {
                        assert forall|a1: int, b1: int|
                            0 <= a1 < b1 < shipped@.len() implies shipped@[a1].addr@ != shipped@[b1].addr@ by {
                            if b1 == shipped@.len() - 1 {
                                assert(shipped@[a1] == sh0[a1]);
                                assert(addr_set(pre).contains(sh0[a1].addr@));
                            }
                        }
                    }
                },
                None => {},
            }
            let ghost act_rm = self.act@;
            let ghost full_rm = self.full@;
            let _ = self.act.remove(addr);
            let _ = self.full.remove(addr);
            proof {
                assert(self.act@ =~= a0.remove_keys(addr_set(post)));
                assert(self.full@ =~= f0.remove_keys(addr_set(post)));
                assert(self.contents() =~= before_rm.remove(addr@));
                assert(self.contents() =~= c0.remove_keys(addr_set(post)));
                assert forall|j: int|
                    0 <= j < i + 1 && c0.contains_key((#[trigger] out@[j])@) && !taken@.contains(out@[j]@)
                        implies exists|s: int| 0 <= s < shipped@.len() && (#[trigger] shipped@[s]).addr@ == out@[j]@ by {
                    if j < i {
                        let s = choose|s: int| 0 <= s < sh0.len() && (#[trigger] sh0[s]).addr@ == out@[j]@;
                        assert(shipped@[s] == sh0[s]);
                    } else {
                        if !addr_set(pre).contains(addr@) {
                            assert(shipped@[sh0.len() as int].addr@ == out@[j]@);
                        } else {
                            let j2 = choose|j2: int| 0 <= j2 < pre.len() && (#[trigger] pre[j2])@ == addr@;
                            assert(out@[j2]@ == addr@);
                            let s = choose|s: int| 0 <= s < sh0.len() && (#[trigger] sh0[s]).addr@ == out@[j2]@;
                            assert(shipped@[s] == sh0[s]);
                        }
                    }
                }
            }
            i = i + 1;
        }
        assert(out@.subrange(0, out@.len() as int) =~= out@);
        shipped
    }

    /// Hands the outgoing accounts over to `target_shard` at `epoch`: the
    /// active ones and then the dormant ones are taken out of both tiers, each
    /// with the value readers saw before.
    pub fn migrate_out(
        &mut self,
        out_act_accs: &Vec<Vec<u8>>,
        out_dor_accs: &Vec<Vec<u8>>,
        epoch: u64,
        target_shard: ShardId,
    ) -> (r: Migration)
        requires
            old(self).wf(),
        ensures
            final(self).wf(),
            final(self).shard() == old(self).shard(),
            final(self).contents() == old(self).contents().remove_keys(addr_set(out_act_accs@)).remove_keys(
                addr_set(out_dor_accs@),
            ),
            final(self).act_view() == old(self).act_view().remove_keys(addr_set(out_act_accs@)).remove_keys(
                addr_set(out_dor_accs@),
            ),
            final(self).full_view() == old(self).full_view().remove_keys(addr_set(out_act_accs@)).remove_keys(
                addr_set(out_dor_accs@),
            ),
            r.source_shard == old(self).shard(),
            r.target_shard == target_shard,
            r.epoch == epoch,
            ships(old(self).contents(), out_act_accs@, Set::empty(), r.active_accs@),
            ships(old(self).contents(), out_dor_accs@, addr_set(out_act_accs@), r.dormant_accs@),
    {
        let ghost c0 = self.contents();
        let active = self.take_out(out_act_accs, Ghost(Set::empty()));
        let ghost c1 = self.contents();
        let dormant = self.take_out(out_dor_accs, Ghost(addr_set(out_act_accs@)));
        proof {
            let a = addr_set(out_act_accs@);
            assert forall|j: int| 0 <= j < dormant@.len() implies c0.contains_key((#[trigger] dormant@[j]).addr@)
                && c0[dormant@[j].addr@] == dormant@[j].account by {
                assert(c1.contains_key(dormant@[j].addr@));
            }
            assert forall|i: int|
                0 <= i < out_dor_accs@.len() && c0.contains_key((#[trigger] out_dor_accs@[i])@) && !a.contains(
                    out_dor_accs@[i]@,
                ) implies exists|j: int| 0 <= j < dormant@.len() && (#[trigger] dormant@[j]).addr@ == out_dor_accs@[i]@ by {
                assert(c1.contains_key(out_dor_accs@[i]@));
            }
        }
        Migration::new(self.shard_id, target_shard, epoch, active, dormant)
    }

    /// Takes in a migration: shipped active accounts go to the active tier,
    /// dormant ones to the full tier.
    pub fn migrate_in(&mut self, m: &Migration)
        requires
            old(self).wf(),
        ensures
            final(self).wf(),
            final(self).shard() == old(self).shard(),
            final(self).act_view() == insert_all(old(self).act_view(), m.active_accs@),
            final(self).full_view() == insert_all(old(self).full_view(), m.dormant_accs@),
    {
        store_all(&mut self.act, &m.active_accs);
        store_all(&mut self.full, &m.dormant_accs);
    }
}

} // verus!
