use vstd::prelude::*;
use crate::messages::ShardId;

verus! {

/// Where a cross-shard message is in its life at this node.
#[derive(Clone, Copy, Debug, PartialEq, Eq, Structural)]
pub enum CSMsgStatus {
    Validating,
    Validated,
    Appended,
    Executed,
}

/// Who appended a message into this shard's DAG.
#[derive(Clone, Copy, Debug, PartialEq, Eq, Structural)]
pub enum AppendedType {
    /// This node packed it into its own batch.
    Local,
    /// It arrived in a batch of another node.
    Remote,
}

/// Identity of a cross-shard message: the shard it came from and its sequence there.
#[derive(Clone, Copy, Debug, PartialEq, Eq, Structural)]
pub struct CSMsgId {
    pub source_shard: ShardId,
    pub sequence: u64,
}

/// A partial threshold signature, as bytes.
pub type Signature = Vec<u8>;

/// What the book holds for one message.
pub struct MsgState {
    pub status: CSMsgStatus,
    pub sigs: Seq<Seq<u8>>,
    pub waiters: Seq<u64>,
}

struct MsgRecord {
    id: CSMsgId,
    status: CSMsgStatus,
    sigs: Vec<Signature>,
    waiters: Vec<u64>,
}

/// The bytes of each signature.
pub open spec fn sig_views(s: Seq<Signature>) -> Seq<Seq<u8>> {
    s.map_values(|v: Signature| v@)
}

spec fn state_of(r: MsgRecord) -> MsgState {
    MsgState { status: r.status, sigs: sig_views(r.sigs@), waiters: r.waiters@ }
}

/// The status of `id` in `m`, absent when the message was never seen.
pub open spec fn status_in(m: Map<CSMsgId, MsgState>, id: CSMsgId) -> Option<CSMsgStatus> {
    if m.contains_key(id) {
        Some(m[id].status)
    } else {
        None
    }
}

/// A message may run in the executor unless it already ran.
pub open spec fn may_execute(m: Map<CSMsgId, MsgState>, id: CSMsgId) -> bool {
    status_in(m, id) != Some(CSMsgStatus::Executed)
}

/// Every message that was executed in `a` is still executed in `b`.
pub open spec fn executed_kept(a: Map<CSMsgId, MsgState>, b: Map<CSMsgId, MsgState>) -> bool {
    forall|id: CSMsgId|
        #[trigger] status_in(a, id) == Some(CSMsgStatus::Executed) ==> status_in(b, id) == Some(
            CSMsgStatus::Executed,
        )
}

/// `m` with `id` marked executed, keeping what it held for `id` otherwise.
pub open spec fn mark_executed(m: Map<CSMsgId, MsgState>, id: CSMsgId) -> Map<CSMsgId, MsgState> {
    m.insert(
        id,
        MsgState {
            status: CSMsgStatus::Executed,
            sigs: if m.contains_key(id) {
                m[id].sigs
            } else {
                Seq::empty()
            },
            waiters: if m.contains_key(id) {
                m[id].waiters
            } else {
                Seq::empty()
            },
        },
    )
}

/// Whether `sigs` already holds `sig`.
fn holds_sig(sigs: &Vec<Signature>, sig: &Signature) -> (r: bool)
    ensures
        r == sig_views(sigs@).contains(sig@),
{
    let mut i: usize = 0;
    while i < sigs.len()
        invariant
            i <= sigs@.len(),
            forall|j: int| 0 <= j < i ==> sigs@[j]@ != sig@,
        decreases sigs@.len() - i,
    {
        if crate::bytes::bytes_eq(&sigs[i], sig) {
            assert(sig_views(sigs@)[i as int] == sig@);
            return true;
        }
        i = i + 1;
    }
    assert(!sig_views(sigs@).contains(sig@)) by {
        if sig_views(sigs@).contains(sig@) {
            let j = choose|j: int| 0 <= j < sig_views(sigs@).len() && sig_views(sigs@)[j] == sig@;
            assert(sigs@[j]@ == sig@);
        }
    }
    false
}

/// The per-message status machine and signature aggregator of one node.
pub struct CSMsgStore {
    records: Vec<MsgRecord>,
    vote_threshold: usize,
    contents: Ghost<Map<CSMsgId, MsgState>>,
}

impl View for CSMsgStore {
    type V = Map<CSMsgId, MsgState>;

    closed spec fn view(&self) -> Map<CSMsgId, MsgState> {
        self.contents@
    }
}

impl CSMsgStore {
    pub closed spec fn wf(&self) -> bool {
        &&& forall|i: int, j: int|
            0 <= i < j < self.records@.len() ==> self.records@[i].id != self.records@[j].id
        &&& forall|i: int|
            0 <= i < self.records@.len() ==> self.contents@.contains_key(
                #[trigger] self.records@[i].id,
            ) && self.contents@[self.records@[i].id] == state_of(self.records@[i])
        &&& forall|k: CSMsgId|
            self.contents@.contains_key(k) ==> exists|i: int|
                0 <= i < self.records@.len() && #[trigger] self.records@[i].id == k
    }

    /// How many partial signatures make a quorum.
    pub closed spec fn threshold(&self) -> usize {
        self.vote_threshold
    }

    pub fn new(vote_threshold: usize) -> (r: CSMsgStore)
        ensures
            r.wf(),
            r@ == Map::<CSMsgId, MsgState>::empty(),
            r.threshold() == vote_threshold,
    {
        CSMsgStore { records: Vec::new(), vote_threshold, contents: Ghost(Map::empty()) }
    }

    fn find(&self, id: CSMsgId) -> (r: Option<usize>)
        requires
            self.wf(),
        ensures
            match r {
                Some(i) => i < self.records@.len() && self.records@[i as int].id == id,
                None => !self@.contains_key(id),
            },
    {
        let mut i: usize = 0;
        while i < self.records.len()
            invariant
                self.wf(),
                i <= self.records@.len(),
                forall|j: int| 0 <= j < i ==> self.records@[j].id != id,
            decreases self.records@.len() - i,
        {
            if self.records[i].id == id {
                return Some(i);
            }
            i = i + 1;
        }
        None
    }

    fn take(&mut self, i: usize) -> (r: MsgRecord)
        requires
            old(self).wf(),
            i < old(self).records@.len(),
        ensures
            final(self).wf(),
            final(self).vote_threshold == old(self).vote_threshold,
            r.id == old(self).records@[i as int].id,
            old(self)@.contains_key(r.id),
            old(self)@[r.id] == state_of(r),
            final(self)@ == old(self)@.remove(r.id),
    {
        let ghost s = self.records@;
        let r = self.records.remove(i);
        self.contents = Ghost(self.contents@.remove(r.id));
        assert(self.records@ =~= s.remove(i as int));
        assert forall|j: int| 0 <= j < self.records@.len() implies self.contents@.contains_key(
            #[trigger] self.records@[j].id,
        ) && self.contents@[self.records@[j].id] == state_of(self.records@[j]) by {
            if j < i {
                assert(self.records@[j] == s[j]);
            } else {
                assert(self.records@[j] == s[j + 1]);
            }
        }
        assert forall|k: CSMsgId| self.contents@.contains_key(k) implies exists|j: int|
            0 <= j < self.records@.len() && #[trigger] self.records@[j].id == k by {
            let j = choose|j: int| 0 <= j < s.len() && #[trigger] s[j].id == k;
            if j < i {
                assert(self.records@[j].id == k);
            } else {
                assert(self.records@[j - 1].id == k);
            }
        }
        r
    }

    fn put(&mut self, r: MsgRecord)
        requires
            old(self).wf(),
            !old(self)@.contains_key(r.id),
        ensures
            final(self).wf(),
            final(self).vote_threshold == old(self).vote_threshold,
            final(self)@ == old(self)@.insert(r.id, state_of(r)),
    {
        let ghost s = self.records@;
        let ghost id = r.id;
        let ghost st = state_of(r);
        self.records.push(r);
        self.contents = Ghost(self.contents@.insert(id, st));
        assert(self.records@ =~= s.push(r));
        assert forall|i: int, j: int|
            0 <= i < j < self.records@.len() implies self.records@[i].id
            != self.records@[j].id by {
            if j == s.len() {
                assert(old(self).contents@.contains_key(s[i].id));
            }
        }
        assert forall|k: CSMsgId| self.contents@.contains_key(k) implies exists|j: int|
            0 <= j < self.records@.len() && #[trigger] self.records@[j].id == k by {
            if k != id {
                let j = choose|j: int| 0 <= j < s.len() && #[trigger] s[j].id == k;
                assert(self.records@[j].id == k);
            } else {
                assert(self.records@[s.len() as int].id == k);
            }
        }
    }

    /// Records one partial signature for `id`. A message seen for the first time
    /// starts validating. While validating, the signature joins the set; when the
    /// set reaches the threshold the message becomes validated and the whole set
    /// is handed back. A signature already held, or one for a message in any
    /// other status, is ignored. Replies whether the signature was taken, and
    /// the quorum set if one was formed.
    pub fn add_csmsg_sig(&mut self, id: CSMsgId, sig: Signature) -> (r: (bool, Vec<Signature>))
        requires
            old(self).wf(),
        ensures
            final(self).wf(),
            final(self).threshold() == old(self).threshold(),
            ({
                let prior = if old(self)@.contains_key(id) {
                    Some(old(self)@[id])
                } else {
                    None
                };
                let pending = match prior {
                    Some(p) => p.sigs,
                    None => Seq::<Seq<u8>>::empty(),
                };
                let waiters = match prior {
                    Some(p) => p.waiters,
                    None => Seq::<u64>::empty(),
                };
                let all = pending.push(sig@);
                if (prior is None || prior->Some_0.status == CSMsgStatus::Validating) && !pending.contains(
                    sig@,
                ) {
                    r.0 && if all.len() == old(self).threshold() {
                        sig_views(r.1@) == all && final(self)@ == old(self)@.insert(
                            id,
                            MsgState {
                                status: CSMsgStatus::Validated,
                                sigs: Seq::empty(),
                                waiters,
                            },
                        )
                    } else {
                        r.1@.len() == 0 && final(self)@ == old(self)@.insert(
                            id,
                            MsgState { status: CSMsgStatus::Validating, sigs: all, waiters },
                        )
                    }
                } else {
                    !r.0 && r.1@.len() == 0 && final(self)@ == old(self)@
                }
            }),
    {
        let mut rec = match self.find(id) {
            Some(i) => {
                if self.records[i].status != CSMsgStatus::Validating {
                    return (false, Vec::new());
                }
                if holds_sig(&self.records[i].sigs, &sig) {
                    return (false, Vec::new());
                }
                self.take(i)
            },
            None => MsgRecord {
                id,
                status: CSMsgStatus::Validating,
                sigs: Vec::new(),
                waiters: Vec::new(),
            },
        };
        assert(sig_views(Seq::<Signature>::empty()) =~= Seq::<Seq<u8>>::empty());
        let ghost before = sig_views(rec.sigs@);
        let ghost sv = sig@;
        rec.sigs.push(sig);
        assert(sig_views(rec.sigs@) =~= before.push(sv));
        if rec.sigs.len() == self.vote_threshold {
            let quorum = rec.sigs;
            let done = MsgRecord {
                id,
                status: CSMsgStatus::Validated,
                sigs: Vec::new(),
                waiters: rec.waiters,
            };
            assert(sig_views(done.sigs@) =~= Seq::<Seq<u8>>::empty());
            self.put(done);
            (true, quorum)
        } else {
            self.put(rec);
            (true, Vec::new())
        }
    }

    /// Marks `id` appended. A local append takes effect only when the message
    /// is neither appended nor executed yet, and replies whether it did; a
    /// remote append always takes effect, drops the pending signatures and
    /// replies true. An executed message stays executed. Whenever the append
    /// takes effect, every waiter registered for the message is handed back to
    /// be woken and none stays registered.
    pub fn update_appended(&mut self, id: CSMsgId, appended_type: AppendedType) -> (r: (
        bool,
        Vec<u64>,
    ))
        requires
            old(self).wf(),
            appended_type == AppendedType::Local ==> old(self)@.contains_key(id),
        ensures
            final(self).wf(),
            final(self).threshold() == old(self).threshold(),
            executed_kept(old(self)@, final(self)@),
            ({
                let st = status_in(old(self)@, id);
                if st == Some(CSMsgStatus::Executed) && appended_type == AppendedType::Local {
                    !r.0 && r.1@.len() == 0 && final(self)@ == old(self)@
                } else if st == Some(CSMsgStatus::Executed) {
                    r.0 && r.1@ == old(self)@[id].waiters && final(self)@ == old(self)@.insert(
                        id,
                        MsgState { status: CSMsgStatus::Executed, sigs: Seq::empty(), waiters: Seq::empty() },
                    )
                } else if appended_type == AppendedType::Local && st == Some(
                    CSMsgStatus::Appended,
                ) {
                    !r.0 && r.1@.len() == 0 && final(self)@ == old(self)@
                } else {
                    let waiters = if old(self)@.contains_key(id) {
                        old(self)@[id].waiters
                    } else {
                        Seq::<u64>::empty()
                    };
                    let sigs = if old(self)@.contains_key(id) && appended_type
                        == AppendedType::Local {
                        old(self)@[id].sigs
                    } else {
                        Seq::<Seq<u8>>::empty()
                    };
                    r.0 && r.1@ == waiters && final(self)@ == old(self)@.insert(
                        id,
                        MsgState { status: CSMsgStatus::Appended, sigs, waiters: Seq::empty() },
                    )
                }
            }),
    {
        let rec = match self.find(id) {
            Some(i) => {
                let st = self.records[i].status;
                if (st == CSMsgStatus::Executed || st == CSMsgStatus::Appended) && appended_type
                    == AppendedType::Local {
                    return (false, Vec::new());
                }
                self.take(i)
            },
            None => MsgRecord {
                id,
                status: CSMsgStatus::Validating,
                sigs: Vec::new(),
                waiters: Vec::new(),
            },
        };
        let woken = rec.waiters;
        let sigs = match appended_type {
            AppendedType::Local => rec.sigs,
            AppendedType::Remote => Vec::new(),
        };
        let status = if rec.status == CSMsgStatus::Executed {
            CSMsgStatus::Executed
        } else {
            CSMsgStatus::Appended
        };
        let done = MsgRecord { id, status, sigs, waiters: Vec::new() };
        assert(sig_views(Seq::<Signature>::empty()) =~= Seq::<Seq<u8>>::empty());
        self.put(done);
        proof {
            assert forall|k: CSMsgId| #[trigger]
                status_in(old(self)@, k) == Some(CSMsgStatus::Executed) implies status_in(
                self@,
                k,
            ) == Some(CSMsgStatus::Executed) by {
                if k == id {
                    assert(self@[id].status == CSMsgStatus::Executed);
                }
            }
        }
        (true, woken)
    }

    /// Asks to be woken when `id` is appended. Replies true at once when the
    /// message is already appended (or executed, which it can only be after
    /// being appended); otherwise registers `waiter` and replies false. A
    /// message never seen before starts validating with this waiter.
    pub fn notify_appended(&mut self, id: CSMsgId, waiter: u64) -> (r: bool)
        requires
            old(self).wf(),
        ensures
            final(self).wf(),
            final(self).threshold() == old(self).threshold(),
            r == (status_in(old(self)@, id) == Some(CSMsgStatus::Appended) || status_in(old(self)@, id)
                == Some(CSMsgStatus::Executed)),
            r ==> final(self)@ == old(self)@,
            !r && old(self)@.contains_key(id) ==> final(self)@ == old(self)@.insert(
                id,
                MsgState {
                    status: old(self)@[id].status,
                    sigs: old(self)@[id].sigs,
                    waiters: old(self)@[id].waiters.push(waiter),
                },
            ),
            !r && !old(self)@.contains_key(id) ==> final(self)@ == old(self)@.insert(
                id,
                MsgState { status: CSMsgStatus::Validating, sigs: Seq::empty(), waiters: seq![waiter] },
            ),
    {
        let mut rec = match self.find(id) {
            Some(i) => {
                let st = self.records[i].status;
                if st == CSMsgStatus::Appended || st == CSMsgStatus::Executed {
                    return true;
                }
                self.take(i)
            },
            None => MsgRecord {
                id,
                status: CSMsgStatus::Validating,
                sigs: Vec::new(),
                waiters: Vec::new(),
            },
        };
        assert(sig_views(Seq::<Signature>::empty()) =~= Seq::<Seq<u8>>::empty());
        let ghost w0 = rec.waiters@;
        rec.waiters.push(waiter);
        assert(rec.waiters@ == w0.push(waiter));
        assert(Seq::<u64>::empty().push(waiter) =~= seq![waiter]);
        self.put(rec);
        false
    }

    /// Whether `id` may still run: every message but an executed one.
    pub fn can_executed(&self, id: CSMsgId) -> (r: bool)
        requires
            self.wf(),
        ensures
            r == may_execute(self@, id),
    {
        match self.find(id) {
            Some(i) => self.records[i].status != CSMsgStatus::Executed,
            None => true,
        }
    }

    /// Marks `id` executed, keeping whatever else the book holds for it.
    pub fn update_executed(&mut self, id: CSMsgId)
        requires
            old(self).wf(),
        ensures
            final(self).wf(),
            final(self).threshold() == old(self).threshold(),
            executed_kept(old(self)@, final(self)@),
            status_in(final(self)@, id) == Some(CSMsgStatus::Executed),
            final(self)@ == mark_executed(old(self)@, id),
    {
        let rec = match self.find(id) {
            Some(i) => self.take(i),
            None => MsgRecord {
                id,
                status: CSMsgStatus::Validating,
                sigs: Vec::new(),
                waiters: Vec::new(),
            },
        };
        assert(sig_views(Seq::<Signature>::empty()) =~= Seq::<Seq<u8>>::empty());
        let done = MsgRecord { id, status: CSMsgStatus::Executed, sigs: rec.sigs, waiters: rec.waiters };
        self.put(done);
    }
}

/// A message runs at most once: once the book has marked it executed, it
/// refuses it, and every operation of the book keeps it marked.
pub proof fn lemma_executed_refused(m: Map<CSMsgId, MsgState>, id: CSMsgId)
    requires
        status_in(m, id) == Some(CSMsgStatus::Executed),
    ensures
        !may_execute(m, id),
{
}

/// Executed is absorbing over any run of book operations: every operation
/// keeps executed messages executed (each states `executed_kept`), so along
/// any sequence of book states so linked, a message executed at the start
/// is still executed, and refused, at the end.
pub proof fn lemma_executed_absorbing(states: Seq<Map<CSMsgId, MsgState>>, id: CSMsgId)
    requires
        states.len() > 0,
        forall|i: int| 0 <= i < states.len() - 1 ==> executed_kept(#[trigger] states[i], states[i + 1]),
        status_in(states[0], id) == Some(CSMsgStatus::Executed),
    ensures
        status_in(states.last(), id) == Some(CSMsgStatus::Executed),
        !may_execute(states.last(), id),
    decreases states.len(),
{
    if states.len() > 1 {
        let p = states.drop_last();
        assert forall|i: int| 0 <= i < p.len() - 1 implies executed_kept(#[trigger] p[i], p[i + 1]) by {
            assert(p[i] == states[i] && p[i + 1] == states[i + 1]);
        }
        lemma_executed_absorbing(p, id);
        let n = states.len() - 2;
        assert(executed_kept(states[n], states[n + 1]));
        assert(status_in(states[n], id) == Some(CSMsgStatus::Executed));
    }
}

} // verus!
