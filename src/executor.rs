use vstd::prelude::*;
use crate::account_store::AccountStore;
use crate::bytes::bytes_eq;
use crate::account_store::Account;
use crate::csmsg_store::{executed_kept, mark_executed, may_execute, status_in, CSMsgId, CSMsgStatus, CSMsgStore, MsgState};
use crate::messages::{sum_values, ShardId, Transaction, SHARD_NONE};
use crate::state_transition::{apply_rwsets, execute_frame};

verus! {

/// The execution strategy of a shard.
#[derive(Clone, Copy, Debug, PartialEq, Eq, Structural)]
pub enum ExecutorKind {
    /// Relay each remaining frame to the next frame's shard (over a tiered store).
    Relay,
    /// Decides as Relay does, over a single-tier store.
    Monolithic,
    /// A successful first leg of a broker transfer goes back to the broker client.
    Broker,
}

/// Outcome of executing one transaction's current frame.
#[derive(Clone, Copy, Debug, PartialEq, Eq, Structural)]
pub enum ExecutionState {
    Commit,
    Relay,
    Abort,
}

/// End-to-end counters of an executor.
#[derive(Clone, Copy, Debug, PartialEq, Eq, Structural)]
pub struct Counters {
    pub total_general_txs: u64,
    pub total_external_txs: u64,
    pub total_cross_shard_txs: u64,
    pub total_commit_txs: u64,
    pub total_aborted_txs: u64,
}

/// A transaction leaving this shard as a cross-shard message.
pub struct OutgoingCSMsg {
    pub target_shard: ShardId,
    pub tx: Transaction,
}

/// The counters agree with each other: every transaction that ran either
/// committed its frame here (whether it then finished or was relayed) or aborted.
pub open spec fn counters_wf(c: Counters) -> bool {
    &&& c.total_commit_txs + c.total_aborted_txs == c.total_external_txs
    &&& c.total_cross_shard_txs <= c.total_external_txs
    &&& c.total_external_txs == c.total_general_txs
}

/// Whether, after its current frame succeeded, a transaction continues elsewhere.
pub open spec fn needs_relay(kind: ExecutorKind, tx: Transaction) -> bool {
    match kind {
        ExecutorKind::Broker => tx.final_receiver is Some && tx.receiver@
            != tx.final_receiver->Some_0@,
        _ => tx.step + 1 < tx.payload@.len(),
    }
}

/// Whether a transaction may run here: one that was not relayed always may;
/// a relayed one needs a threshold proof and must not have run already. A
/// transaction whose step points past its frames is malformed and never runs.
pub open spec fn tx_valid(book: Map<CSMsgId, crate::csmsg_store::MsgState>, tx: Transaction) -> bool {
    &&& tx.step < tx.payload@.len()
    &&& (tx.source_shard != SHARD_NONE ==> tx.cs_proof@.len() > 0 && may_execute(
        book,
        CSMsgId { source_shard: tx.source_shard, sequence: tx.csmsg_sequence },
    ))
}

/// Executes the transactions of ordered blocks for one shard.
pub struct Executor {
    pub shard_id: ShardId,
    pub kind: ExecutorKind,
    pub counters: Counters,
}

impl Executor {
    pub fn new(shard_id: ShardId, kind: ExecutorKind) -> (r: Executor)
        ensures
            r.shard_id == shard_id,
            r.kind == kind,
            r.counters == (Counters {
                total_general_txs: 0,
                total_external_txs: 0,
                total_cross_shard_txs: 0,
                total_commit_txs: 0,
                total_aborted_txs: 0,
            }),
            counters_wf(r.counters),
    {
        Executor {
            shard_id,
            kind,
            counters: Counters {
                total_general_txs: 0,
                total_external_txs: 0,
                total_cross_shard_txs: 0,
                total_commit_txs: 0,
                total_aborted_txs: 0,
            },
        }
    }

    /// Checks a transaction before it runs; returns the identity of the
    /// message that carried it, if any, and whether it may run.
    pub fn verify_tx(&self, book: &CSMsgStore, tx: &Transaction) -> (r: (Option<CSMsgId>, bool))
        requires
            book.wf(),
        ensures
            r.0 == tx.get_csmsg_id_spec(),
            r.1 == tx_valid(book@, *tx),
    {
        let id = tx.get_csmsg_id();
        if tx.step >= tx.payload.len() {
            return (id, false);
        }
        match id {
            None => (None, true),
            Some(i) => {
                if tx.cs_proof.len() == 0 {
                    (id, false)
                } else {
                    (id, book.can_executed(i))
                }
            },
        }
    }

    /// Runs the current frame of `tx` against `store`. When the balance check
    /// fails nothing changes and the transaction aborts. Otherwise the frame's
    /// deltas are committed, the carrying message (if any) is marked executed,
    /// and the transaction either commits or must be relayed.
    pub fn exec_tx(
        &self,
        store: &mut AccountStore,
        book: &mut CSMsgStore,
        tx: &Transaction,
        id: Option<CSMsgId>,
    ) -> (r: ExecutionState)
        requires
            old(store).wf(),
            old(book).wf(),
            tx.step < tx.payload@.len(),
        ensures
            final(store).wf(),
            final(book).wf(),
            final(book).threshold() == old(book).threshold(),
            executed_kept(old(book)@, final(book)@),
            ({
                let rw = tx.payload@[tx.step as int].rwset@;
                match apply_rwsets(old(store)@, rw) {
                    None => r == ExecutionState::Abort && final(store)@ == old(store)@
                        && final(store).net_total() == old(store).net_total() && final(book)@
                        == old(book)@,
                    Some(m) => final(store)@ == m && final(store).net_total() == old(store).net_total() + sum_values(rw) && (r == if needs_relay(self.kind, *tx) {
                        ExecutionState::Relay
                    } else {
                        ExecutionState::Commit
                    }) && match id {
                        Some(i) => final(book)@ == mark_executed(old(book)@, i),
                        None => final(book)@ == old(book)@,
                    },
                }
            }),
    {
        let ok = execute_frame(store, &tx.payload[tx.step].rwset);
        if !ok {
            return ExecutionState::Abort;
        }
        match id {
            Some(i) => book.update_executed(i),
            None => {},
        }
        let relay = match self.kind {
            ExecutorKind::Broker => match &tx.final_receiver {
                None => false,
                Some(fr) => !bytes_eq(&tx.receiver, fr),
            },
            _ => tx.step < tx.payload.len() - 1,
        };
        if relay {
            ExecutionState::Relay
        } else {
            ExecutionState::Commit
        }
    }

    /// Handles one ordered transaction: checks it, runs it, updates the
    /// counters, and hands back the cross-shard message to send when it must
    /// continue elsewhere (see `tx_effect`).
    pub fn process_tx(&mut self, store: &mut AccountStore, book: &mut CSMsgStore, tx: Transaction) -> (r:
        Option<OutgoingCSMsg>)
        requires
            old(store).wf(),
            old(book).wf(),
            counters_wf(old(self).counters),
            old(self).counters.total_general_txs < u64::MAX,
        ensures
            final(store).wf(),
            final(book).wf(),
            final(book).threshold() == old(book).threshold(),
            counters_wf(final(self).counters),
            final(self).shard_id == old(self).shard_id,
            final(self).kind == old(self).kind,
            ({
                let e = tx_effect(old(self).kind, old(self).shard_id, old(store)@, old(book)@, old(self).counters, tx);
                &&& final(store)@ == e.store
                &&& final(book)@ == e.book
                &&& final(self).counters == e.counters
                &&& r == e.out
                &&& final(store).net_total() == old(store).net_total() + e.net
            }),
            final(self).counters.total_general_txs <= old(self).counters.total_general_txs + 1,
    {
        let (id, valid) = self.verify_tx(book, &tx);
        if !valid {
            return None;
        }
        self.counters.total_general_txs = self.counters.total_general_txs + 1;
        let st = self.exec_tx(store, book, &tx, id);
        match st {
            ExecutionState::Commit => {
                self.counters.total_external_txs = self.counters.total_external_txs + 1;
                self.counters.total_cross_shard_txs = self.counters.total_cross_shard_txs
                    + tx.count_cs_tx() as u64;
                self.counters.total_commit_txs = self.counters.total_commit_txs + 1;
                None
            },
            ExecutionState::Abort => {
                self.counters.total_external_txs = self.counters.total_external_txs + 1;
                self.counters.total_cross_shard_txs = self.counters.total_cross_shard_txs
                    + tx.count_cs_tx() as u64;
                self.counters.total_aborted_txs = self.counters.total_aborted_txs + 1;
                None
            },
            ExecutionState::Relay => {
                self.counters.total_external_txs = self.counters.total_external_txs + 1;
                self.counters.total_cross_shard_txs = self.counters.total_cross_shard_txs
                    + tx.count_cs_tx() as u64;
                self.counters.total_commit_txs = self.counters.total_commit_txs + 1;
                let mut tx = tx;
                match self.kind {
                    ExecutorKind::Broker => Some(OutgoingCSMsg { target_shard: SHARD_NONE, tx }),
                    _ => {
                        let next = tx.update_relay_info(self.shard_id);
                        Some(OutgoingCSMsg { target_shard: next, tx })
                    },
                }
            },
        }
    }

    /// Handles the batches of one ordered block, transaction by transaction
    /// in order, collecting the cross-shard messages to send: the outcome is
    /// `run_block` over the batches laid end to end.
    pub fn process_tx_block(
        &mut self,
        store: &mut AccountStore,
        book: &mut CSMsgStore,
        batches: Vec<Vec<Transaction>>,
    ) -> (r: Vec<OutgoingCSMsg>)
        requires
            old(store).wf(),
            old(book).wf(),
            counters_wf(old(self).counters),
            old(self).counters.total_general_txs + flatten(batches@).len() <= u64::MAX,
        ensures
            final(store).wf(),
            final(book).wf(),
            final(book).threshold() == old(book).threshold(),
            counters_wf(final(self).counters),
            final(self).shard_id == old(self).shard_id,
            final(self).kind == old(self).kind,
            ({
                let b = run_block(
                    old(self).kind,
                    old(self).shard_id,
                    BlockState {
                        store: old(store)@,
                        book: old(book)@,
                        counters: old(self).counters,
                        out: Seq::empty(),
                        net: 0,
                    },
                    flatten(batches@),
                );
                &&& final(store)@ == b.store
                &&& final(book)@ == b.book
                &&& final(self).counters == b.counters
                &&& r@ == b.out
                &&& final(store).net_total() == old(store).net_total() + b.net
            }),
    {
        let ghost k = self.kind;
        let ghost sid = self.shard_id;
        let ghost init = BlockState {
            store: store@,
            book: book@,
            counters: self.counters,
            out: Seq::empty(),
            net: 0,
        };
        let ghost t0 = store.net_total();
        let ghost g0 = self.counters.total_general_txs;
        let ghost all = flatten(batches@);
        let ghost done: Seq<Transaction> = Seq::empty();
        let mut out: Vec<OutgoingCSMsg> = Vec::new();
        let mut batches = batches;
        assert(Seq::<Transaction>::empty() + Seq::<Transaction>::empty() + flatten(batches@) =~= all);
        while batches.len() > 0
            invariant
                store.wf(),
                book.wf(),
                book.threshold() == old(book).threshold(),
                counters_wf(self.counters),
                self.shard_id == sid,
                self.kind == k,
                done + flatten(batches@) == all,
                g0 + all.len() <= u64::MAX,
                self.counters.total_general_txs <= g0 + done.len(),
                ({
                    let b = run_block(k, sid, init, done);
                    &&& store@ == b.store
                    &&& book@ == b.book
                    &&& self.counters == b.counters
                    &&& out@ == b.out
                    &&& store.net_total() == t0 + b.net
                }),
            decreases batches@.len(),
        {
            let ghost bs = batches@;
            let mut txs = batches.remove(0);
            proof {
                lemma_flatten_front(bs);
                assert(batches@ =~= bs.subrange(1, bs.len() as int));
                assert(done + txs@ + flatten(batches@) =~= all);
            }
            while txs.len() > 0
                invariant
                    store.wf(),
                    book.wf(),
                    book.threshold() == old(book).threshold(),
                    counters_wf(self.counters),
                    self.shard_id == sid,
                    self.kind == k,
                    done + txs@ + flatten(batches@) == all,
                    g0 + all.len() <= u64::MAX,
                    self.counters.total_general_txs <= g0 + done.len(),
                    ({
                        let b = run_block(k, sid, init, done);
                        &&& store@ == b.store
                        &&& book@ == b.book
                        &&& self.counters == b.counters
                        &&& out@ == b.out
                        &&& store.net_total() == t0 + b.net
                    }),
                decreases txs@.len(),
            {
                let ghost ts = txs@;
                let tx = txs.remove(0);
                proof {
                    assert(done.push(tx) + txs@ + flatten(batches@) =~= done + ts + flatten(batches@));
                    assert((done + ts + flatten(batches@)).len() == all.len());
                    assert(done.push(tx).drop_last() =~= done);
                }
                let ghost before_out = out@;
                let r = self.process_tx(store, book, tx);
                match r {
                    Some(m) => out.push(m),
                    None => {},
                }
                proof {
                    done = done.push(tx);
                }
            }
            proof {
                assert(done + txs@ =~= done);
            }
        }
        proof {
            assert(done + flatten(batches@) =~= done);
        }
        out
    }
}

impl Transaction {
    /// The identity of the message that carried a transaction, in spec form.
    pub open spec fn get_csmsg_id_spec(&self) -> Option<CSMsgId> {
        if self.source_shard == SHARD_NONE {
            None
        } else {
            Some(CSMsgId { source_shard: self.source_shard, sequence: self.csmsg_sequence })
        }
    }
}

/// The message a transaction that must continue leaves as: a broker executor
/// sends it unchanged to the broker client; the others move it to its next
/// frame, as relayed by this shard, addressed to that frame's shard.
pub open spec fn relay_msg(kind: ExecutorKind, shard_id: ShardId, tx: Transaction) -> OutgoingCSMsg {
    match kind {
        ExecutorKind::Broker => OutgoingCSMsg { target_shard: SHARD_NONE, tx },
        _ => OutgoingCSMsg {
            target_shard: tx.payload@[tx.step + 1].shardid,
            tx: Transaction { step: (tx.step + 1) as usize, source_shard: shard_id, ..tx },
        },
    }
}

/// What handling one transaction leaves behind: the accounts, the book, the
/// counters, the message to send if any, and the change of the net balance.
pub struct TxEffect {
    pub store: Map<Seq<u8>, Account>,
    pub book: Map<CSMsgId, MsgState>,
    pub counters: Counters,
    pub out: Option<OutgoingCSMsg>,
    pub net: int,
}

/// The effect of handling `tx`. One that may not run (see `tx_valid`)
/// changes nothing. Otherwise it counts as general and external, and as
/// cross-shard when it involves several shards; its current frame either
/// fails the balance check (aborted, nothing else changes) or is applied:
/// counted as committed, its carrying message marked executed, and, when it
/// must continue, sent on as `relay_msg`.
pub open spec fn tx_effect(
    kind: ExecutorKind,
    shard_id: ShardId,
    store: Map<Seq<u8>, Account>,
    book: Map<CSMsgId, MsgState>,
    c: Counters,
    tx: Transaction,
) -> TxEffect {
    if !tx_valid(book, tx) {
        TxEffect { store, book, counters: c, out: None, net: 0 }
    } else {
        let rw = tx.payload@[tx.step as int].rwset@;
        let cs: int = if tx.involved_shard_num > 1 {
            1
        } else {
            0
        };
        match apply_rwsets(store, rw) {
            None => TxEffect {
                store,
                book,
                counters: Counters {
                    total_general_txs: (c.total_general_txs + 1) as u64,
                    total_external_txs: (c.total_external_txs + 1) as u64,
                    total_cross_shard_txs: (c.total_cross_shard_txs + cs) as u64,
                    total_commit_txs: c.total_commit_txs,
                    total_aborted_txs: (c.total_aborted_txs + 1) as u64,
                },
                out: None,
                net: 0,
            },
            Some(m) => TxEffect {
                store: m,
                book: match tx.get_csmsg_id_spec() {
                    Some(i) => mark_executed(book, i),
                    None => book,
                },
                counters: Counters {
                    total_general_txs: (c.total_general_txs + 1) as u64,
                    total_external_txs: (c.total_external_txs + 1) as u64,
                    total_cross_shard_txs: (c.total_cross_shard_txs + cs) as u64,
                    total_commit_txs: (c.total_commit_txs + 1) as u64,
                    total_aborted_txs: c.total_aborted_txs,
                },
                out: if needs_relay(kind, tx) {
                    Some(relay_msg(kind, shard_id, tx))
                } else {
                    None
                },
                net: sum_values(rw),
            },
        }
    }
}

/// The state an executor carries through a block, with the messages sent so
/// far and the net balance change so far.
pub struct BlockState {
    pub store: Map<Seq<u8>, Account>,
    pub book: Map<CSMsgId, MsgState>,
    pub counters: Counters,
    pub out: Seq<OutgoingCSMsg>,
    pub net: int,
}

/// Handling the transactions `txs` in order, from `s`.
pub open spec fn run_block(kind: ExecutorKind, shard_id: ShardId, s: BlockState, txs: Seq<Transaction>) -> BlockState
    decreases txs.len(),
{
    if txs.len() == 0 {
        s
    } else {
        let b = run_block(kind, shard_id, s, txs.drop_last());
        let e = tx_effect(kind, shard_id, b.store, b.book, b.counters, txs.last());
        BlockState {
            store: e.store,
            book: e.book,
            counters: e.counters,
            out: match e.out {
                Some(m) => b.out.push(m),
                None => b.out,
            },
            net: b.net + e.net,
        }
    }
}

/// The transactions of a block's batches, laid end to end.
pub open spec fn flatten(b: Seq<Vec<Transaction>>) -> Seq<Transaction>
    decreases b.len(),
{
    if b.len() == 0 {
        Seq::empty()
    } else {
        flatten(b.drop_last()) + b.last()@
    }
}

proof fn lemma_flatten_front(b: Seq<Vec<Transaction>>)
    requires
        b.len() > 0,
    ensures
        flatten(b) == b[0]@ + flatten(b.subrange(1, b.len() as int)),
    decreases b.len(),
{
    if b.len() == 1 {
        assert(b.drop_last() =~= Seq::<Vec<Transaction>>::empty());
        assert(b.subrange(1, 1) =~= Seq::<Vec<Transaction>>::empty());
        assert(b[0]@ + Seq::<Transaction>::empty() =~= b[0]@);
        assert(Seq::<Transaction>::empty() + b[0]@ =~= b[0]@);
    } else {
        lemma_flatten_front(b.drop_last());
        assert(b.drop_last().subrange(1, b.len() - 1) =~= b.subrange(1, b.len() as int).drop_last());
        assert(flatten(b) =~= b[0]@ + flatten(b.subrange(1, b.len() as int)));
    }
}

/// A relayed transaction whose message was already executed here is skipped:
/// handling it changes no account, no book entry and no counter, and sends nothing.
pub proof fn lemma_executed_message_skipped(
    kind: ExecutorKind,
    shard_id: ShardId,
    store: Map<Seq<u8>, Account>,
    book: Map<CSMsgId, MsgState>,
    c: Counters,
    tx: Transaction,
)
    requires
        tx.source_shard != SHARD_NONE,
        status_in(book, CSMsgId { source_shard: tx.source_shard, sequence: tx.csmsg_sequence })
            == Some(CSMsgStatus::Executed),
    ensures
        tx_effect(kind, shard_id, store, book, c, tx) == (TxEffect { store, book, counters: c, out: None, net: 0 }),
{
}

} // verus!
