use vstd::prelude::*;
use crate::cs_msg_verifier::{among_first, shuffle_node_id_list};
use crate::csmsg_store::{status_in, AppendedType, CSMsgId, CSMsgStatus, CSMsgStore, MsgState};
use crate::messages::{tx_digest_bytes, CSMsg, ShardId, Transaction, SHARD_NONE};
use crate::primitives::{node_order_of, sha512_head_of};

verus! {

/// A cross-shard message ready to go, and whether and to whom this node sends it.
pub struct SendPlan {
    pub msg: CSMsg,
    /// Whether this node is one of the message's senders.
    pub send: bool,
    /// The nodes of the target shard to send it to.
    pub receivers: Vec<usize>,
}

/// Wraps relayed transactions into cross-shard messages and picks who sends
/// them: the first `cs_sender_nums` nodes of the message's node order send,
/// to the first `cs_rev_nums` nodes of the target shard.
pub struct CSMsgSender {
    pub shard_id: ShardId,
    pub node_id: usize,
    pub is_malicious: bool,
    pub shard_size: usize,
    pub cs_sender_nums: usize,
    pub cs_rev_nums: usize,
    /// The next message sequence for each target shard.
    pub cs_msg_id: Vec<u64>,
    /// The next sequence of first legs confirmed to the broker client.
    pub tx1_id: u64,
}

/// The node order of a message whose inner transaction is `tx`.
pub open spec fn msg_order(shard_size: usize, tx: Transaction) -> Seq<usize> {
    node_order_of(shard_size as nat, sha512_head_of(tx_digest_bytes(tx)))
}

impl CSMsgSender {
    /// A sender for a deployment of `shard_num` shards, every sequence at 0.
    pub fn new(
        shard_id: ShardId,
        node_id: usize,
        is_malicious: bool,
        shard_num: usize,
        shard_size: usize,
        cs_sender_nums: usize,
        cs_rev_nums: usize,
    ) -> (r: CSMsgSender)
        ensures
            r.shard_id == shard_id,
            r.node_id == node_id,
            r.is_malicious == is_malicious,
            r.shard_size == shard_size,
            r.cs_sender_nums == cs_sender_nums,
            r.cs_rev_nums == cs_rev_nums,
            r.cs_msg_id@ == Seq::new(shard_num as nat, |i: int| 0u64),
            r.tx1_id == 0,
    {
        let mut seqs: Vec<u64> = Vec::new();
        let mut i: usize = 0;
        while i < shard_num
            invariant
                i <= shard_num,
                seqs@ == Seq::new(i as nat, |k: int| 0u64),
            decreases shard_num - i,
        {
            seqs.push(0);
            i = i + 1;
            assert(seqs@ =~= Seq::new(i as nat, |k: int| 0u64));
        }
        CSMsgSender {
            shard_id,
            node_id,
            is_malicious,
            shard_size,
            cs_sender_nums,
            cs_rev_nums,
            cs_msg_id: seqs,
            tx1_id: 0,
        }
    }

    /// Prepares the message for `tx` towards `target_shard`: it takes the next
    /// sequence of that shard, and the node order of its inner transaction's
    /// digest decides whether this node sends it and to whom. A node flagged
    /// malicious sends nothing and keeps its sequences.
    pub fn prepare(&mut self, target_shard: ShardId, tx: Transaction, author: Vec<u8>) -> (r: Option<SendPlan>)
        requires
            target_shard < old(self).cs_msg_id@.len(),
            old(self).cs_msg_id@[target_shard as int] < u64::MAX,
            old(self).cs_sender_nums <= old(self).shard_size,
            old(self).cs_rev_nums <= old(self).shard_size,
        ensures
            final(self).shard_id == old(self).shard_id,
            final(self).node_id == old(self).node_id,
            final(self).is_malicious == old(self).is_malicious,
            final(self).shard_size == old(self).shard_size,
            final(self).cs_sender_nums == old(self).cs_sender_nums,
            final(self).cs_rev_nums == old(self).cs_rev_nums,
            old(self).is_malicious ==> r is None && final(self).cs_msg_id@ == old(self).cs_msg_id@,
            !old(self).is_malicious ==> {
                let seq = old(self).cs_msg_id@[target_shard as int];
                &&& final(self).cs_msg_id@ == old(self).cs_msg_id@.update(
                    target_shard as int,
                    (seq + 1) as u64,
                )
                &&& r is Some
                &&& {
                    let p = r->Some_0;
                    let order = msg_order(old(self).shard_size, p.msg.tx);
                    &&& p.msg.source_shard == old(self).shard_id
                    &&& p.msg.target_shard == target_shard
                    &&& p.msg.csmsg_sequence == seq
                    &&& p.msg.tx == (Transaction { csmsg_sequence: seq, ..tx })
                    &&& p.msg.inner_tx_hash@ == sha512_head_of(tx_digest_bytes(p.msg.tx))
                    &&& p.send == among_first(order, old(self).cs_sender_nums as int, old(self).node_id)
                    &&& p.receivers@ == order.subrange(0, old(self).cs_rev_nums as int)
                }
            },
    {
        if self.is_malicious {
            return None;
        }
        let seq = self.cs_msg_id[target_shard];
        self.cs_msg_id.set(target_shard, seq + 1);
        let msg = CSMsg::new(self.shard_id, target_shard, seq, tx, author, Vec::new());
        let order = shuffle_node_id_list(self.shard_size, &msg.inner_tx_hash);
        let mut send = false;
        let mut i: usize = 0;
        while i < self.cs_sender_nums
            invariant
                i <= self.cs_sender_nums,
                self.cs_sender_nums <= order@.len(),
                send == exists|j: int| 0 <= j < i && order@[j] == self.node_id,
            decreases self.cs_sender_nums - i,
        {
            if order[i] == self.node_id {
                send = true;
            }
            i = i + 1;
        }
        let mut receivers: Vec<usize> = Vec::new();
        let mut k: usize = 0;
        while k < self.cs_rev_nums
            invariant
                k <= self.cs_rev_nums,
                self.cs_rev_nums <= order@.len(),
                receivers@ == order@.subrange(0, k as int),
            decreases self.cs_rev_nums - k,
        {
            receivers.push(order[k]);
            k = k + 1;
            assert(receivers@ =~= order@.subrange(0, k as int));
        }
        Some(SendPlan { msg, send, receivers })
    }

    /// Prepares the confirmation of a first broker leg for the broker client:
    /// it takes the next first-leg sequence, goes to no shard, and the node
    /// order of its inner transaction's digest decides whether this node sends
    /// it. A node flagged malicious sends nothing and keeps its sequence.
    pub fn prepare_to_broker(&mut self, tx: Transaction, author: Vec<u8>) -> (r: Option<SendPlan>)
        requires
            old(self).tx1_id < u64::MAX,
            old(self).cs_sender_nums <= old(self).shard_size,
        ensures
            final(self).shard_id == old(self).shard_id,
            final(self).node_id == old(self).node_id,
            final(self).is_malicious == old(self).is_malicious,
            final(self).shard_size == old(self).shard_size,
            final(self).cs_sender_nums == old(self).cs_sender_nums,
            final(self).cs_rev_nums == old(self).cs_rev_nums,
            final(self).cs_msg_id@ == old(self).cs_msg_id@,
            old(self).is_malicious ==> r is None && final(self).tx1_id == old(self).tx1_id,
            !old(self).is_malicious ==> {
                &&& final(self).tx1_id == old(self).tx1_id + 1
                &&& r is Some
                &&& {
                    let p = r->Some_0;
                    let order = msg_order(old(self).shard_size, p.msg.tx);
                    &&& p.msg.source_shard == old(self).shard_id
                    &&& p.msg.target_shard == SHARD_NONE
                    &&& p.msg.csmsg_sequence == old(self).tx1_id
                    &&& p.msg.tx == (Transaction { csmsg_sequence: old(self).tx1_id, ..tx })
                    &&& p.msg.inner_tx_hash@ == sha512_head_of(tx_digest_bytes(p.msg.tx))
                    &&& p.send == among_first(order, old(self).cs_sender_nums as int, old(self).node_id)
                    &&& p.receivers@.len() == 0
                }
            },
    {
        if self.is_malicious {
            return None;
        }
        let seq = self.tx1_id;
        self.tx1_id = seq + 1;
        let msg = CSMsg::new(self.shard_id, SHARD_NONE, seq, tx, author, Vec::new());
        let order = shuffle_node_id_list(self.shard_size, &msg.inner_tx_hash);
        let mut send = false;
        let mut i: usize = 0;
        while i < self.cs_sender_nums
            invariant
                i <= self.cs_sender_nums,
                self.cs_sender_nums <= order@.len(),
                send == exists|j: int| 0 <= j < i && order@[j] == self.node_id,
            decreases self.cs_sender_nums - i,
        {
            if order[i] == self.node_id {
                send = true;
            }
            i = i + 1;
        }
        Some(SendPlan { msg, send, receivers: Vec::new() })
    }
}

/// Whether node `node_id` is one of the receivers of relayed transaction `tx`.
pub open spec fn is_receiver_of(tx: Transaction, shard_size: usize, cs_rev_nums: usize, node_id: usize) -> bool {
    among_first(msg_order(shard_size, tx), cs_rev_nums as int, node_id)
}

/// Whether a transaction in a batch of this shard's DAG is a relayed one,
/// with a threshold proof, of which this node is a receiver.
pub open spec fn watches(tx: Transaction, node_id: usize, shard_size: usize, cs_rev_nums: usize) -> bool {
    tx.source_shard != SHARD_NONE && tx.cs_proof@.len() > 0 && is_receiver_of(tx, shard_size, cs_rev_nums, node_id)
}

/// The book after a remote append of `id`: appended with nothing pending,
/// or, when already executed, still executed with nothing pending.
pub open spec fn remote_append(m: Map<CSMsgId, MsgState>, id: CSMsgId) -> Map<CSMsgId, MsgState> {
    let status = if status_in(m, id) == Some(CSMsgStatus::Executed) {
        CSMsgStatus::Executed
    } else {
        CSMsgStatus::Appended
    };
    m.insert(id, MsgState { status, sigs: Seq::empty(), waiters: Seq::empty() })
}

/// The waiters a remote append of `id` wakes: all those registered for it.
pub open spec fn remote_woken(m: Map<CSMsgId, MsgState>, id: CSMsgId) -> Seq<u64> {
    if m.contains_key(id) {
        m[id].waiters
    } else {
        Seq::empty()
    }
}

/// The book and the woken waiters after watching `txs` in order: each watched
/// transaction's message is appended remotely; every other message is untouched.
pub open spec fn monitor_fold(
    m: Map<CSMsgId, MsgState>,
    txs: Seq<Transaction>,
    node_id: usize,
    shard_size: usize,
    cs_rev_nums: usize,
) -> (Map<CSMsgId, MsgState>, Seq<u64>)
    decreases txs.len(),
{
    if txs.len() == 0 {
        (m, Seq::empty())
    } else {
        let (m1, w1) = monitor_fold(m, txs.drop_last(), node_id, shard_size, cs_rev_nums);
        let tx = txs.last();
        let id = CSMsgId { source_shard: tx.source_shard, sequence: tx.csmsg_sequence };
        if watches(tx, node_id, shard_size, cs_rev_nums) {
            (remote_append(m1, id), w1 + remote_woken(m1, id))
        } else {
            (m1, w1)
        }
    }
}

/// Watches a batch that reached this shard's DAG: every relayed transaction
/// in it with a threshold proof, of which this node is a receiver, has its
/// message marked appended remotely (see `monitor_fold`). Returns the
/// waiters to wake, in order.
pub fn monitor_csmsg_appending(
    book: &mut CSMsgStore,
    txs: &Vec<Transaction>,
    node_id: usize,
    shard_size: usize,
    cs_rev_nums: usize,
) -> (r: Vec<u64>)
    requires
        old(book).wf(),
    ensures
        final(book).wf(),
        final(book).threshold() == old(book).threshold(),
        (final(book)@, r@) == monitor_fold(old(book)@, txs@, node_id, shard_size, cs_rev_nums),
{
    let mut woken: Vec<u64> = Vec::new();
    let mut i: usize = 0;
    assert(txs@.subrange(0, 0) =~= Seq::<Transaction>::empty());
    while i < txs.len()
        invariant
            book.wf(),
            book.threshold() == old(book).threshold(),
            i <= txs@.len(),
            (book@, woken@) == monitor_fold(old(book)@, txs@.subrange(0, i as int), node_id, shard_size, cs_rev_nums),
        decreases txs@.len() - i,
    {
        let tx = &txs[i];
        proof {
            assert(txs@.subrange(0, i + 1).drop_last() =~= txs@.subrange(0, i as int));
            assert(txs@.subrange(0, i + 1).last() == txs@[i as int]);
        }
        let ghost b0 = book@;
        let ghost w0 = woken@;
        match tx.get_csmsg_id() {
            None => {},
            Some(id) => {
                if tx.cs_proof.len() > 0 {
                    let digest = tx.digest();
                    let order = shuffle_node_id_list(shard_size, &digest);
                    let mut recv = false;
                    let mut k: usize = 0;
                    while k < cs_rev_nums && k < order.len()
                        invariant
                            k <= order@.len(),
                            k <= cs_rev_nums,
                            recv == exists|j: int| 0 <= j < k && order@[j] == node_id,
                        decreases order@.len() - k,
                    {
                        if order[k] == node_id {
                            recv = true;
                        }
                        k = k + 1;
                    }
                    assert(recv == among_first(order@, cs_rev_nums as int, node_id));
                    if recv {
                        let (_, mut w) = book.update_appended(id, AppendedType::Remote);
                        woken.append(&mut w);
                        assert(book@ =~= remote_append(b0, id));
                        assert(woken@ =~= w0 + remote_woken(b0, id));
                    }
                }
            },
        }
        i = i + 1;
    }
    assert(txs@.subrange(0, txs@.len() as int) =~= txs@);
    woken
}

} // verus!
