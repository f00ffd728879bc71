use vstd::prelude::*;
use crate::bytes::{be_bytes, bytes_eq, le_bytes, push_all, push_array, push_be, push_le};
use crate::csmsg_store::{CSMsgId, Signature};
use crate::cs_msg_verifier::Digest;
use crate::primitives::{sha512_head, sha512_head_of};

verus! {

/// Index of a shard.
pub type ShardId = usize;

/// Shard index used where a transaction was not relayed, or where a message
/// goes to the shard-agnostic broker client.
pub const SHARD_NONE: usize = usize::MAX;

/// A balance delta on one account: positive credits, negative debits.
#[derive(Clone, Debug)]
pub struct RWSet {
    pub addr: Vec<u8>,
    pub value: i64,
}

/// The balance deltas one shard applies in one execution step.
#[derive(Clone, Debug)]
pub struct Frame {
    pub shardid: ShardId,
    pub rwset: Vec<RWSet>,
}

/// Sum of the deltas of a sequence of read/write entries.
pub open spec fn sum_values(rw: Seq<RWSet>) -> int
    decreases rw.len(),
{
    if rw.len() == 0 {
        0
    } else {
        sum_values(rw.drop_last()) + rw.last().value
    }
}

/// Sum of the deltas over all frames of a payload.
pub open spec fn payload_sum(p: Seq<Frame>) -> int
    decreases p.len(),
{
    if p.len() == 0 {
        0
    } else {
        payload_sum(p.drop_last()) + sum_values(p.last().rwset@)
    }
}

/// The bytes that a run of read/write entries contributes to a payload hash:
/// each address, then its delta in eight little-endian bytes.
pub open spec fn rwset_bytes(rw: Seq<RWSet>) -> Seq<u8>
    decreases rw.len(),
{
    if rw.len() == 0 {
        Seq::empty()
    } else {
        rwset_bytes(rw.drop_last()) + rw.last().addr@ + le_bytes((rw.last().value as u64) as nat, 8)
    }
}

/// The bytes hashed into a payload hash: for each frame its shard in eight
/// big-endian bytes, then its entries.
pub open spec fn payload_bytes(p: Seq<Frame>) -> Seq<u8>
    decreases p.len(),
{
    if p.len() == 0 {
        Seq::empty()
    } else {
        payload_bytes(p.drop_last()) + be_bytes(p.last().shardid as nat, 8) + rwset_bytes(
            p.last().rwset@,
        )
    }
}

fn push_rwsets(out: &mut Vec<u8>, rw: &Vec<RWSet>)
    ensures
        final(out)@ == old(out)@ + rwset_bytes(rw@),
{
    let mut j: usize = 0;
    assert(rw@.subrange(0, 0) =~= Seq::<RWSet>::empty());
    assert(old(out)@ + Seq::<u8>::empty() =~= old(out)@);
    while j < rw.len()
        invariant
            j <= rw@.len(),
            out@ == old(out)@ + rwset_bytes(rw@.subrange(0, j as int)),
        decreases rw@.len() - j,
    {
        let ghost prev = out@;
        push_all(out, &rw[j].addr);
        push_le(out, rw[j].value as u64 as u128, 8);
        assert(rw@.subrange(0, j + 1).drop_last() =~= rw@.subrange(0, j as int));
        assert(out@ =~= old(out)@ + rwset_bytes(rw@.subrange(0, j + 1)));
        j = j + 1;
    }
    assert(rw@.subrange(0, rw@.len() as int) =~= rw@);
}

/// The bytes hashed into a payload hash.
pub fn payload_message(p: &Vec<Frame>) -> (r: Vec<u8>)
    ensures
        r@ == payload_bytes(p@),
{
    let mut out: Vec<u8> = Vec::new();
    let mut i: usize = 0;
    assert(p@.subrange(0, 0) =~= Seq::<Frame>::empty());
    while i < p.len()
        invariant
            i <= p@.len(),
            out@ == payload_bytes(p@.subrange(0, i as int)),
        decreases p@.len() - i,
    {
        push_be(&mut out, p[i].shardid as u128, 8);
        push_rwsets(&mut out, &p[i].rwset);
        assert(p@.subrange(0, i + 1).drop_last() =~= p@.subrange(0, i as int));
        i = i + 1;
    }
    assert(p@.subrange(0, p@.len() as int) =~= p@);
    out
}

/// A transfer as the client states it, before it is cut into frames.
#[derive(Clone, Debug)]
pub struct CoreTx {
    pub sample: u8,
    pub counter: u64,
    pub sender: Vec<u8>,
    pub receiver: Vec<u8>,
    pub amount: i64,
    pub payload: Vec<RWSet>,
}

/// The bytes hashed into a client transfer's digest: the two ends, the
/// amount in eight big-endian bytes, then the entries.
pub open spec fn core_digest_bytes(t: CoreTx) -> Seq<u8> {
    t.sender@ + t.receiver@ + be_bytes((t.amount as u64) as nat, 8) + rwset_bytes(t.payload@)
}

impl CoreTx {
    /// The transfer's digest: the first 32 bytes of the SHA-512 of its fields.
    pub fn digest(&self) -> (r: Digest)
        ensures
            r@ == sha512_head_of(core_digest_bytes(*self)),
    {
        let mut m: Vec<u8> = Vec::new();
        push_all(&mut m, &self.sender);
        push_all(&mut m, &self.receiver);
        push_be(&mut m, self.amount as u64 as u128, 8);
        push_rwsets(&mut m, &self.payload);
        assert(m@ =~= core_digest_bytes(*self));
        sha512_head(&m)
    }
}

/// Size in bytes below which an encoded transaction is padded up.
pub const MIN_TX_SIZE: usize = 512;

/// The envelope shared by intra- and cross-shard transfers.
#[derive(Clone, Debug)]
pub struct Transaction {
    /// 0 marks a sample transaction, used to measure latency.
    pub sample: u8,
    pub counter: u64,
    pub tx_hash: Digest,
    pub signature: Signature,
    pub sender: Vec<u8>,
    pub receiver: Vec<u8>,
    pub amount: i64,
    pub timestamp: u128,
    pub nonce: i32,
    pub payload_hash: Digest,
    pub rwset_num: usize,
    pub payload: Vec<Frame>,
    pub original_sender: Option<Vec<u8>>,
    pub final_receiver: Option<Vec<u8>>,
    pub involved_shard_num: usize,
    /// Index of the frame to execute next.
    pub step: usize,
    pub cs_proof: Vec<(ShardId, Signature)>,
    /// The shard that relayed it; SHARD_NONE when it was not relayed.
    pub source_shard: ShardId,
    pub csmsg_sequence: u64,
    pub padding: Vec<u8>,
}

/// The bytes hashed into a transaction's digest.
pub open spec fn tx_digest_bytes(t: Transaction) -> Seq<u8> {
    le_bytes(t.sample as nat, 1) + le_bytes(t.counter as nat, 8) + t.sender@ + t.receiver@
        + le_bytes((t.amount as u64) as nat, 8) + le_bytes((t.nonce as u32) as nat, 4)
        + t.payload_hash@ + be_bytes(t.rwset_num as nat, 8) + be_bytes(t.step as nat, 8)
}

impl Transaction {
    /// A fresh transaction: not relayed, at its first frame, with no proofs and
    /// no padding yet, its payload hash computed over the frames.
    pub fn new(
        sender: Vec<u8>,
        recv: Vec<u8>,
        amount: i64,
        payload: Vec<Frame>,
        payload_len: usize,
        involved_shard_num: usize,
        tx_sample: u8,
        tx_counter: u64,
        timestamp: u128,
        original_sender: Option<Vec<u8>>,
        final_receiver: Option<Vec<u8>>,
    ) -> (r: Transaction)
        ensures
            r.sender@ == sender@,
            r.receiver@ == recv@,
            r.amount == amount,
            r.payload@ == payload@,
            r.rwset_num == payload_len,
            r.involved_shard_num == involved_shard_num,
            r.sample == tx_sample,
            r.counter == tx_counter,
            r.timestamp == timestamp,
            r.original_sender == original_sender,
            r.final_receiver == final_receiver,
            r.step == 0,
            r.nonce == 0,
            r.source_shard == SHARD_NONE,
            r.csmsg_sequence == 0,
            r.cs_proof@.len() == 0,
            r.padding@.len() == 0,
            r.tx_hash@ == Seq::new(32, |i: int| 0u8),
            r.signature@.len() == 0,
            r.payload_hash@ == sha512_head_of(payload_bytes(payload@)),
    {
        let msg = payload_message(&payload);
        let payload_hash = sha512_head(&msg);
        Transaction {
            sample: tx_sample,
            counter: tx_counter,
            tx_hash: [0u8; 32],
            signature: Vec::new(),
            sender,
            receiver: recv,
            amount,
            timestamp,
            nonce: 0,
            payload_hash,
            rwset_num: payload_len,
            payload,
            original_sender,
            final_receiver,
            involved_shard_num,
            step: 0,
            cs_proof: Vec::new(),
            source_shard: SHARD_NONE,
            csmsg_sequence: 0,
            padding: Vec::new(),
        }
    }

    /// Pads the transaction with zero bytes so that its encoding, now
    /// `encoded_len` bytes long, reaches MIN_TX_SIZE.
    pub fn pad_to(&mut self, encoded_len: usize)
        ensures
            final(self).padding@ == (if encoded_len < MIN_TX_SIZE {
                Seq::new((MIN_TX_SIZE - encoded_len) as nat, |i: int| 0u8)
            } else {
                old(self).padding@
            }),
            *final(self) == (Transaction { padding: final(self).padding, ..*old(self) }),
    {
        if encoded_len < MIN_TX_SIZE {
            let n = MIN_TX_SIZE - encoded_len;
            let mut pad: Vec<u8> = Vec::new();
            let mut i: usize = 0;
            while i < n
                invariant
                    i <= n,
                    pad@ == Seq::new(i as nat, |k: int| 0u8),
                decreases n - i,
            {
                pad.push(0u8);
                i = i + 1;
                assert(pad@ =~= Seq::new(i as nat, |k: int| 0u8));
            }
            self.padding = pad;
        }
    }

    /// The transaction's digest: the first 32 bytes of the SHA-512 of its
    /// identifying fields.
    pub fn digest(&self) -> (r: Digest)
        ensures
            r@ == sha512_head_of(tx_digest_bytes(*self)),
    {
        let mut m: Vec<u8> = Vec::new();
        push_le(&mut m, self.sample as u128, 1);
        push_le(&mut m, self.counter as u128, 8);
        push_all(&mut m, &self.sender);
        push_all(&mut m, &self.receiver);
        push_le(&mut m, self.amount as u64 as u128, 8);
        push_le(&mut m, self.nonce as u32 as u128, 4);
        push_array(&mut m, &self.payload_hash);
        push_be(&mut m, self.rwset_num as u128, 8);
        push_be(&mut m, self.step as u128, 8);
        assert(m@ =~= tx_digest_bytes(*self));
        sha512_head(&m)
    }

    pub fn is_sample_tx(&self) -> (r: bool)
        ensures
            r == (self.sample == 0),
    {
        self.sample == 0
    }

    /// The identity of the cross-shard message that carried this transaction,
    /// or None when it was not relayed.
    pub fn get_csmsg_id(&self) -> (r: Option<CSMsgId>)
        ensures
            r == (if self.source_shard == SHARD_NONE {
                None
            } else {
                Some(CSMsgId { source_shard: self.source_shard, sequence: self.csmsg_sequence })
            }),
    {
        if self.source_shard == SHARD_NONE {
            None
        } else {
            Some(CSMsgId { source_shard: self.source_shard, sequence: self.csmsg_sequence })
        }
    }

    /// 1 when this transaction counts as a new client transfer packed into a
    /// batch: at its first frame, and not the second leg of a broker transfer
    /// (whose receiver is the final receiver).
    pub fn count_packaged_external_tx(&self) -> (r: u32)
        ensures
            r == (if self.step == 0 && !(self.final_receiver is Some
                && self.receiver@ == self.final_receiver->Some_0@) {
                1u32
            } else {
                0u32
            }),
    {
        if self.step != 0 {
            return 0;
        }
        match &self.final_receiver {
            None => 1,
            Some(fr) => if bytes_eq(&self.receiver, fr) {
                0
            } else {
                1
            },
        }
    }

    /// 1 when the transfer involves more than one shard.
    pub fn count_cs_tx(&self) -> (r: u32)
        ensures
            r == (if self.involved_shard_num > 1 {
                1u32
            } else {
                0u32
            }),
    {
        if self.involved_shard_num > 1 {
            1
        } else {
            0
        }
    }

    /// Attaches the assembled threshold signature of the shard that relayed it.
    pub fn set_thres_sig(&mut self, thres_sig: Signature, source_shard: ShardId)
        ensures
            final(self).cs_proof@.len() == old(self).cs_proof@.len() + 1,
            final(self).cs_proof@.last().0 == source_shard,
            final(self).cs_proof@.last().1@ == thres_sig@,
            final(self).cs_proof@.drop_last() == old(self).cs_proof@,
            *final(self) == (Transaction { cs_proof: final(self).cs_proof, ..*old(self) }),
    {
        self.cs_proof.push((source_shard, thres_sig));
        assert(self.cs_proof@.drop_last() =~= old(self).cs_proof@);
    }

    pub fn set_csmsg_sequence(&mut self, csmsg_seq: u64)
        ensures
            *final(self) == (Transaction { csmsg_sequence: csmsg_seq, ..*old(self) }),
    {
        self.csmsg_sequence = csmsg_seq;
    }

    /// Moves the transaction on to its next frame as relayed by `source_shard`,
    /// returning the shard of that frame.
    pub fn update_relay_info(&mut self, source_shard: ShardId) -> (r: ShardId)
        requires
            old(self).step + 1 < old(self).payload@.len(),
        ensures
            *final(self) == (Transaction {
                step: (old(self).step + 1) as usize,
                source_shard,
                ..*old(self)
            }),
            r == old(self).payload@[old(self).step + 1].shardid,
    {
        let _n = self.payload.len();
        self.step = self.step + 1;
        self.source_shard = source_shard;
        self.payload[self.step].shardid
    }
}

/// A cross-shard envelope: a transaction relayed from one shard to another,
/// with a partial threshold signature over its digest.
#[derive(Clone, Debug)]
pub struct CSMsg {
    pub source_shard: ShardId,
    pub target_shard: ShardId,
    pub csmsg_sequence: u64,
    pub tx: Transaction,
    /// Digest of the inner transaction, taken before its threshold signature
    /// was attached: the message's seed for choosing senders and receivers.
    pub inner_tx_hash: Digest,
    pub thres_sig: Signature,
    pub author: Vec<u8>,
    pub signature: Signature,
}

/// The bytes hashed into a cross-shard message's digest.
pub open spec fn csmsg_digest_bytes(m: CSMsg) -> Seq<u8> {
    le_bytes(m.source_shard as nat, 8) + le_bytes(m.target_shard as nat, 8) + le_bytes(
        m.csmsg_sequence as nat,
        8,
    )
}

impl CSMsg {
    /// Wraps `tx` for `target_shard`: the transaction takes the message's
    /// sequence, and the message takes the transaction's digest as its seed and
    /// the partial signature this node made over it.
    pub fn new(
        source_shard: ShardId,
        target_shard: ShardId,
        csmsg_seq: u64,
        tx: Transaction,
        author: Vec<u8>,
        thres_sig: Signature,
    ) -> (r: CSMsg)
        ensures
            r.source_shard == source_shard,
            r.target_shard == target_shard,
            r.csmsg_sequence == csmsg_seq,
            r.tx == (Transaction { csmsg_sequence: csmsg_seq, ..tx }),
            r.inner_tx_hash@ == sha512_head_of(tx_digest_bytes(r.tx)),
            r.thres_sig@ == thres_sig@,
            r.author@ == author@,
            r.signature@.len() == 0,
    {
        let mut tx = tx;
        tx.set_csmsg_sequence(csmsg_seq);
        let inner_tx_hash = tx.digest();
        CSMsg {
            source_shard,
            target_shard,
            csmsg_sequence: csmsg_seq,
            tx,
            inner_tx_hash,
            thres_sig,
            author,
            signature: Vec::new(),
        }
    }

    /// The message's digest over its routing fields.
    pub fn digest(&self) -> (r: Digest)
        ensures
            r@ == sha512_head_of(csmsg_digest_bytes(*self)),
    {
        let mut m: Vec<u8> = Vec::new();
        push_le(&mut m, self.source_shard as u128, 8);
        push_le(&mut m, self.target_shard as u128, 8);
        push_le(&mut m, self.csmsg_sequence as u128, 8);
        assert(m@ =~= csmsg_digest_bytes(*self));
        sha512_head(&m)
    }

    /// The identity under which the book tracks this message.
    pub fn get_csmsg_id(&self) -> (r: CSMsgId)
        ensures
            r == (CSMsgId { source_shard: self.source_shard, sequence: self.csmsg_sequence }),
    {
        CSMsgId { source_shard: self.source_shard, sequence: self.csmsg_sequence }
    }
}

} // verus!
