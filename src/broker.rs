use vstd::prelude::*;
use std::collections::HashMap;
use crate::acc_shard::{address_from_hex, parse_address, ShardPolicy, TableError};
use crate::state_store::BrokerItem;
use vstd::utf8::encode_utf8;
use crate::bytes::{bytes_eq, copy_bytes};
use crate::cs_msg_verifier::shuffle_node_id_list;
use crate::messages::{payload_sum, sum_values, CoreTx, Frame, RWSet, ShardId, Transaction};
use crate::primitives::node_order_of;

verus! {

/// Size of the broker pool drawn for an epoch.
pub const BROKER_NUM: usize = 40;

/// Size of the broker list that the pool is drawn from.
pub const BROKER_CANDIDATES: usize = 100;

/// The `target_num` brokers that a seed picks: the first entries of the node
/// order of `total_num` keyed by 32 copies of the seed.
pub open spec fn selected_brokers(brokers: Seq<Vec<u8>>, total_num: nat, target_num: nat, seed: u8) -> Seq<
    Seq<u8>,
> {
    Seq::new(
        target_num,
        |i: int| brokers[node_order_of(total_num, Seq::new(32, |j: int| seed))[i] as int]@,
    )
}

/// Draws `target_num` brokers out of the first `total_num` of `brokers`,
/// deterministically from `seed`.
pub fn random_select_brokers(brokers: &Vec<Vec<u8>>, total_num: usize, target_num: usize, seed: u8) -> (r:
    Vec<Vec<u8>>)
    requires
        target_num <= total_num,
        total_num <= brokers@.len(),
    ensures
        r@.len() == target_num,
        forall|i: int|
            0 <= i < target_num ==> (#[trigger] r@[i])@ == selected_brokers(
                brokers@,
                total_num as nat,
                target_num as nat,
                seed,
            )[i],
{
    let key: [u8; 32] = [seed; 32];
    assert(key@ =~= Seq::new(32, |j: int| seed));
    let order = shuffle_node_id_list(total_num, &key);
    let mut out: Vec<Vec<u8>> = Vec::new();
    let mut i: usize = 0;
    while i < target_num
        invariant
            i <= target_num,
            target_num <= total_num,
            total_num <= brokers@.len(),
            order@ == node_order_of(total_num as nat, Seq::new(32, |j: int| seed)),
            order@.len() == total_num,
            forall|k: int| 0 <= k < order@.len() ==> order@[k] < total_num,
            out@.len() == i,
            forall|k: int|
                0 <= k < i ==> (#[trigger] out@[k])@ == selected_brokers(
                    brokers@,
                    total_num as nat,
                    target_num as nat,
                    seed,
                )[k],
        decreases target_num - i,
    {
        let b = copy_bytes(&brokers[order[i]]);
        out.push(b);
        i = i + 1;
    }
    out
}

/// Reads the addresses of a broker list, in order.
pub fn broker_addresses(items: &Vec<BrokerItem>) -> (r: Result<Vec<Vec<u8>>, TableError>)
    ensures
        match r {
            Ok(v) => v@.len() == items@.len() && forall|i: int|
                0 <= i < items@.len() ==> parse_address(encode_utf8((#[trigger] items@[i]).account@))
                    == Some(v@[i]@),
            Err(TableError::BadAddress(k)) => k < items@.len() && parse_address(
                encode_utf8(items@[k as int].account@),
            ) is None && forall|i: int|
                0 <= i < k ==> parse_address(encode_utf8((#[trigger] items@[i]).account@)) is Some,
        },
{
    let mut out: Vec<Vec<u8>> = Vec::new();
    let mut i: usize = 0;
    while i < items.len()
        invariant
            i <= items@.len(),
            out@.len() == i,
            forall|j: int|
                0 <= j < i ==> parse_address(encode_utf8((#[trigger] items@[j]).account@)) == Some(
                    out@[j]@,
                ),
        decreases items@.len() - i,
    {
        match address_from_hex(items[i].account.as_str()) {
            Some(a) => out.push(a),
            None => {
                return Err(TableError::BadAddress(i));
            },
        }
        i = i + 1;
    }
    Ok(out)
}

/// A first leg waiting for its confirmation.
pub struct Tx1Msg {
    pub sender: Vec<u8>,
    pub receiver: Vec<u8>,
    pub amount: i64,
    pub sample: u8,
    pub counter: u64,
    pub broker: Vec<u8>,
}

/// What the manager holds for one pending first leg.
pub struct Tx1View {
    pub sender: Seq<u8>,
    pub receiver: Seq<u8>,
    pub amount: i64,
    pub sample: u8,
    pub broker: Seq<u8>,
}

pub open spec fn tx1_view(m: Tx1Msg) -> Tx1View {
    Tx1View {
        sender: m.sender@,
        receiver: m.receiver@,
        amount: m.amount,
        sample: m.sample,
        broker: m.broker@,
    }
}

/// The broker pool of an epoch and the first legs waiting for confirmation,
/// by counter.
pub struct BrokerManager {
    broker_addrs: Vec<Vec<u8>>,
    tx1s: HashMap<u64, Tx1Msg>,
}

impl BrokerManager {
    pub closed spec fn wf(&self) -> bool {
        &&& self.broker_addrs@.len() > 0
        &&& forall|k: u64|
            #[trigger] self.tx1s@.contains_key(k) ==> self.tx1s@[k].receiver@.len() > 0
                && self.tx1s@[k].amount > i64::MIN && self.tx1s@[k].counter == k
    }

    /// The pool, in order.
    pub closed spec fn brokers(&self) -> Seq<Seq<u8>> {
        self.broker_addrs@.map_values(|b: Vec<u8>| b@)
    }

    /// The pending first legs, by counter.
    pub closed spec fn pending_legs(&self) -> Map<u64, Tx1View> {
        self.tx1s@.map_values(|m: Tx1Msg| tx1_view(m))
    }

    pub open spec fn is_broker_spec(&self, a: Seq<u8>) -> bool {
        self.brokers().contains(a)
    }

    /// The pool drawn for `epoch` out of the first BROKER_CANDIDATES of `brokers`.
    pub fn new(brokers: &Vec<Vec<u8>>, epoch: usize) -> (r: BrokerManager)
        requires
            brokers@.len() >= BROKER_CANDIDATES,
        ensures
            r.wf(),
            r.pending_legs() == Map::<u64, Tx1View>::empty(),
            r.brokers() == selected_brokers(
                brokers@,
                BROKER_CANDIDATES as nat,
                BROKER_NUM as nat,
                epoch as u8,
            ),
    {
        let pool = random_select_brokers(brokers, BROKER_CANDIDATES, BROKER_NUM, epoch as u8);
        let r = BrokerManager { broker_addrs: pool, tx1s: HashMap::new() };
        assert(r.brokers() =~= selected_brokers(
            brokers@,
            BROKER_CANDIDATES as nat,
            BROKER_NUM as nat,
            epoch as u8,
        ));
        assert(r.pending_legs() =~= Map::<u64, Tx1View>::empty());
        r
    }

    /// Whether `addr` is in the pool.
    pub fn is_broker(&self, addr: &Vec<u8>) -> (r: bool)
        requires
            self.wf(),
        ensures
            r == self.is_broker_spec(addr@),
    {
        let mut i: usize = 0;
        while i < self.broker_addrs.len()
            invariant
                i <= self.broker_addrs@.len(),
                forall|j: int| 0 <= j < i ==> self.broker_addrs@[j]@ != addr@,
            decreases self.broker_addrs@.len() - i,
        {
            if bytes_eq(&self.broker_addrs[i], addr) {
                assert(self.brokers()[i as int] == addr@);
                return true;
            }
            i = i + 1;
        }
        assert(!self.brokers().contains(addr@)) by {
            if self.brokers().contains(addr@) {
                let j = choose|j: int| 0 <= j < self.brokers().len() && self.brokers()[j] == addr@;
                assert(self.broker_addrs@[j]@ == addr@);
            }
        }
        false
    }

    /// The broker that pivots transfers: the first of the pool.
    pub fn get_broker(&self) -> (r: Vec<u8>)
        requires
            self.wf(),
        ensures
            r@ == self.brokers()[0],
    {
        copy_bytes(&self.broker_addrs[0])
    }

    /// Removes and returns the pending first leg under `tx_counter`.
    pub fn delete_tx1(&mut self, tx_counter: u64) -> (r: Option<Tx1Msg>)
        requires
            old(self).wf(),
        ensures
            final(self).wf(),
            final(self).brokers() == old(self).brokers(),
            final(self).pending_legs() == old(self).pending_legs().remove(tx_counter),
            match r {
                Some(m) => old(self).pending_legs().contains_key(tx_counter) && old(
                    self,
                ).pending_legs()[tx_counter] == tx1_view(m) && m.counter == tx_counter
                    && m.receiver@.len() > 0 && m.amount > i64::MIN,
                None => !old(self).pending_legs().contains_key(tx_counter),
            },
    {
        broadcast use vstd::std_specs::hash::group_hash_axioms;

        let r = self.tx1s.remove(&tx_counter);
        assert(self.pending_legs() =~= old(self).pending_legs().remove(tx_counter));
        r
    }

    /// Records a first leg as pending under `tx_counter`, replacing any earlier one.
    pub fn add_tx1(&mut self, tx1: Tx1Msg, tx_counter: u64)
        requires
            old(self).wf(),
            tx1.receiver@.len() > 0,
            tx1.amount > i64::MIN,
        ensures
            final(self).wf(),
            final(self).brokers() == old(self).brokers(),
            final(self).pending_legs() == old(self).pending_legs().insert(tx_counter, tx1_view(tx1)),
    {
        broadcast use vstd::std_specs::hash::group_hash_axioms;

        let m = Tx1Msg { counter: tx_counter, ..tx1 };
        assert(tx1_view(m) == tx1_view(tx1));
        let _ = self.tx1s.insert(tx_counter, m);
        assert(self.pending_legs() =~= old(self).pending_legs().insert(tx_counter, tx1_view(tx1)));
    }
}

/// The single-frame transfer `sender -> receiver` of `amount`, run by `target_shard`.
pub open spec fn transfer_frame(sender: Seq<u8>, receiver: Seq<u8>, amount: i64, f: Frame) -> bool {
    &&& f.rwset@.len() == 2
    &&& f.rwset@[0].addr@ == sender
    &&& f.rwset@[0].value == -amount
    &&& f.rwset@[1].addr@ == receiver
    &&& f.rwset@[1].value == amount
}

/// Builds the one-frame transfer `sender -> receiver` of `amount` for
/// `target_shard`: the sender is debited and the receiver credited the amount.
pub fn assemble_tx(
    sender: Vec<u8>,
    receiver: Vec<u8>,
    amount: i64,
    tx_sample: u8,
    tx_counter: u64,
    target_shard: ShardId,
    involved_shard_num: usize,
    original_sender: Option<Vec<u8>>,
    final_receiver: Option<Vec<u8>>,
    timestamp: u128,
) -> (r: Transaction)
    requires
        amount > i64::MIN,
    ensures
        r.sender@ == sender@,
        r.receiver@ == receiver@,
        r.amount == amount,
        r.sample == tx_sample,
        r.counter == tx_counter,
        r.involved_shard_num == involved_shard_num,
        r.original_sender == original_sender,
        r.final_receiver == final_receiver,
        r.timestamp == timestamp,
        r.step == 0,
        r.rwset_num == 2,
        r.source_shard == crate::messages::SHARD_NONE,
        r.payload@.len() == 1,
        r.payload@[0].shardid == target_shard,
        transfer_frame(sender@, receiver@, amount, r.payload@[0]),
        payload_sum(r.payload@) == 0,
{
    let mut rwsets: Vec<RWSet> = Vec::new();
    rwsets.push(RWSet { addr: copy_bytes(&sender), value: -amount });
    rwsets.push(RWSet { addr: copy_bytes(&receiver), value: amount });
    let mut payload: Vec<Frame> = Vec::new();
    payload.push(Frame { shardid: target_shard, rwset: rwsets });
    proof {
        let f = payload@[0];
        let rw = f.rwset@;
        assert(rw.drop_last().drop_last() =~= Seq::<RWSet>::empty());
        assert(sum_values(rw.drop_last().drop_last()) == 0);
        assert(sum_values(rw.drop_last()) == -amount);
        assert(sum_values(rw) == 0);
        assert(payload@.drop_last() =~= Seq::<Frame>::empty());
        assert(payload_sum(payload@.drop_last()) == 0);
    }
    Transaction::new(
        sender,
        receiver,
        amount,
        payload,
        2,
        involved_shard_num,
        tx_sample,
        tx_counter,
        timestamp,
        original_sender,
        final_receiver,
    )
}

/// Splits client transfers that cross shards into two legs through a broker.
pub struct Broker {
    pub acc2shard: ShardPolicy,
    pub manager: BrokerManager,
}

/// A transfer and the shard to send it to.
pub struct Routed {
    pub tx: Transaction,
    pub target_shard: ShardId,
}

impl Broker {
    pub fn new(acc2shard: ShardPolicy, manager: BrokerManager) -> (r: Broker)
        ensures
            r.acc2shard == acc2shard,
            r.manager == manager,
    {
        Broker { acc2shard, manager }
    }

    /// Turns a client transfer into the transaction to submit. Within one
    /// shard, or when either end is a broker, it is a single transfer (to the
    /// receiver's shard when the sender is a broker, else the sender's). Across
    /// shards it becomes the first leg, sender to broker in the sender's shard,
    /// carrying the original sender and final receiver, and the leg is recorded
    /// as pending under the transfer's counter.
    pub fn convert_tx(&mut self, core_tx: CoreTx, timestamp: u128) -> (r: Routed)
        requires
            old(self).manager.wf(),
            old(self).acc2shard.spec_shard_num() > 0,
            core_tx.sender@.len() > 0,
            core_tx.receiver@.len() > 0,
            core_tx.amount > i64::MIN,
        ensures
            final(self).manager.wf(),
            final(self).acc2shard == old(self).acc2shard,
            final(self).manager.brokers() == old(self).manager.brokers(),
            ({
                let s = core_tx.sender@;
                let rc = core_tx.receiver@;
                let ss = old(self).acc2shard.shard_of(s);
                let rs = old(self).acc2shard.shard_of(rc);
                let sb = old(self).manager.is_broker_spec(s);
                let rb = old(self).manager.is_broker_spec(rc);
                let b = old(self).manager.brokers()[0];
                &&& r.tx.amount == core_tx.amount
                &&& r.tx.counter == core_tx.counter
                &&& r.tx.sample == core_tx.sample
                &&& r.tx.step == 0
                &&& r.tx.payload@.len() == 1
                &&& r.tx.payload@[0].shardid == r.target_shard
                &&& payload_sum(r.tx.payload@) == 0
                &&& if ss != rs && !sb && !rb {
                    &&& r.target_shard == ss
                    &&& r.tx.involved_shard_num == 2
                    &&& r.tx.sender@ == s
                    &&& r.tx.receiver@ == b
                    &&& transfer_frame(s, b, core_tx.amount, r.tx.payload@[0])
                    &&& r.tx.original_sender is Some && r.tx.original_sender->Some_0@ == s
                    &&& r.tx.final_receiver is Some && r.tx.final_receiver->Some_0@ == rc
                    &&& final(self).manager.pending_legs() == old(self).manager.pending_legs().insert(
                        core_tx.counter,
                        Tx1View {
                            sender: s,
                            receiver: rc,
                            amount: core_tx.amount,
                            sample: core_tx.sample,
                            broker: b,
                        },
                    )
                } else {
                    &&& r.target_shard == (if sb {
                        rs
                    } else {
                        ss
                    })
                    &&& r.tx.involved_shard_num == 1
                    &&& r.tx.sender@ == s
                    &&& r.tx.receiver@ == rc
                    &&& transfer_frame(s, rc, core_tx.amount, r.tx.payload@[0])
                    &&& r.tx.original_sender is None
                    &&& r.tx.final_receiver is None
                    &&& final(self).manager.pending_legs() == old(self).manager.pending_legs()
                }
            }),
    {
        let sender_s = self.acc2shard.get_shard(&core_tx.sender);
        let receiver_s = self.acc2shard.get_shard(&core_tx.receiver);
        let sb = self.manager.is_broker(&core_tx.sender);
        let rb = self.manager.is_broker(&core_tx.receiver);
        if sender_s != receiver_s && !sb && !rb {
            let broker = self.manager.get_broker();
            let leg = Tx1Msg {
                sender: copy_bytes(&core_tx.sender),
                receiver: copy_bytes(&core_tx.receiver),
                amount: core_tx.amount,
                sample: core_tx.sample,
                counter: core_tx.counter,
                broker: copy_bytes(&broker),
            };
            self.manager.add_tx1(leg, core_tx.counter);
            let os = Some(copy_bytes(&core_tx.sender));
            let fr = Some(copy_bytes(&core_tx.receiver));
            let tx = assemble_tx(
                core_tx.sender,
                broker,
                core_tx.amount,
                core_tx.sample,
                core_tx.counter,
                sender_s,
                2,
                os,
                fr,
                timestamp,
            );
            Routed { tx, target_shard: sender_s }
        } else {
            let target = if sb {
                receiver_s
            } else {
                sender_s
            };
            let tx = assemble_tx(
                core_tx.sender,
                core_tx.receiver,
                core_tx.amount,
                core_tx.sample,
                core_tx.counter,
                target,
                1,
                None,
                None,
                timestamp,
            );
            Routed { tx, target_shard: target }
        }
    }

    /// Called when the first leg with `tx1`'s counter is confirmed: takes the
    /// pending leg and builds the second leg, broker to final receiver in the
    /// receiver's shard. A counter with no pending leg (already used, or
    /// stale) gives None and changes nothing.
    pub fn process_tx1(&mut self, tx1: &Transaction, timestamp: u128) -> (r: Option<Routed>)
        requires
            old(self).manager.wf(),
            old(self).acc2shard.spec_shard_num() > 0,
        ensures
            final(self).manager.wf(),
            final(self).acc2shard == old(self).acc2shard,
            final(self).manager.brokers() == old(self).manager.brokers(),
            final(self).manager.pending_legs() == old(self).manager.pending_legs().remove(tx1.counter),
            match r {
                None => !old(self).manager.pending_legs().contains_key(tx1.counter),
                Some(out) => {
                    let leg = old(self).manager.pending_legs()[tx1.counter];
                    &&& old(self).manager.pending_legs().contains_key(tx1.counter)
                    &&& out.target_shard == old(self).acc2shard.shard_of(leg.receiver)
                    &&& out.tx.sender@ == leg.broker
                    &&& out.tx.receiver@ == leg.receiver
                    &&& out.tx.amount == leg.amount
                    &&& out.tx.counter == tx1.counter
                    &&& out.tx.sample == leg.sample
                    &&& out.tx.involved_shard_num == 2
                    &&& out.tx.step == 0
                    &&& out.tx.payload@.len() == 1
                    &&& out.tx.payload@[0].shardid == out.target_shard
                    &&& transfer_frame(leg.broker, leg.receiver, leg.amount, out.tx.payload@[0])
                    &&& payload_sum(out.tx.payload@) == 0
                    &&& out.tx.original_sender is Some && out.tx.original_sender->Some_0@
                        == leg.sender
                    &&& out.tx.final_receiver is Some && out.tx.final_receiver->Some_0@
                        == leg.receiver
                },
            },
    {
        match self.manager.delete_tx1(tx1.counter) {
            None => None,
            Some(leg) => {
                let target = self.acc2shard.get_shard(&leg.receiver);
                let fr = Some(copy_bytes(&leg.receiver));
                let tx = assemble_tx(
                    leg.broker,
                    leg.receiver,
                    leg.amount,
                    leg.sample,
                    leg.counter,
                    target,
                    2,
                    Some(leg.sender),
                    fr,
                    timestamp,
                );
                Some(Routed { tx, target_shard: target })
            },
        }
    }
}

} // verus!
