use vstd::prelude::*;
use crate::messages::Transaction;

verus! {

/// A sealed batch: its transactions, and how many of them are new client transfers.
pub struct Batch {
    pub external_tx_nums: usize,
    pub tx_list: Vec<Transaction>,
}

/// Whether a transaction counts as a new client transfer (see
/// `Transaction::count_packaged_external_tx`).
pub open spec fn is_packaged_external(t: Transaction) -> bool {
    t.step == 0 && !(t.final_receiver is Some && t.receiver@ == t.final_receiver->Some_0@)
}

/// `a + b`, held at the largest usize.
pub open spec fn sat_add(a: usize, b: usize) -> usize {
    if a + b > usize::MAX {
        usize::MAX
    } else {
        (a + b) as usize
    }
}

/// Gathers a worker's transactions into batches: a batch is sealed once its
/// encoded size reaches `batch_size`, or when the delay timer fires with a
/// batch under way.
pub struct BatchMaker {
    batch_size: usize,
    max_batch_delay: u64,
    current_batch: Vec<Transaction>,
    current_batch_size: usize,
    current_batch_external_txs: usize,
}

impl BatchMaker {
    /// Encoded size, in bytes, at which a batch is sealed.
    pub closed spec fn limit(&self) -> usize {
        self.batch_size
    }

    /// Milliseconds after which a batch under way is sealed anyway.
    pub closed spec fn delay(&self) -> u64 {
        self.max_batch_delay
    }

    pub fn max_batch_delay(&self) -> (r: u64)
        ensures
            r == self.delay(),
    {
        self.max_batch_delay
    }
    /// The transactions of the batch under way.
    pub closed spec fn current(&self) -> Seq<Transaction> {
        self.current_batch@
    }

    /// Encoded size of the batch under way, in bytes.
    pub closed spec fn size(&self) -> usize {
        self.current_batch_size
    }

    /// New client transfers in the batch under way.
    pub closed spec fn external(&self) -> usize {
        self.current_batch_external_txs
    }

    pub fn new(batch_size: usize, max_batch_delay: u64) -> (r: BatchMaker)
        ensures
            r.limit() == batch_size,
            r.delay() == max_batch_delay,
            r.current().len() == 0,
            r.size() == 0,
            r.external() == 0,
    {
        BatchMaker {
            batch_size,
            max_batch_delay,
            current_batch: Vec::new(),
            current_batch_size: 0,
            current_batch_external_txs: 0,
        }
    }

    fn seal(&mut self) -> (r: Batch)
        ensures
            r.tx_list@ == old(self).current(),
            r.external_tx_nums == old(self).external(),
            final(self).current().len() == 0,
            final(self).size() == 0,
            final(self).external() == 0,
            final(self).limit() == old(self).limit(),
            final(self).delay() == old(self).delay(),
    {
        let mut txs: Vec<Transaction> = Vec::new();
        std::mem::swap(&mut txs, &mut self.current_batch);
        let ext = self.current_batch_external_txs;
        self.current_batch_size = 0;
        self.current_batch_external_txs = 0;
        Batch { external_tx_nums: ext, tx_list: txs }
    }

    /// Adds a transaction whose encoding takes `encoded_len` bytes; returns
    /// the sealed batch when the batch under way reaches the size limit.
    pub fn add_transaction(&mut self, tx: Transaction, encoded_len: usize) -> (r: Option<Batch>)
        ensures
            final(self).limit() == old(self).limit(),
            final(self).delay() == old(self).delay(),
            ({
                let size = sat_add(old(self).size(), encoded_len);
                let ext = sat_add(
                    old(self).external(),
                    if is_packaged_external(tx) {
                        1usize
                    } else {
                        0usize
                    },
                );
                if size >= old(self).limit() {
                    &&& r is Some
                    &&& r->Some_0.tx_list@ == old(self).current().push(tx)
                    &&& r->Some_0.external_tx_nums == ext
                    &&& final(self).current().len() == 0
                    &&& final(self).size() == 0
                    &&& final(self).external() == 0
                } else {
                    &&& r is None
                    &&& final(self).current() == old(self).current().push(tx)
                    &&& final(self).size() == size
                    &&& final(self).external() == ext
                }
            }),
    {
        let c = tx.count_packaged_external_tx() as usize;
        self.current_batch_external_txs = self.current_batch_external_txs.saturating_add(c);
        self.current_batch_size = self.current_batch_size.saturating_add(encoded_len);
        self.current_batch.push(tx);
        if self.current_batch_size >= self.batch_size {
            Some(self.seal())
        } else {
            None
        }
    }

    /// The delay timer fired: seals the batch under way, if it holds anything.
    pub fn on_timer(&mut self) -> (r: Option<Batch>)
        ensures
            final(self).limit() == old(self).limit(),
            final(self).delay() == old(self).delay(),
            old(self).current().len() == 0 ==> r is None && final(self).current() == old(self).current()
                && final(self).size() == old(self).size() && final(self).external() == old(self).external(),
            old(self).current().len() > 0 ==> r is Some && r->Some_0.tx_list@ == old(self).current()
                && r->Some_0.external_tx_nums == old(self).external() && final(self).current().len() == 0
                && final(self).size() == 0 && final(self).external() == 0,
    {
        if self.current_batch.len() == 0 {
            None
        } else {
            Some(self.seal())
        }
    }
}

} // verus!
