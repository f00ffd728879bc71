use vstd::prelude::*;

verus! {

/// Tuning of the consensus and batching layers.
pub struct Parameters {
    /// Bytes of batch digests after which a primary makes a new header.
    pub header_size: usize,
    /// Milliseconds a primary waits at most between two headers.
    pub max_header_delay: u64,
    /// Rounds kept before garbage collection.
    pub gc_depth: u64,
    /// Milliseconds after which a sync request is retried.
    pub sync_retry_delay: u64,
    /// How many nodes, picked at random, a retried sync request goes to.
    pub sync_retry_nodes: usize,
    /// Bytes after which a worker seals a batch.
    pub batch_size: usize,
    /// Milliseconds after which a worker seals a batch that is not full.
    pub max_batch_delay: u64,
}

impl Default for Parameters {
    fn default() -> (r: Parameters)
        ensures
            r.header_size == 1_000,
            r.max_header_delay == 100,
            r.gc_depth == 50,
            r.sync_retry_delay == 5_000,
            r.sync_retry_nodes == 3,
            r.batch_size == 500_000,
            r.max_batch_delay == 100,
    {
        Parameters {
            header_size: 1_000,
            max_header_delay: 100,
            gc_depth: 50,
            sync_retry_delay: 5_000,
            sync_retry_nodes: 3,
            batch_size: 500_000,
            max_batch_delay: 100,
        }
    }
}

/// Which parameter a reported setting is.
#[derive(Clone, Copy, Debug, PartialEq, Eq, Structural)]
pub enum ParamKind {
    HeaderSize,
    MaxHeaderDelay,
    GcDepth,
    SyncRetryDelay,
    SyncRetryNodes,
    BatchSize,
    MaxBatchDelay,
}

/// One parameter and its value, for the start-up log.
#[derive(Clone, Copy, Debug, PartialEq, Eq, Structural)]
pub struct ParamSetting {
    pub kind: ParamKind,
    pub value: u64,
}

impl Parameters {
    /// The settings to report at start-up, one per parameter, in declaration order.
    pub fn log(&self) -> (r: Vec<ParamSetting>)
        ensures
            r@ == seq![
                ParamSetting { kind: ParamKind::HeaderSize, value: self.header_size as u64 },
                ParamSetting { kind: ParamKind::MaxHeaderDelay, value: self.max_header_delay },
                ParamSetting { kind: ParamKind::GcDepth, value: self.gc_depth },
                ParamSetting { kind: ParamKind::SyncRetryDelay, value: self.sync_retry_delay },
                ParamSetting { kind: ParamKind::SyncRetryNodes, value: self.sync_retry_nodes as u64 },
                ParamSetting { kind: ParamKind::BatchSize, value: self.batch_size as u64 },
                ParamSetting { kind: ParamKind::MaxBatchDelay, value: self.max_batch_delay },
            ],
    {
        let mut r: Vec<ParamSetting> = Vec::new();
        r.push(ParamSetting { kind: ParamKind::HeaderSize, value: self.header_size as u64 });
        r.push(ParamSetting { kind: ParamKind::MaxHeaderDelay, value: self.max_header_delay });
        r.push(ParamSetting { kind: ParamKind::GcDepth, value: self.gc_depth });
        r.push(ParamSetting { kind: ParamKind::SyncRetryDelay, value: self.sync_retry_delay });
        r.push(ParamSetting { kind: ParamKind::SyncRetryNodes, value: self.sync_retry_nodes as u64 });
        r.push(ParamSetting { kind: ParamKind::BatchSize, value: self.batch_size as u64 });
        r.push(ParamSetting { kind: ParamKind::MaxBatchDelay, value: self.max_batch_delay });
        assert(r@ =~= seq![
            ParamSetting { kind: ParamKind::HeaderSize, value: self.header_size as u64 },
            ParamSetting { kind: ParamKind::MaxHeaderDelay, value: self.max_header_delay },
            ParamSetting { kind: ParamKind::GcDepth, value: self.gc_depth },
            ParamSetting { kind: ParamKind::SyncRetryDelay, value: self.sync_retry_delay },
            ParamSetting { kind: ParamKind::SyncRetryNodes, value: self.sync_retry_nodes as u64 },
            ParamSetting { kind: ParamKind::BatchSize, value: self.batch_size as u64 },
            ParamSetting { kind: ParamKind::MaxBatchDelay, value: self.max_batch_delay },
        ]);
        r
    }
}

/// Heap bytes a value owns, for memory accounting.
pub trait AllocatedSize {
    fn allocated_size(&self) -> usize;
}

impl AllocatedSize for usize {
    fn allocated_size(&self) -> usize {
        0
    }
}

impl AllocatedSize for i64 {
    fn allocated_size(&self) -> usize {
        0
    }
}

impl AllocatedSize for Vec<u8> {
    fn allocated_size(&self) -> usize {
        crate::primitives::vec_capacity(self)
    }
}

/// Voting power of an authority.
pub type Stake = u32;

/// A member of a shard's committee: its public key and its stake.
pub struct Authority {
    pub name: Vec<u8>,
    pub stake: Stake,
}

/// Total stake of a list of authorities.
pub open spec fn stake_sum(a: Seq<Authority>) -> int
    decreases a.len(),
{
    if a.len() == 0 {
        0
    } else {
        stake_sum(a.drop_last()) + a.last().stake
    }
}

/// The authorities of one shard.
pub struct Committee {
    pub authorities: Vec<Authority>,
}

impl Committee {
    pub fn size(&self) -> (r: usize)
        ensures
            r == self.authorities@.len(),
    {
        self.authorities.len()
    }

    /// Total stake of the committee.
    pub fn total_stake(&self) -> (r: u128)
        ensures
            r == stake_sum(self.authorities@),
    {
        let mut total: u128 = 0;
        let mut i: usize = 0;
        assert(self.authorities@.subrange(0, 0) =~= Seq::<Authority>::empty());
        while i < self.authorities.len()
            invariant
                i <= self.authorities@.len(),
                total == stake_sum(self.authorities@.subrange(0, i as int)),
                total <= i * 0xFFFF_FFFFu128,
            decreases self.authorities@.len() - i,
        {
            assert(self.authorities@.subrange(0, i + 1).drop_last() =~= self.authorities@.subrange(0, i as int));
            let st = self.authorities[i].stake;
            assert(i * 0xFFFF_FFFFu128 + 0xFFFF_FFFFu128 == (i + 1) * 0xFFFF_FFFFu128) by (nonlinear_arith);
            assert((i + 1) * 0xFFFF_FFFFu128 <= 0x1_0000_0000_0000_0000u128 * 0xFFFF_FFFFu128) by (nonlinear_arith)
                requires i < 0x1_0000_0000_0000_0000u128;
            total = total + st as u128;
            i = i + 1;
        }
        assert(self.authorities@.subrange(0, self.authorities@.len() as int) =~= self.authorities@);
        total
    }

    /// The stake of the authority `name`, or 0 when it is not a member.
    pub fn stake(&self, name: &Vec<u8>) -> (r: Stake)
        ensures
            (exists|i: int| 0 <= i < self.authorities@.len() && (#[trigger] self.authorities@[i]).name@ == name@
                && self.authorities@[i].stake == r) || (r == 0 && forall|i: int|
                0 <= i < self.authorities@.len() ==> (#[trigger] self.authorities@[i]).name@ != name@),
    {
        let mut i: usize = 0;
        while i < self.authorities.len()
            invariant
                i <= self.authorities@.len(),
                forall|j: int| 0 <= j < i ==> (#[trigger] self.authorities@[j]).name@ != name@,
            decreases self.authorities@.len() - i,
        {
            if crate::bytes::bytes_eq(&self.authorities[i].name, name) {
                return self.authorities[i].stake;
            }
            i = i + 1;
        }
        0
    }

    /// Stake needed for a quorum: 2f+1 of 3f+1.
    pub fn quorum_threshold(&self) -> (r: u128)
        ensures
            r == 2 * stake_sum(self.authorities@) / 3 + 1,
    {
        let t = self.total_stake();
        let _n = self.authorities.len();
        assert(t <= 0xFFFF_FFFF_FFFF_FFFF_FFFF_FFFFu128) by {
            self.lemma_sum_bound(self.authorities@.len() as int);
        }
        2 * t / 3 + 1
    }

    /// Stake needed to include one honest authority: f+1 of 3f+1.
    pub fn validity_threshold(&self) -> (r: u128)
        ensures
            r == (stake_sum(self.authorities@) + 2) / 3,
    {
        let t = self.total_stake();
        let _n = self.authorities.len();
        assert(t <= 0xFFFF_FFFF_FFFF_FFFF_FFFF_FFFFu128) by {
            self.lemma_sum_bound(self.authorities@.len() as int);
        }
        (t + 2) / 3
    }

    proof fn lemma_sum_bound(&self, n: int)
        requires
            0 <= n <= self.authorities@.len(),
            self.authorities@.len() <= usize::MAX,
        ensures
            0 <= stake_sum(self.authorities@.subrange(0, n)) <= n * 0xFFFF_FFFF,
            n == self.authorities@.len() ==> stake_sum(self.authorities@) <= 0xFFFF_FFFF_FFFF_FFFF_FFFF_FFFF,
        decreases n,
    {
        if n > 0 {
            self.lemma_sum_bound(n - 1);
            assert(self.authorities@.subrange(0, n).drop_last() =~= self.authorities@.subrange(0, n - 1));
        }
        if n == self.authorities@.len() {
            assert(self.authorities@.subrange(0, n) =~= self.authorities@);
            assert(n * 0xFFFF_FFFF <= 0xFFFF_FFFF_FFFF_FFFF_FFFF_FFFF) by (nonlinear_arith)
                requires n <= 0xFFFF_FFFF_FFFF_FFFF;
        }
    }
}

/// With 3f+1 authorities of one stake each, a quorum is 2f+1 and validity f+1.
pub proof fn lemma_unit_stake_thresholds(f: nat)
    ensures
        2 * (3 * f + 1) / 3 + 1 == 2 * f + 1,
        ((3 * f + 1) + 2) / 3 == f + 1,
{
    assert(2 * (3 * f + 1) == 3 * (2 * f) + 2) by (nonlinear_arith);
    assert((3 * f + 1) + 2 == 3 * (f + 1)) by (nonlinear_arith);
}

} // verus!
