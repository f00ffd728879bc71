use vstd::prelude::*;
use crate::cs_msg_verifier::Digest;

verus! {

/// Index of a worker within its node.
pub type WorkerId = u32;

/// A batch that a header points to: its digest and the worker that holds it.
#[derive(Clone, Copy)]
pub struct PayloadEntry {
    pub digest: Digest,
    pub worker_id: WorkerId,
}

/// A requested batch not yet stored, with the time (ms) it was requested.
#[derive(Clone, Copy)]
pub struct PendingBatch {
    pub digest: Digest,
    pub since: u128,
}

/// Compares two digests.
pub fn digest_eq(a: &Digest, b: &Digest) -> (r: bool)
    ensures
        r == (a@ == b@),
{
    let mut i: usize = 0;
    while i < 32
        invariant
            a@.len() == 32,
            b@.len() == 32,
            i <= 32,
            forall|j: int| 0 <= j < i ==> a@[j] == b@[j],
        decreases 32 - i,
    {
        if a[i] != b[i] {
            return false;
        }
        i = i + 1;
    }
    assert(a@ =~= b@);
    true
}

/// The entries of a header's payload whose batches are not stored locally, in order.
pub open spec fn missing_of(payload: Seq<PayloadEntry>, stored: Seq<bool>) -> Seq<PayloadEntry>
    decreases payload.len(),
{
    if payload.len() == 0 {
        Seq::empty()
    } else {
        let rest = missing_of(payload.drop_last(), stored);
        if stored[payload.len() - 1] {
            rest
        } else {
            rest.push(payload.last())
        }
    }
}

/// Picks out the batches a header needs that the local store lacks;
/// `stored[i]` says whether the batch of `payload[i]` was found.
pub fn missing_batches(payload: &Vec<PayloadEntry>, stored: &Vec<bool>) -> (r: Vec<PayloadEntry>)
    requires
        stored@.len() == payload@.len(),
    ensures
        r@ == missing_of(payload@, stored@),
{
    let mut out: Vec<PayloadEntry> = Vec::new();
    let mut i: usize = 0;
    assert(payload@.subrange(0, 0) =~= Seq::<PayloadEntry>::empty());
    while i < payload.len()
        invariant
            stored@.len() == payload@.len(),
            i <= payload@.len(),
            out@ == missing_of(payload@.subrange(0, i as int), stored@),
        decreases payload@.len() - i,
    {
        assert(payload@.subrange(0, i + 1).drop_last() =~= payload@.subrange(0, i as int));
        if !stored[i] {
            out.push(payload[i]);
        }
        i = i + 1;
    }
    assert(payload@.subrange(0, payload@.len() as int) =~= payload@);
    out
}

/// What the convertor does with a committed header.
pub enum ConvertStep {
    /// Every batch is stored: hand the header's batches to the executor.
    Deliver,
    /// Fetch these batches from the header's author first, then look again.
    Fetch(Vec<Digest>),
}

/// The digests of payload entries.
pub open spec fn digests_of(p: Seq<PayloadEntry>) -> Seq<Seq<u8>> {
    p.map_values(|e: PayloadEntry| e.digest@)
}

/// Decides, for a header whose batch `i` is stored locally when `stored[i]`,
/// whether it can go to the executor or which batches must be fetched first.
pub fn try_fetch_payload(payload: &Vec<PayloadEntry>, stored: &Vec<bool>) -> (r: ConvertStep)
    requires
        stored@.len() == payload@.len(),
    ensures
        match r {
            ConvertStep::Deliver => missing_of(payload@, stored@).len() == 0,
            ConvertStep::Fetch(d) => missing_of(payload@, stored@).len() > 0 && d@.map_values(
                |x: Digest| x@,
            ) == digests_of(missing_of(payload@, stored@)),
        },
{
    let missing = missing_batches(payload, stored);
    if missing.len() == 0 {
        return ConvertStep::Deliver;
    }
    let mut d: Vec<Digest> = Vec::new();
    let mut i: usize = 0;
    while i < missing.len()
        invariant
            i <= missing@.len(),
            d@.len() == i,
            forall|j: int| 0 <= j < i ==> (#[trigger] d@[j])@ == missing@[j].digest@,
        decreases missing@.len() - i,
    {
        d.push(missing[i].digest);
        i = i + 1;
    }
    assert(d@.map_values(|x: Digest| x@) =~= digests_of(missing@));
    ConvertStep::Fetch(d)
}

/// Once every batch a header points to is stored, nothing is missing, so the
/// convertor delivers the header with all of its batches.
pub proof fn lemma_all_stored_delivers(payload: Seq<PayloadEntry>, stored: Seq<bool>)
    requires
        stored.len() == payload.len(),
        forall|i: int| 0 <= i < stored.len() ==> #[trigger] stored[i],
    ensures
        missing_of(payload, stored).len() == 0,
    decreases payload.len(),
{
    if payload.len() > 0 {
        let q = payload.drop_last();
        let st = stored.subrange(0, q.len() as int);
        lemma_missing_prefix(payload.drop_last(), stored);
        lemma_all_stored_delivers(q, st);
    }
}

proof fn lemma_missing_prefix(p: Seq<PayloadEntry>, stored: Seq<bool>)
    requires
        p.len() <= stored.len(),
    ensures
        missing_of(p, stored) == missing_of(p, stored.subrange(0, p.len() as int)),
    decreases p.len(),
{
    if p.len() > 0 {
        lemma_missing_prefix(p.drop_last(), stored);
        lemma_missing_prefix(p.drop_last(), stored.subrange(0, p.len() as int));
        assert(stored.subrange(0, p.len() as int).subrange(0, p.len() - 1) =~= stored.subrange(0, p.len() - 1));
    }
}

/// Whether a header's batches are all loaded and it can go to the executor.
pub fn all_loaded(payload_len: usize, loaded: usize) -> (r: bool)
    ensures
        r == (loaded == payload_len),
{
    loaded == payload_len
}

/// The pending requests other than those for digest `d`.
pub open spec fn without(p: Seq<PendingBatch>, d: Seq<u8>) -> Seq<PendingBatch>
    decreases p.len(),
{
    if p.len() == 0 {
        Seq::empty()
    } else {
        let rest = without(p.drop_last(), d);
        if p.last().digest@ == d {
            rest
        } else {
            rest.push(p.last())
        }
    }
}

/// The pending requests, of those asked at most `delay` ms before `now`, that
/// are due again.
pub open spec fn due(p: Seq<PendingBatch>, now: u128, delay: u64) -> Seq<Seq<u8>>
    decreases p.len(),
{
    if p.len() == 0 {
        Seq::empty()
    } else {
        let rest = due(p.drop_last(), now, delay);
        if p.last().since + delay < now {
            rest.push(p.last().digest@)
        } else {
            rest
        }
    }
}

/// The requests left after the batches in `delivered` were stored, in order.
pub open spec fn after_deliveries(p: Seq<PendingBatch>, delivered: Seq<Seq<u8>>) -> Seq<PendingBatch>
    decreases delivered.len(),
{
    if delivered.len() == 0 {
        p
    } else {
        without(after_deliveries(p, delivered.drop_last()), delivered.last())
    }
}

proof fn lemma_without_keeps(p: Seq<PendingBatch>, d: Seq<u8>)
    ensures
        forall|i: int|
            0 <= i < without(p, d).len() ==> p.contains(#[trigger] without(p, d)[i]) && without(
                p,
                d,
            )[i].digest@ != d,
    decreases p.len(),
{
    if p.len() > 0 {
        lemma_without_keeps(p.drop_last(), d);
        let rest = without(p.drop_last(), d);
        assert forall|i: int| 0 <= i < without(p, d).len() implies p.contains(
            #[trigger] without(p, d)[i],
        ) && without(p, d)[i].digest@ != d by {
            if i < rest.len() {
                assert(without(p, d)[i] == rest[i]);
                let k = choose|k: int| 0 <= k < p.drop_last().len() && p.drop_last()[k] == rest[i];
                assert(p[k] == rest[i]);
            } else {
                assert(p[p.len() - 1] == p.last());
            }
        }
    }
}

proof fn lemma_after_deliveries_shrinks(p: Seq<PendingBatch>, delivered: Seq<Seq<u8>>)
    ensures
        forall|i: int|
            0 <= i < after_deliveries(p, delivered).len() ==> p.contains(
                #[trigger] after_deliveries(p, delivered)[i],
            ) && !delivered.contains(after_deliveries(p, delivered)[i].digest@),
    decreases delivered.len(),
{
    if delivered.len() > 0 {
        let prev = after_deliveries(p, delivered.drop_last());
        lemma_after_deliveries_shrinks(p, delivered.drop_last());
        lemma_without_keeps(prev, delivered.last());
        assert forall|i: int| 0 <= i < after_deliveries(p, delivered).len() implies p.contains(
            #[trigger] after_deliveries(p, delivered)[i],
        ) && !delivered.contains(after_deliveries(p, delivered)[i].digest@) by {
            let e = after_deliveries(p, delivered)[i];
            let k = choose|k: int| 0 <= k < prev.len() && prev[k] == e;
            assert(prev[k] == e);
            if delivered.contains(e.digest@) {
                let j = choose|j: int| 0 <= j < delivered.len() && delivered[j] == e.digest@;
                if j < delivered.len() - 1 {
                    assert(delivered.drop_last()[j] == e.digest@);
                }
            }
        }
    }
}

/// A fetch completes once each requested batch is stored: whatever the order
/// of the deliveries, when every requested digest has been delivered no
/// request is left pending.
pub proof fn lemma_deliveries_complete(p: Seq<PendingBatch>, delivered: Seq<Seq<u8>>)
    requires
        forall|i: int| 0 <= i < p.len() ==> delivered.contains(#[trigger] p[i].digest@),
    ensures
        after_deliveries(p, delivered).len() == 0,
{
    lemma_after_deliveries_shrinks(p, delivered);
    if after_deliveries(p, delivered).len() > 0 {
        let e = after_deliveries(p, delivered)[0];
        let k = choose|k: int| 0 <= k < p.len() && p[k] == e;
        assert(delivered.contains(p[k].digest@));
    }
}

/// Tracks the batches requested from peers until each is stored locally.
pub struct MissingBatchFetcher {
    pending: Vec<PendingBatch>,
    sync_retry_delay: u64,
    sync_retry_nodes: usize,
}

/// A request for batches, and the workers (by public key) to send it to.
pub struct BatchRequest {
    pub digests: Vec<Digest>,
    pub to: Vec<Vec<u8>>,
}

/// The keys of a list of workers.
pub open spec fn keys_of(s: Seq<Vec<u8>>) -> Seq<Seq<u8>> {
    s.map_values(|k: Vec<u8>| k@)
}

/// The digests of a list.
pub open spec fn digest_views(s: Seq<Digest>) -> Seq<Seq<u8>> {
    s.map_values(|d: Digest| d@)
}

impl MissingBatchFetcher {
    /// The outstanding requests, oldest first.
    pub closed spec fn pending_view(&self) -> Seq<PendingBatch> {
        self.pending@
    }

    pub closed spec fn retry_delay(&self) -> u64 {
        self.sync_retry_delay
    }

    /// How many other workers a retried request goes to at most.
    pub closed spec fn retry_nodes(&self) -> usize {
        self.sync_retry_nodes
    }

    pub fn new(sync_retry_delay: u64, sync_retry_nodes: usize) -> (r: MissingBatchFetcher)
        ensures
            r.pending_view().len() == 0,
            r.retry_delay() == sync_retry_delay,
            r.retry_nodes() == sync_retry_nodes,
    {
        MissingBatchFetcher { pending: Vec::new(), sync_retry_delay, sync_retry_nodes }
    }

    /// Starts fetching `digests` at time `now` (ms): each becomes a pending
    /// request, and the request holding them all goes to `target`, the worker
    /// of the header's author, alone.
    pub fn fetch_missing_batches(&mut self, digests: &Vec<Digest>, target: &Vec<u8>, now: u128) -> (r:
        BatchRequest)
        ensures
            r.digests@ == digests@,
            keys_of(r.to@) == seq![target@],
            final(self).retry_delay() == old(self).retry_delay(),
            final(self).retry_nodes() == old(self).retry_nodes(),
            final(self).pending_view() == old(self).pending_view() + Seq::new(
                digests@.len(),
                |i: int| PendingBatch { digest: digests@[i], since: now },
            ),
    {
        let mut out: Vec<Digest> = Vec::new();
        let mut i: usize = 0;
        while i < digests.len()
            invariant
                i <= digests@.len(),
                out@ == digests@.subrange(0, i as int),
                self.sync_retry_delay == old(self).sync_retry_delay,
                self.sync_retry_nodes == old(self).sync_retry_nodes,
                self.pending@ == old(self).pending@ + Seq::new(
                    i as nat,
                    |k: int| PendingBatch { digest: digests@[k], since: now },
                ),
            decreases digests@.len() - i,
        {
            let d = digests[i];
            self.pending.push(PendingBatch { digest: d, since: now });
            out.push(d);
            i = i + 1;
            assert(out@ =~= digests@.subrange(0, i as int));
            assert(self.pending@ =~= old(self).pending@ + Seq::new(
                i as nat,
                |k: int| PendingBatch { digest: digests@[k], since: now },
            ));
        }
        assert(out@ =~= digests@);
        let mut to: Vec<Vec<u8>> = Vec::new();
        to.push(crate::bytes::copy_bytes(target));
        assert(keys_of(to@) =~= seq![target@]);
        BatchRequest { digests: out, to }
    }

    /// A requested batch was stored: its requests are no longer pending.
    /// Returns whether nothing is pending any more.
    pub fn on_batch_stored(&mut self, digest: &Digest) -> (r: bool)
        ensures
            final(self).pending_view() == without(old(self).pending_view(), digest@),
            final(self).retry_delay() == old(self).retry_delay(),
            final(self).retry_nodes() == old(self).retry_nodes(),
            r == (final(self).pending_view().len() == 0),
    {
        let mut kept: Vec<PendingBatch> = Vec::new();
        let mut i: usize = 0;
        assert(self.pending@.subrange(0, 0) =~= Seq::<PendingBatch>::empty());
        while i < self.pending.len()
            invariant
                i <= self.pending@.len(),
                self.pending@ == old(self).pending@,
                self.sync_retry_delay == old(self).sync_retry_delay,
                self.sync_retry_nodes == old(self).sync_retry_nodes,
                kept@ == without(self.pending@.subrange(0, i as int), digest@),
            decreases self.pending@.len() - i,
        {
            assert(self.pending@.subrange(0, i + 1).drop_last() =~= self.pending@.subrange(0, i as int));
            let p = self.pending[i];
            if !digest_eq(&p.digest, digest) {
                kept.push(p);
            }
            i = i + 1;
        }
        assert(self.pending@.subrange(0, self.pending@.len() as int) =~= self.pending@);
        self.pending = kept;
        self.pending.len() == 0
    }

    /// The timer fired at `now` (ms): the digests requested longer than the
    /// retry delay ago go again, to the first `retry_nodes()` of `others`,
    /// the other workers in the random order the caller drew; with nothing
    /// overdue, nothing is sent.
    pub fn on_timer(&self, now: u128, others: &Vec<Vec<u8>>) -> (r: BatchRequest)
        ensures
            digest_views(r.digests@) == due(self.pending_view(), now, self.retry_delay()),
            r.digests@.len() == 0 ==> r.to@.len() == 0,
            r.digests@.len() > 0 ==> keys_of(r.to@) == keys_of(others@).subrange(
                0,
                if others@.len() < self.retry_nodes() {
                    others@.len() as int
                } else {
                    self.retry_nodes() as int
                },
            ),
    {
        let digests = self.overdue(now);
        let mut to: Vec<Vec<u8>> = Vec::new();
        if digests.len() > 0 {
            let n = if others.len() < self.sync_retry_nodes {
                others.len()
            } else {
                self.sync_retry_nodes
            };
            let mut i: usize = 0;
            while i < n
                invariant
                    i <= n,
                    n <= others@.len(),
                    to@.len() == i,
                    forall|j: int| 0 <= j < i ==> (#[trigger] to@[j])@ == others@[j]@,
                decreases n - i,
            {
                to.push(crate::bytes::copy_bytes(&others[i]));
                i = i + 1;
            }
            assert(keys_of(to@) =~= keys_of(others@).subrange(0, n as int));
        }
        BatchRequest { digests, to }
    }

    fn overdue(&self, now: u128) -> (r: Vec<Digest>)
        ensures
            digest_views(r@) == due(self.pending_view(), now, self.retry_delay()),
    {
        let mut out: Vec<Digest> = Vec::new();
        let mut i: usize = 0;
        assert(self.pending@.subrange(0, 0) =~= Seq::<PendingBatch>::empty());
        assert(out@.map_values(|d: Digest| d@) =~= Seq::<Seq<u8>>::empty());
        while i < self.pending.len()
            invariant
                i <= self.pending@.len(),
                out@.map_values(|d: Digest| d@) == due(
                    self.pending@.subrange(0, i as int),
                    now,
                    self.sync_retry_delay,
                ),
            decreases self.pending@.len() - i,
        {
            assert(self.pending@.subrange(0, i + 1).drop_last() =~= self.pending@.subrange(0, i as int));
            let p = self.pending[i];
            if p.since < now && now - p.since > self.sync_retry_delay as u128 {
                let ghost before = out@;
                out.push(p.digest);
                assert(out@.map_values(|d: Digest| d@) =~= before.map_values(|d: Digest| d@).push(
                    p.digest@,
                ));
            }
            i = i + 1;
        }
        assert(self.pending@.subrange(0, self.pending@.len() as int) =~= self.pending@);
        out
    }
}

} // verus!
