use vstd::prelude::*;
use crate::acc_shard::ShardPolicy;
use crate::bytes::copy_bytes;
use crate::messages::{CoreTx, Frame, RWSet, ShardId, Transaction};

verus! {

/// An entry as plain values: address and delta.
pub type EntryView = (Seq<u8>, i64);

pub open spec fn entry_view(e: RWSet) -> EntryView {
    (e.addr@, e.value)
}

pub open spec fn entries_view(s: Seq<RWSet>) -> Seq<EntryView> {
    s.map_values(|e: RWSet| entry_view(e))
}

pub open spec fn frame_view(f: Frame) -> (ShardId, Seq<EntryView>) {
    (f.shardid, entries_view(f.rwset@))
}

pub open spec fn frames_view(s: Seq<Frame>) -> Seq<(ShardId, Seq<EntryView>)> {
    s.map_values(|f: Frame| frame_view(f))
}

/// The debits (or the credits) of `p` that fall in shard `k`, in order.
pub open spec fn side(pol: ShardPolicy, p: Seq<RWSet>, k: int, debit: bool) -> Seq<EntryView>
    decreases p.len(),
{
    if p.len() == 0 {
        Seq::empty()
    } else {
        let rest = side(pol, p.drop_last(), k, debit);
        let e = p.last();
        if pol.shard_of(e.addr@) == k && (e.value < 0) == debit {
            rest.push(entry_view(e))
        } else {
            rest
        }
    }
}

/// Whether shard `k` has both debits and credits in `p`.
pub open spec fn is_mixed(pol: ShardPolicy, p: Seq<RWSet>, k: int) -> bool {
    side(pol, p, k, true).len() > 0 && side(pol, p, k, false).len() > 0
}

/// The lowest shard below `n` with both debits and credits, if any.
pub open spec fn mixed_before(pol: ShardPolicy, p: Seq<RWSet>, n: nat) -> Option<usize>
    decreases n,
{
    if n == 0 {
        None
    } else {
        match mixed_before(pol, p, (n - 1) as nat) {
            Some(k) => Some(k),
            None => if is_mixed(pol, p, n - 1) {
                Some((n - 1) as usize)
            } else {
                None
            },
        }
    }
}

/// How many shards below `n` the entries of `p` touch.
pub open spec fn involved_before(pol: ShardPolicy, p: Seq<RWSet>, n: nat) -> nat
    decreases n,
{
    if n == 0 {
        0
    } else {
        involved_before(pol, p, (n - 1) as nat) + if side(pol, p, n - 1, true).len() > 0 || side(
            pol,
            p,
            n - 1,
            false,
        ).len() > 0 {
            1nat
        } else {
            0nat
        }
    }
}

/// One frame per shard below `n` with debits (or credits), in shard order,
/// leaving out the shard `sp`.
pub open spec fn single_frames(pol: ShardPolicy, p: Seq<RWSet>, sp: Option<usize>, n: nat, debit: bool) -> Seq<
    (ShardId, Seq<EntryView>),
>
    decreases n,
{
    if n == 0 {
        Seq::empty()
    } else {
        let k = (n - 1) as usize;
        let before = single_frames(pol, p, sp, (n - 1) as nat, debit);
        if sp != Some(k) && side(pol, p, k as int, debit).len() > 0 {
            before.push((k, side(pol, p, k as int, debit)))
        } else {
            before
        }
    }
}

/// The frames a payload is cut into over `n` shards: a frame of debits for
/// each shard that has them, then one frame for the lowest shard that has
/// both debits and credits (its debits first), then a frame of credits for
/// each shard that has them; the mixed shard gets no separate frames.
pub open spec fn split_payload(pol: ShardPolicy, p: Seq<RWSet>, n: nat) -> Seq<(ShardId, Seq<EntryView>)> {
    let sp = mixed_before(pol, p, n);
    single_frames(pol, p, sp, n, true) + match sp {
        Some(k) => seq![(k, side(pol, p, k as int, true) + side(pol, p, k as int, false))],
        None => Seq::empty(),
    } + single_frames(pol, p, sp, n, false)
}

/// The policy can place every entry of `p`, in a shard below its shard count.
pub open spec fn placeable(pol: ShardPolicy, p: Seq<RWSet>) -> bool {
    &&& pol.spec_shard_num() > 0
    &&& forall|i: int|
        0 <= i < p.len() ==> (#[trigger] p[i]).addr@.len() > 0 && pol.shard_of(p[i].addr@)
            < pol.spec_shard_num()
}

/// Cuts client transfers into per-shard frames.
pub struct ConvertTx {}

impl ConvertTx {
    pub fn new() -> (r: ConvertTx) {
        ConvertTx {  }
    }

    fn collect_side(pol: &ShardPolicy, p: &Vec<RWSet>, k: usize, debit: bool) -> (r: Vec<RWSet>)
        requires
            placeable(*pol, p@),
        ensures
            entries_view(r@) == side(*pol, p@, k as int, debit),
    {
        let mut out: Vec<RWSet> = Vec::new();
        let mut j: usize = 0;
        assert(p@.subrange(0, 0) =~= Seq::<RWSet>::empty());
        assert(entries_view(out@) =~= Seq::<EntryView>::empty());
        while j < p.len()
            invariant
                placeable(*pol, p@),
                j <= p@.len(),
                entries_view(out@) == side(*pol, p@.subrange(0, j as int), k as int, debit),
            decreases p@.len() - j,
        {
            let e = &p[j];
            assert(p@.subrange(0, j + 1).drop_last() =~= p@.subrange(0, j as int));
            assert(p@.subrange(0, j + 1).last() == p@[j as int]);
            let s = pol.get_shard(&e.addr);
            if s == k && (e.value < 0) == debit {
                let ghost before = out@;
                out.push(RWSet { addr: copy_bytes(&e.addr), value: e.value });
                assert(entries_view(out@) =~= entries_view(before).push(entry_view(p@[j as int])));
            }
            j = j + 1;
        }
        assert(p@.subrange(0, p@.len() as int) =~= p@);
        out
    }

    fn push_frames(
        pol: &ShardPolicy,
        p: &Vec<RWSet>,
        sp: Option<usize>,
        n: usize,
        debit: bool,
        frames: &mut Vec<Frame>,
    )
        requires
            placeable(*pol, p@),
        ensures
            frames_view(final(frames)@) == frames_view(old(frames)@) + single_frames(
                *pol,
                p@,
                sp,
                n as nat,
                debit,
            ),
    {
        let mut k: usize = 0;
        assert(frames_view(old(frames)@) + Seq::<(ShardId, Seq<EntryView>)>::empty() =~= frames_view(
            old(frames)@,
        ));
        while k < n
            invariant
                placeable(*pol, p@),
                k <= n,
                frames_view(frames@) == frames_view(old(frames)@) + single_frames(
                    *pol,
                    p@,
                    sp,
                    k as nat,
                    debit,
                ),
            decreases n - k,
        {
            let skip = match sp {
                Some(x) => x == k,
                None => false,
            };
            if !skip {
                let d = Self::collect_side(pol, p, k, debit);
                if d.len() > 0 {
                    let ghost before = frames@;
                    frames.push(Frame { shardid: k, rwset: d });
                    assert(frames_view(frames@) =~= frames_view(before).push(frame_view(frames@.last())));
                }
            }
            k = k + 1;
        }
    }

    /// Cuts a transfer's entries into frames, one step per shard (see
    /// `split_payload`), and counts the shards involved.
    pub fn get_payload(&self, acc_shard: &ShardPolicy, payload: Vec<RWSet>) -> (r: (Vec<Frame>, usize))
        requires
            placeable(*acc_shard, payload@),
        ensures
            frames_view(r.0@) == split_payload(*acc_shard, payload@, acc_shard.spec_shard_num() as nat),
            r.1 == involved_before(*acc_shard, payload@, acc_shard.spec_shard_num() as nat),
    {
        let n = acc_shard.get_shard_num();
        let mut involved: usize = 0;
        let mut sp: Option<usize> = None;
        let mut k: usize = 0;
        while k < n
            invariant
                placeable(*acc_shard, payload@),
                n == acc_shard.spec_shard_num(),
                k <= n,
                involved as nat == involved_before(*acc_shard, payload@, k as nat),
                involved <= k,
                sp == mixed_before(*acc_shard, payload@, k as nat),
            decreases n - k,
        {
            let d = Self::collect_side(acc_shard, &payload, k, true);
            let c = Self::collect_side(acc_shard, &payload, k, false);
            if d.len() > 0 || c.len() > 0 {
                involved = involved + 1;
            }
            if sp.is_none() && d.len() > 0 && c.len() > 0 {
                sp = Some(k);
            }
            k = k + 1;
        }
        let mut frames: Vec<Frame> = Vec::new();
        assert(frames_view(frames@) =~= Seq::<(ShardId, Seq<EntryView>)>::empty());
        Self::push_frames(acc_shard, &payload, sp, n, true, &mut frames);
        let ghost mid = frames_view(frames@);
        match sp {
            Some(x) => {
                let mut d = Self::collect_side(acc_shard, &payload, x, true);
                let mut c = Self::collect_side(acc_shard, &payload, x, false);
                let ghost dv = d@;
                let ghost cv = c@;
                d.append(&mut c);
                assert(entries_view(d@) =~= entries_view(dv) + entries_view(cv));
                let ghost before = frames@;
                frames.push(Frame { shardid: x, rwset: d });
                assert(frames_view(frames@) =~= frames_view(before).push(frame_view(frames@.last())));
            },
            None => {},
        }
        Self::push_frames(acc_shard, &payload, sp, n, false, &mut frames);
        let ghost sps = match sp {
            Some(x) => seq![
                (
                    x,
                    side(*acc_shard, payload@, x as int, true) + side(
                        *acc_shard,
                        payload@,
                        x as int,
                        false,
                    ),
                ),
            ],
            None => Seq::<(ShardId, Seq<EntryView>)>::empty(),
        };
        assert(frames_view(frames@) =~= single_frames(*acc_shard, payload@, sp, n as nat, true) + sps
            + single_frames(*acc_shard, payload@, sp, n as nat, false));
        (frames, involved)
    }

    /// Turns a client transfer into a transaction cut into frames, and names
    /// the shard of its first frame; None when the transfer has no entries.
    pub fn rawtx2tx(&self, acc_shard: &ShardPolicy, raw_tx: CoreTx, timestamp: u128) -> (r: Option<
        (Transaction, ShardId),
    >)
        requires
            placeable(*acc_shard, raw_tx.payload@),
        ensures
            ({
                let frames = split_payload(
                    *acc_shard,
                    raw_tx.payload@,
                    acc_shard.spec_shard_num() as nat,
                );
                match r {
                    None => frames.len() == 0,
                    Some((tx, first)) => {
                        &&& frames.len() > 0
                        &&& first == frames[0].0
                        &&& frames_view(tx.payload@) == frames
                        &&& tx.rwset_num == raw_tx.payload@.len()
                        &&& tx.involved_shard_num == involved_before(
                            *acc_shard,
                            raw_tx.payload@,
                            acc_shard.spec_shard_num() as nat,
                        )
                        &&& tx.sender@ == raw_tx.sender@
                        &&& tx.receiver@ == raw_tx.receiver@
                        &&& tx.amount == raw_tx.amount
                        &&& tx.counter == raw_tx.counter
                        &&& tx.sample == raw_tx.sample
                        &&& tx.step == 0
                        &&& tx.original_sender is None
                        &&& tx.final_receiver is None
                    },
                }
            }),
    {
        let payload_len = raw_tx.payload.len();
        let ghost pv = raw_tx.payload@;
        let (payload, involved) = self.get_payload(acc_shard, raw_tx.payload);
        if payload.len() == 0 {
            return None;
        }
        let first = payload[0].shardid;
        let tx = Transaction::new(
            raw_tx.sender,
            raw_tx.receiver,
            raw_tx.amount,
            payload,
            payload_len,
            involved,
            raw_tx.sample,
            raw_tx.counter,
            timestamp,
            None,
            None,
        );
        Some((tx, first))
    }
}

/// Sum of the deltas of entries given as plain values.
pub open spec fn sv(s: Seq<EntryView>) -> int
    decreases s.len(),
{
    if s.len() == 0 {
        0
    } else {
        sv(s.drop_last()) + s.last().1
    }
}

/// Sum of the deltas over frames given as plain values.
pub open spec fn fsum(f: Seq<(ShardId, Seq<EntryView>)>) -> int
    decreases f.len(),
{
    if f.len() == 0 {
        0
    } else {
        fsum(f.drop_last()) + sv(f.last().1)
    }
}

/// Sum over the shards below `n` of their debits and credits.
pub open spec fn by_shard(pol: ShardPolicy, p: Seq<RWSet>, n: nat) -> int
    decreases n,
{
    if n == 0 {
        0
    } else {
        by_shard(pol, p, (n - 1) as nat) + sv(side(pol, p, n - 1, true)) + sv(side(pol, p, n - 1, false))
    }
}

proof fn lemma_sv_append(a: Seq<EntryView>, b: Seq<EntryView>)
    ensures
        sv(a + b) == sv(a) + sv(b),
    decreases b.len(),
{
    if b.len() == 0 {
        assert(a + b =~= a);
    } else {
        lemma_sv_append(a, b.drop_last());
        assert((a + b).drop_last() =~= a + b.drop_last());
    }
}

proof fn lemma_fsum_append(a: Seq<(ShardId, Seq<EntryView>)>, b: Seq<(ShardId, Seq<EntryView>)>)
    ensures
        fsum(a + b) == fsum(a) + fsum(b),
    decreases b.len(),
{
    if b.len() == 0 {
        assert(a + b =~= a);
    } else {
        lemma_fsum_append(a, b.drop_last());
        assert((a + b).drop_last() =~= a + b.drop_last());
    }
}

proof fn lemma_entries_sum(s: Seq<RWSet>)
    ensures
        sv(entries_view(s)) == crate::messages::sum_values(s),
    decreases s.len(),
{
    if s.len() > 0 {
        lemma_entries_sum(s.drop_last());
        assert(entries_view(s).drop_last() =~= entries_view(s.drop_last()));
    }
}

proof fn lemma_frames_sum(f: Seq<Frame>)
    ensures
        fsum(frames_view(f)) == crate::messages::payload_sum(f),
    decreases f.len(),
{
    if f.len() > 0 {
        lemma_frames_sum(f.drop_last());
        lemma_entries_sum(f.last().rwset@);
        assert(frames_view(f).drop_last() =~= frames_view(f.drop_last()));
    }
}

/// The single frames of one sign, with the mixed shard's side added back,
/// carry that sign's deltas of every shard.
proof fn lemma_single_frames_sum(pol: ShardPolicy, p: Seq<RWSet>, sp: Option<usize>, n: nat, debit: bool)
    requires
        n <= usize::MAX,
    ensures
        fsum(single_frames(pol, p, sp, n, debit)) + (match sp {
            Some(k) => if k < n {
                sv(side(pol, p, k as int, debit))
            } else {
                0
            },
            None => 0,
        }) == side_total(pol, p, n, debit),
    decreases n,
{
    if n > 0 {
        lemma_single_frames_sum(pol, p, sp, (n - 1) as nat, debit);
        let k = (n - 1) as usize;
        let before = single_frames(pol, p, sp, (n - 1) as nat, debit);
        if sp != Some(k) && side(pol, p, k as int, debit).len() > 0 {
            assert(single_frames(pol, p, sp, n, debit).drop_last() =~= before);
        } else if sp != Some(k) {
            assert(side(pol, p, k as int, debit).len() == 0);
            assert(sv(side(pol, p, k as int, debit)) == 0);
        }
    }
}

/// Sum over the shards below `n` of their debits (or credits).
pub open spec fn side_total(pol: ShardPolicy, p: Seq<RWSet>, n: nat, debit: bool) -> int
    decreases n,
{
    if n == 0 {
        0
    } else {
        side_total(pol, p, (n - 1) as nat, debit) + sv(side(pol, p, n - 1, debit))
    }
}

proof fn lemma_by_shard_split(pol: ShardPolicy, p: Seq<RWSet>, n: nat)
    ensures
        by_shard(pol, p, n) == side_total(pol, p, n, true) + side_total(pol, p, n, false),
    decreases n,
{
    if n > 0 {
        lemma_by_shard_split(pol, p, (n - 1) as nat);
    }
}

/// Adding one entry to the payload adds its delta to the shards' total, once,
/// when its shard is among them.
proof fn lemma_by_shard_step(pol: ShardPolicy, p: Seq<RWSet>, n: nat)
    requires
        p.len() > 0,
    ensures
        by_shard(pol, p, n) == by_shard(pol, p.drop_last(), n) + if pol.shard_of(p.last().addr@) < n {
            p.last().value as int
        } else {
            0
        },
    decreases n,
{
    if n > 0 {
        lemma_by_shard_step(pol, p, (n - 1) as nat);
        let q = p.drop_last();
        let e = p.last();
        let k = n - 1;
        lemma_side_step(pol, p, k, true);
        lemma_side_step(pol, p, k, false);
    }
}

proof fn lemma_side_step(pol: ShardPolicy, p: Seq<RWSet>, k: int, debit: bool)
    requires
        p.len() > 0,
    ensures
        sv(side(pol, p, k, debit)) == sv(side(pol, p.drop_last(), k, debit)) + if pol.shard_of(
            p.last().addr@,
        ) == k && (p.last().value < 0) == debit {
            p.last().value as int
        } else {
            0
        },
{
    let rest = side(pol, p.drop_last(), k, debit);
    if pol.shard_of(p.last().addr@) == k && (p.last().value < 0) == debit {
        assert(side(pol, p, k, debit) == rest.push(entry_view(p.last())));
        assert(rest.push(entry_view(p.last())).drop_last() =~= rest);
    }
}

proof fn lemma_by_shard_empty(pol: ShardPolicy, p: Seq<RWSet>, n: nat)
    requires
        p.len() == 0,
    ensures
        by_shard(pol, p, n) == 0,
    decreases n,
{
    if n > 0 {
        lemma_by_shard_empty(pol, p, (n - 1) as nat);
    }
}

proof fn lemma_by_shard_total(pol: ShardPolicy, p: Seq<RWSet>)
    requires
        placeable(pol, p),
    ensures
        by_shard(pol, p, pol.spec_shard_num() as nat) == crate::messages::sum_values(p),
    decreases p.len(),
{
    if p.len() == 0 {
        lemma_by_shard_empty(pol, p, pol.spec_shard_num() as nat);
    } else {
        let q = p.drop_last();
        assert forall|i: int| 0 <= i < q.len() implies (#[trigger] q[i]).addr@.len() > 0 && pol.shard_of(q[i].addr@)
            < pol.spec_shard_num() by {
            assert(q[i] == p[i]);
        }
        lemma_by_shard_total(pol, q);
        assert(crate::messages::sum_values(p) == crate::messages::sum_values(q) + p.last().value);
        assert(p.last() == p[p.len() - 1]);
        assert(pol.shard_of(p.last().addr@) < pol.spec_shard_num());
        lemma_by_shard_step(pol, p, pol.spec_shard_num() as nat);
    }
}

/// Cutting a transfer into frames keeps its deltas: the frames' deltas add
/// up, over all shards, to the entries' own sum. So a balanced transfer
/// (its entries summing to zero) stays balanced across the shards it touches.
pub proof fn lemma_split_keeps_sum(pol: ShardPolicy, p: Seq<RWSet>)
    requires
        placeable(pol, p),
    ensures
        fsum(split_payload(pol, p, pol.spec_shard_num() as nat)) == crate::messages::sum_values(p),
{
    let n = pol.spec_shard_num() as nat;
    let sp = mixed_before(pol, p, n);
    let mid = match sp {
        Some(k) => seq![(k, side(pol, p, k as int, true) + side(pol, p, k as int, false))],
        None => Seq::<(ShardId, Seq<EntryView>)>::empty(),
    };
    lemma_fsum_append(single_frames(pol, p, sp, n, true), mid);
    lemma_fsum_append(single_frames(pol, p, sp, n, true) + mid, single_frames(pol, p, sp, n, false));
    lemma_single_frames_sum(pol, p, sp, n, true);
    lemma_single_frames_sum(pol, p, sp, n, false);
    lemma_mixed_below(pol, p, n);
    assert(split_payload(pol, p, n) == single_frames(pol, p, sp, n, true) + mid + single_frames(
        pol,
        p,
        sp,
        n,
        false,
    ));
    match sp {
        Some(k) => {
            lemma_sv_append(side(pol, p, k as int, true), side(pol, p, k as int, false));
            assert(mid.drop_last() =~= Seq::<(ShardId, Seq<EntryView>)>::empty());
            assert(fsum(mid.drop_last()) == 0);
            assert(mid.last().1 == side(pol, p, k as int, true) + side(pol, p, k as int, false));
            assert(fsum(mid) == sv(side(pol, p, k as int, true)) + sv(side(pol, p, k as int, false)));
        },
        None => {
            assert(fsum(mid) == 0);
        },
    }
    lemma_by_shard_split(pol, p, n);
    lemma_by_shard_total(pol, p);
}

proof fn lemma_mixed_below(pol: ShardPolicy, p: Seq<RWSet>, n: nat)
    ensures
        match mixed_before(pol, p, n) {
            Some(k) => k < n,
            None => true,
        },
    decreases n,
{
    if n > 0 {
        lemma_mixed_below(pol, p, (n - 1) as nat);
    }
}

/// The frames that `get_payload` returns add up to the transfer's own sum.
pub proof fn lemma_payload_sum_kept(pol: ShardPolicy, p: Seq<RWSet>, frames: Seq<Frame>)
    requires
        placeable(pol, p),
        frames_view(frames) == split_payload(pol, p, pol.spec_shard_num() as nat),
    ensures
        crate::messages::payload_sum(frames) == crate::messages::sum_values(p),
{
    lemma_frames_sum(frames);
    lemma_split_keeps_sum(pol, p);
}

/// Sum of a sequence of integers.
pub open spec fn int_sum(s: Seq<int>) -> int
    decreases s.len(),
{
    if s.len() == 0 {
        0
    } else {
        int_sum(s.drop_last()) + s.last()
    }
}

proof fn lemma_changes_sum(frames: Seq<Frame>, changes: Seq<int>)
    requires
        changes.len() == frames.len(),
        forall|i: int| 0 <= i < frames.len() ==> changes[i] == crate::messages::sum_values(#[trigger] frames[i].rwset@),
    ensures
        int_sum(changes) == crate::messages::payload_sum(frames),
    decreases frames.len(),
{
    if frames.len() > 0 {
        let f = frames.drop_last();
        let c = changes.drop_last();
        assert forall|i: int| 0 <= i < f.len() implies c[i] == crate::messages::sum_values(#[trigger] f[i].rwset@) by {
            assert(f[i] == frames[i]);
        }
        lemma_changes_sum(f, c);
        assert(frames.last() == frames[frames.len() - 1]);
    }
}

/// A committed transfer moves no value in or out of the system: when each of
/// its frames runs on its shard, each shard's net balance changes by that
/// frame's deltas (as `execute_frame` states); over all the shards the changes
/// add up to the transfer's own sum, which is zero for a balanced transfer.
pub proof fn lemma_committed_transfer_balanced(pol: ShardPolicy, p: Seq<RWSet>, frames: Seq<Frame>, changes: Seq<int>)
    requires
        placeable(pol, p),
        crate::messages::sum_values(p) == 0,
        frames_view(frames) == split_payload(pol, p, pol.spec_shard_num() as nat),
        changes.len() == frames.len(),
        forall|i: int| 0 <= i < frames.len() ==> changes[i] == crate::messages::sum_values(#[trigger] frames[i].rwset@),
    ensures
        int_sum(changes) == 0,
{
    lemma_changes_sum(frames, changes);
    lemma_payload_sum_kept(pol, p, frames);
}

} // verus!
