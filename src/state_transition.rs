use vstd::prelude::*;
use crate::account_store::{current, Account, AccountStore, INIT_BALANCE};
use crate::messages::{sum_values, RWSet};

verus! {

/// Applies one delta to the account at `a`: the balance moves by `v`; a debit
/// also counts one more nonce. None when a debit would leave the balance below
/// zero, or when the balance or nonce would leave its machine range.
pub open spec fn apply_entry(m: Map<Seq<u8>, Account>, a: Seq<u8>, v: int) -> Option<
    Map<Seq<u8>, Account>,
> {
    let acc = current(m, a);
    let nb = acc.balance + v;
    if nb < i64::MIN || nb > i64::MAX {
        None
    } else if v < 0 {
        if nb < 0 || acc.nonce == u64::MAX {
            None
        } else {
            Some(m.insert(a, Account { nonce: (acc.nonce + 1) as u64, balance: nb as i64 }))
        }
    } else {
        Some(m.insert(a, Account { nonce: acc.nonce, balance: nb as i64 }))
    }
}

/// Applies the deltas in order; None as soon as one of them cannot be applied.
pub open spec fn apply_rwsets(m: Map<Seq<u8>, Account>, rw: Seq<RWSet>) -> Option<
    Map<Seq<u8>, Account>,
>
    decreases rw.len(),
{
    if rw.len() == 0 {
        Some(m)
    } else {
        match apply_rwsets(m, rw.drop_last()) {
            None => None,
            Some(m2) => apply_entry(m2, rw.last().addr@, rw.last().value as int),
        }
    }
}

/// Some debit among the deltas finds its account, as left by the deltas before
/// it, unable to pay: the balance would drop below zero.
pub open spec fn drives_negative(m: Map<Seq<u8>, Account>, rw: Seq<RWSet>) -> bool {
    exists|k: int|
        0 <= k < rw.len() && #[trigger] rw[k].value < 0 && match apply_rwsets(
            m,
            rw.subrange(0, k),
        ) {
            Some(mk) => current(mk, rw[k].addr@).balance + rw[k].value < 0,
            None => false,
        }
}

/// No delta, applied where the ones before it leave the accounts, takes a
/// balance above the machine range or a debiting account's nonce past its maximum.
pub open spec fn stays_in_range(m: Map<Seq<u8>, Account>, rw: Seq<RWSet>) -> bool {
    forall|k: int|
        0 <= k < rw.len() ==> match #[trigger] apply_rwsets(m, rw.subrange(0, k)) {
            Some(mk) => current(mk, rw[k].addr@).balance + rw[k].value <= i64::MAX && current(
                mk,
                rw[k].addr@,
            ).balance + rw[k].value >= i64::MIN && (rw[k].value < 0 ==> current(
                mk,
                rw[k].addr@,
            ).nonce < u64::MAX),
            None => true,
        }
}

proof fn lemma_prefix_step(m: Map<Seq<u8>, Account>, rw: Seq<RWSet>, i: int)
    requires
        0 <= i < rw.len(),
    ensures
        apply_rwsets(m, rw.subrange(0, i + 1)) == match apply_rwsets(m, rw.subrange(0, i)) {
            None => None,
            Some(m2) => apply_entry(m2, rw[i].addr@, rw[i].value as int),
        },
{
    assert(rw.subrange(0, i + 1).drop_last() =~= rw.subrange(0, i));
}

proof fn lemma_prefix_some(m: Map<Seq<u8>, Account>, rw: Seq<RWSet>, i: int)
    requires
        0 <= i <= rw.len(),
        apply_rwsets(m, rw) is Some,
    ensures
        apply_rwsets(m, rw.subrange(0, i)) is Some,
    decreases rw.len(),
{
    if i == rw.len() {
        assert(rw.subrange(0, i) =~= rw);
    } else {
        lemma_prefix_some(m, rw.drop_last(), i);
        assert(rw.drop_last().subrange(0, i) =~= rw.subrange(0, i));
    }
}

proof fn lemma_sum_step(rw: Seq<RWSet>, i: int)
    requires
        0 <= i < rw.len(),
    ensures
        sum_values(rw.subrange(0, i + 1)) == sum_values(rw.subrange(0, i)) + rw[i].value,
{
    assert(rw.subrange(0, i + 1).drop_last() =~= rw.subrange(0, i));
}

/// The balance check is exact: as long as no balance or nonce leaves its
/// machine range, a frame's deltas fail to apply exactly when some debit would
/// drive its account below zero.
pub proof fn lemma_balance_check_exact(m: Map<Seq<u8>, Account>, rw: Seq<RWSet>)
    requires
        stays_in_range(m, rw),
    ensures
        apply_rwsets(m, rw) is None <==> drives_negative(m, rw),
    decreases rw.len(),
{
    if rw.len() == 0 {
    } else {
        let n = rw.len() - 1;
        let p = rw.drop_last();
        assert forall|k: int| 0 <= k < p.len() implies match #[trigger] apply_rwsets(
            m,
            p.subrange(0, k),
        ) {
            Some(mk) => current(mk, p[k].addr@).balance + p[k].value <= i64::MAX && current(
                mk,
                p[k].addr@,
            ).balance + p[k].value >= i64::MIN && (p[k].value < 0 ==> current(
                mk,
                p[k].addr@,
            ).nonce < u64::MAX),
            None => true,
        } by {
            assert(p.subrange(0, k) =~= rw.subrange(0, k));
            assert(apply_rwsets(m, rw.subrange(0, k)) == apply_rwsets(m, p.subrange(0, k)));
        }
        lemma_balance_check_exact(m, p);
        assert(rw.subrange(0, n) =~= p);
        assert(apply_rwsets(m, rw.subrange(0, n)) == apply_rwsets(m, p));
        if drives_negative(m, p) {
            let k = choose|k: int|
                0 <= k < p.len() && #[trigger] p[k].value < 0 && match apply_rwsets(
                    m,
                    p.subrange(0, k),
                ) {
                    Some(mk) => current(mk, p[k].addr@).balance + p[k].value < 0,
                    None => false,
                };
            assert(p.subrange(0, k) =~= rw.subrange(0, k));
            assert(rw[k].value < 0);
        }
        if drives_negative(m, rw) && !drives_negative(m, p) {
            let k = choose|k: int|
                0 <= k < rw.len() && #[trigger] rw[k].value < 0 && match apply_rwsets(
                    m,
                    rw.subrange(0, k),
                ) {
                    Some(mk) => current(mk, rw[k].addr@).balance + rw[k].value < 0,
                    None => false,
                };
            if k < n {
                assert(p.subrange(0, k) =~= rw.subrange(0, k));
                assert(p[k].value < 0);
            }
        }
    }
}

/// Executes one frame's deltas on `store` as one step: either all of them are
/// applied, or, when the balance check fails, none.
pub fn execute_frame(store: &mut AccountStore, rwset: &Vec<RWSet>) -> (ok: bool)
    requires
        old(store).wf(),
    ensures
        final(store).wf(),
        ok == apply_rwsets(old(store)@, rwset@) is Some,
        ok ==> Some(final(store)@) == apply_rwsets(old(store)@, rwset@),
        ok ==> final(store).net_total() == old(store).net_total() + sum_values(rwset@),
        !ok ==> final(store)@ == old(store)@ && final(store).net_total() == old(store).net_total(),
{
    if !check_frame(store, rwset) {
        return false;
    }
    let ghost m0 = store@;
    let ghost t0 = store.net_total();
    let mut i: usize = 0;
    assert(rwset@.subrange(0, 0) =~= Seq::<RWSet>::empty());
    while i < rwset.len()
        invariant
            store.wf(),
            i <= rwset@.len(),
            apply_rwsets(m0, rwset@) is Some,
            apply_rwsets(m0, rwset@.subrange(0, i as int)) == Some(store@),
            store.net_total() == t0 + sum_values(rwset@.subrange(0, i as int)),
        decreases rwset@.len() - i,
    {
        let ghost before = store@;
        proof {
            lemma_prefix_step(m0, rwset@, i as int);
            lemma_prefix_some(m0, rwset@, i as int + 1);
            lemma_sum_step(rwset@, i as int);
        }
        let e = &rwset[i];
        let acc = store.load(&e.addr);
        let nb: i64 = acc.balance + e.value;
        let nonce: u64 = if e.value < 0 {
            acc.nonce + 1
        } else {
            acc.nonce
        };
        store.insert(&e.addr, Account { nonce, balance: nb });
        i = i + 1;
    }
    assert(rwset@.subrange(0, rwset@.len() as int) =~= rwset@);
    true
}

/// Runs the deltas on a scratch copy of the touched accounts and reports
/// whether all of them apply; the store itself is left alone.
fn check_frame(store: &AccountStore, rwset: &Vec<RWSet>) -> (ok: bool)
    requires
        store.wf(),
    ensures
        ok == apply_rwsets(store@, rwset@) is Some,
{
    let mut scratch = AccountStore::new();
    let mut i: usize = 0;
    assert(store@.union_prefer_right(scratch@) =~= store@);
    assert(rwset@.subrange(0, 0) =~= Seq::<RWSet>::empty());
    while i < rwset.len()
        invariant
            store.wf(),
            scratch.wf(),
            i <= rwset@.len(),
            apply_rwsets(store@, rwset@.subrange(0, i as int)) == Some(
                store@.union_prefer_right(scratch@),
            ),
        decreases rwset@.len() - i,
    {
        proof {
            lemma_prefix_step(store@, rwset@, i as int);
        }
        let ghost u = store@.union_prefer_right(scratch@);
        let e = &rwset[i];
        let acc = match scratch.get(&e.addr) {
            Some(a) => a,
            None => store.load(&e.addr),
        };
        assert(acc == current(u, e.addr@));
        let nb: i128 = acc.balance as i128 + e.value as i128;
        if nb < i64::MIN as i128 || nb > i64::MAX as i128 {
            proof {
                lemma_none_stays(store@, rwset@, i as int + 1);
            }
            return false;
        }
        if e.value < 0 && (nb < 0 || acc.nonce == u64::MAX) {
            proof {
                lemma_none_stays(store@, rwset@, i as int + 1);
            }
            return false;
        }
        let nonce: u64 = if e.value < 0 {
            acc.nonce + 1
        } else {
            acc.nonce
        };
        let ghost sc = scratch@;
        scratch.insert(&e.addr, Account { nonce, balance: nb as i64 });
        assert(u.insert(e.addr@, Account { nonce, balance: nb as i64 }) =~= store@.union_prefer_right(
            scratch@,
        ));
        i = i + 1;
    }
    assert(rwset@.subrange(0, rwset@.len() as int) =~= rwset@);
    true
}

proof fn lemma_none_stays(m: Map<Seq<u8>, Account>, rw: Seq<RWSet>, i: int)
    requires
        0 <= i <= rw.len(),
        apply_rwsets(m, rw.subrange(0, i)) is None,
    ensures
        apply_rwsets(m, rw) is None,
{
    if apply_rwsets(m, rw) is Some {
        lemma_prefix_some(m, rw, i);
    }
}

} // verus!
