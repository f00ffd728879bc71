use vstd::prelude::*;
use crate::csmsg_store::{
    sig_views, status_in, AppendedType, CSMsgId, CSMsgStatus, CSMsgStore, MsgState, Signature,
};
use crate::primitives::{node_order_of, permute_nodes};

verus! {

/// How many nodes, first in a message's node order, append it at once.
pub const OPT_APPENDING: usize = 2;

/// How long, in milliseconds, a node waits for a peer to append a message
/// before it appends the message itself.
pub const TIMER_RESOLUTION: u64 = 2500;

/// A message digest.
pub type Digest = [u8; 32];

/// How received cross-shard messages are appended into this shard's DAG.
#[derive(Clone, Copy, Debug, PartialEq, Eq, Structural)]
pub enum AppendType {
    /// Opportunistic packagers append at once; the rest wait, then append.
    DualMode,
    /// The first f+1 nodes of the order take turns, each after the previous timed out.
    SerialMode,
}

/// The order in which the nodes of a committee of `shard_size` take on a
/// message whose hash is `msg_hash`; every node computes the same order.
pub fn shuffle_node_id_list(shard_size: usize, msg_hash: &Digest) -> (r: Vec<usize>)
    ensures
        r@ == node_order_of(shard_size as nat, msg_hash@),
        r@.len() == shard_size,
        forall|i: int| 0 <= i < r@.len() ==> r@[i] < shard_size,
        r@.no_duplicates(),
{
    permute_nodes(shard_size, msg_hash)
}

/// Whether `nodeid` is among the first `k` entries of `order`.
pub open spec fn among_first(order: Seq<usize>, k: int, nodeid: usize) -> bool {
    exists|i: int| 0 <= i < k && i < order.len() && order[i] == nodeid
}

/// Whether `nodeid` is one of the opportunistic packagers of an order.
pub fn is_opt_packager(order: &Vec<usize>, nodeid: usize) -> (r: bool)
    ensures
        r == among_first(order@, OPT_APPENDING as int, nodeid),
{
    let mut i: usize = 0;
    while i < OPT_APPENDING && i < order.len()
        invariant
            i <= OPT_APPENDING,
            i <= order@.len(),
            forall|j: int| 0 <= j < i ==> order@[j] != nodeid,
        decreases OPT_APPENDING - i,
    {
        if order[i] == nodeid {
            return true;
        }
        i = i + 1;
    }
    false
}

/// What became of one received partial signature.
pub enum ReceiveOutcome {
    /// This node is flagged to drop every message.
    Dropped,
    /// The message is past validation, or the signature is already held.
    Ignored,
    /// The signature was recorded; no quorum yet.
    Pending,
    /// The signature completed a quorum: these are the partials to assemble.
    Quorum(Vec<Signature>),
}

/// Takes in one partial signature for message `id`: dropped on a node flagged
/// malicious, otherwise recorded in the book, reporting a quorum when it forms.
pub fn receive_partial(store: &mut CSMsgStore, id: CSMsgId, sig: Signature, is_malicious: bool) -> (r:
    ReceiveOutcome)
    requires
        old(store).wf(),
    ensures
        final(store).wf(),
        final(store).threshold() == old(store).threshold(),
        is_malicious ==> r is Dropped && final(store)@ == old(store)@,
        !is_malicious ==> ({
            let prior = if old(store)@.contains_key(id) {
                Some(old(store)@[id])
            } else {
                None
            };
            let pending = match prior {
                Some(p) => p.sigs,
                None => Seq::<Seq<u8>>::empty(),
            };
            let waiters = match prior {
                Some(p) => p.waiters,
                None => Seq::<u64>::empty(),
            };
            let all = pending.push(sig@);
            if (prior is None || prior->Some_0.status == CSMsgStatus::Validating) && !pending.contains(
                sig@,
            ) {
                if all.len() == old(store).threshold() {
                    &&& r is Quorum
                    &&& sig_views(r->Quorum_0@) == all
                    &&& final(store)@ == old(store)@.insert(
                        id,
                        MsgState { status: CSMsgStatus::Validated, sigs: Seq::empty(), waiters },
                    )
                } else {
                    &&& r is Pending
                    &&& final(store)@ == old(store)@.insert(
                        id,
                        MsgState { status: CSMsgStatus::Validating, sigs: all, waiters },
                    )
                }
            } else {
                r is Ignored && final(store)@ == old(store)@
            }
        }),
{
    if is_malicious {
        return ReceiveOutcome::Dropped;
    }
    let (added, sigs) = store.add_csmsg_sig(id, sig);
    if !added {
        ReceiveOutcome::Ignored
    } else if sigs.len() == 0 {
        ReceiveOutcome::Pending
    } else {
        ReceiveOutcome::Quorum(sigs)
    }
}

/// Where a node is in appending one validated message.
#[derive(Clone, Copy, Debug, PartialEq, Eq, Structural)]
pub enum AppendState {
    Start,
    /// Waiting for a peer's append, or for the timer.
    AwaitingNotify,
    /// Waiting for the book's answer to a local append.
    TryingLocal,
    Done,
}

/// What happened since the last step.
#[derive(Clone, Copy, Debug, PartialEq, Eq, Structural)]
pub enum AppendEvent {
    Begin,
    /// The book reported the message appended by a peer.
    Notified,
    /// The timer ran out first.
    TimedOut,
    /// The book answered a local append: whether it took effect.
    LocalResult(bool),
}

/// What the node does next.
#[derive(Clone, Copy, Debug, PartialEq, Eq, Structural)]
pub enum AppendAction {
    /// Ask the book to mark the message appended by this node.
    TryLocalAppend,
    /// Wait for the book's notification, at most TIMER_RESOLUTION.
    AwaitNotify,
    /// Put the inner transaction into this node's next batch.
    Enqueue,
    Nothing,
}

/// One step of dual-mode appending.
pub open spec fn dual_step(is_packager: bool, s: AppendState, e: AppendEvent) -> (AppendState, AppendAction) {
    match (s, e) {
        (AppendState::Start, AppendEvent::Begin) => if is_packager {
            (AppendState::TryingLocal, AppendAction::TryLocalAppend)
        } else {
            (AppendState::AwaitingNotify, AppendAction::AwaitNotify)
        },
        (AppendState::AwaitingNotify, AppendEvent::Notified) => (AppendState::Done, AppendAction::Nothing),
        (AppendState::AwaitingNotify, AppendEvent::TimedOut) => (
            AppendState::TryingLocal,
            AppendAction::TryLocalAppend,
        ),
        (AppendState::TryingLocal, AppendEvent::LocalResult(updated)) => if updated {
            (AppendState::Done, AppendAction::Enqueue)
        } else {
            (AppendState::Done, AppendAction::Nothing)
        },
        _ => (s, AppendAction::Nothing),
    }
}

/// Decides the next step of dual-mode appending: a packager appends at once;
/// any other node waits for a peer's append and appends itself on timeout; a
/// local append that took effect puts the transaction into the next batch.
pub fn dual_append_step(is_packager: bool, s: AppendState, e: AppendEvent) -> (r: (
    AppendState,
    AppendAction,
))
    ensures
        r == dual_step(is_packager, s, e),
{
    match (s, e) {
        (AppendState::Start, AppendEvent::Begin) => if is_packager {
            (AppendState::TryingLocal, AppendAction::TryLocalAppend)
        } else {
            (AppendState::AwaitingNotify, AppendAction::AwaitNotify)
        },
        (AppendState::AwaitingNotify, AppendEvent::Notified) => (AppendState::Done, AppendAction::Nothing),
        (AppendState::AwaitingNotify, AppendEvent::TimedOut) => (
            AppendState::TryingLocal,
            AppendAction::TryLocalAppend,
        ),
        (AppendState::TryingLocal, AppendEvent::LocalResult(updated)) => if updated {
            (AppendState::Done, AppendAction::Enqueue)
        } else {
            (AppendState::Done, AppendAction::Nothing)
        },
        _ => (s, AppendAction::Nothing),
    }
}

/// Performs a local append in the book: true when it took effect, together
/// with the waiters to wake.
pub fn try_local_append(store: &mut CSMsgStore, id: CSMsgId) -> (r: (bool, Vec<u64>))
    requires
        old(store).wf(),
        old(store)@.contains_key(id),
    ensures
        final(store).wf(),
        r.0 == (status_in(old(store)@, id) == Some(CSMsgStatus::Validating) || status_in(
            old(store)@,
            id,
        ) == Some(CSMsgStatus::Validated)),
        r.0 ==> status_in(final(store)@, id) == Some(CSMsgStatus::Appended),
        !r.0 ==> final(store)@ == old(store)@,
{
    store.update_appended(id, AppendedType::Local)
}

/// A validated message reaches the batch of a node that is not a packager,
/// even when no packager appends it: the node waits once, for at most
/// TIMER_RESOLUTION, then appends it locally and enqueues it.
pub proof fn lemma_pessimistic_path_appends(m: Map<CSMsgId, MsgState>, id: CSMsgId)
    requires
        status_in(m, id) == Some(CSMsgStatus::Validated),
    ensures
        dual_step(false, AppendState::Start, AppendEvent::Begin) == (
            AppendState::AwaitingNotify,
            AppendAction::AwaitNotify,
        ),
        dual_step(false, AppendState::AwaitingNotify, AppendEvent::TimedOut) == (
            AppendState::TryingLocal,
            AppendAction::TryLocalAppend,
        ),
        dual_step(false, AppendState::TryingLocal, AppendEvent::LocalResult(
            status_in(m, id) == Some(CSMsgStatus::Validating) || status_in(m, id) == Some(
                CSMsgStatus::Validated,
            ),
        )) == (AppendState::Done, AppendAction::Enqueue),
{
}

/// Where a node is in serial-mode appending: whose turn it is among the
/// first f+1 nodes of the order, and whether the message is settled.
#[derive(Clone, Copy, Debug, PartialEq, Eq, Structural)]
pub struct SerialState {
    pub turn: usize,
    pub done: bool,
}

/// One step of serial-mode appending over the first `leaders` entries of
/// `order`: on its own turn the node appends locally; on another's turn it
/// waits, and a timeout passes the turn on. A notification, a local append
/// that took effect, or the end of the turns settles it. A local append that
/// did not take effect means a peer appended the message: that settles it too.
pub open spec fn serial_step(order: Seq<usize>, leaders: int, nodeid: usize, s: SerialState, e: AppendEvent) -> (
    SerialState,
    AppendAction,
) {
    if s.done || s.turn >= leaders || s.turn >= order.len() {
        (SerialState { turn: s.turn, done: true }, AppendAction::Nothing)
    } else {
        match e {
            AppendEvent::Begin => if order[s.turn as int] == nodeid {
                (s, AppendAction::TryLocalAppend)
            } else {
                (s, AppendAction::AwaitNotify)
            },
            AppendEvent::Notified => (SerialState { turn: s.turn, done: true }, AppendAction::Nothing),
            AppendEvent::TimedOut => {
                let next = SerialState { turn: (s.turn + 1) as usize, done: false };
                if next.turn >= leaders || next.turn >= order.len() {
                    (SerialState { turn: next.turn, done: true }, AppendAction::Nothing)
                } else if order[next.turn as int] == nodeid {
                    (next, AppendAction::TryLocalAppend)
                } else {
                    (next, AppendAction::AwaitNotify)
                }
            },
            AppendEvent::LocalResult(updated) => if updated {
                (SerialState { turn: s.turn, done: true }, AppendAction::Enqueue)
            } else {
                (SerialState { turn: s.turn, done: true }, AppendAction::Nothing)
            },
        }
    }
}

/// Decides the next step of serial-mode appending.
pub fn serial_append_step(order: &Vec<usize>, leaders: usize, nodeid: usize, s: SerialState, e: AppendEvent) -> (r: (
    SerialState,
    AppendAction,
))
    requires
        s.turn < usize::MAX,
    ensures
        r == serial_step(order@, leaders as int, nodeid, s, e),
{
    if s.done || s.turn >= leaders || s.turn >= order.len() {
        return (SerialState { turn: s.turn, done: true }, AppendAction::Nothing);
    }
    match e {
        AppendEvent::Begin => if order[s.turn] == nodeid {
            (s, AppendAction::TryLocalAppend)
        } else {
            (s, AppendAction::AwaitNotify)
        },
        AppendEvent::Notified => (SerialState { turn: s.turn, done: true }, AppendAction::Nothing),
        AppendEvent::TimedOut => {
            let next = SerialState { turn: s.turn + 1, done: false };
            if next.turn >= leaders || next.turn >= order.len() {
                (SerialState { turn: next.turn, done: true }, AppendAction::Nothing)
            } else if order[next.turn] == nodeid {
                (next, AppendAction::TryLocalAppend)
            } else {
                (next, AppendAction::AwaitNotify)
            }
        },
        AppendEvent::LocalResult(updated) => if updated {
            (SerialState { turn: s.turn, done: true }, AppendAction::Enqueue)
        } else {
            (SerialState { turn: s.turn, done: true }, AppendAction::Nothing)
        },
    }
}

} // verus!
