use ed25519_dalek::Digest as _;
use shardag::acc_shard::{address_from_hex, Account2Shard, Account2ShardGraph, Account2ShardHash, AccToShardItem, TableError};
use shardag::account_store::{Account, AccountStore, INIT_BALANCE};
use shardag::batch_maker::BatchMaker;
use shardag::broker::{assemble_tx, broker_addresses, random_select_brokers};
use shardag::state_store::BrokerItem;
use shardag::config::{Authority, Committee, ParamKind, Parameters};
use shardag::cs_msg_verifier::{
    dual_append_step, is_opt_packager, serial_append_step, shuffle_node_id_list, try_local_append,
    AppendAction, AppendEvent, AppendState, SerialState,
};
use shardag::csmsg_store::{AppendedType, CSMsgId, CSMsgStore};
use shardag::messages::{payload_message, Frame, RWSet, Transaction};
use shardag::state_transition::execute_frame;

fn addr(last: u8) -> Vec<u8> {
    let mut a = vec![0u8; 19];
    a.push(last);
    a
}

#[test]
fn single_shard_hash_places_everything_in_shard_zero() {
    let policy = Account2ShardHash::new(1);
    for last in [0u8, 1, 2, 77, 255] {
        assert_eq!(policy.get_shard(&addr(last)), 0);
    }
    let two = Account2ShardHash::new(2);
    assert_eq!(two.get_shard(&addr(0x01)), 1);
    assert_eq!(two.get_shard(&addr(0x02)), 0);
}

#[test]
fn graph_policy_prefers_table_then_hash() {
    let items = vec![
        AccToShardItem { account: String::from("0xA1E4380A3B1f749673E270229993eE55F35663b4"), shard: 1 },
        AccToShardItem { account: String::from("0x0000000000000000000000000000000000000002"), shard: 1 },
        AccToShardItem { account: String::from("0x0000000000000000000000000000000000000002"), shard: 0 },
    ];
    let graph = Account2ShardGraph::new(2, &items).ok().unwrap();
    let known = address_from_hex("0xA1E4380A3B1f749673E270229993eE55F35663b4").unwrap();
    assert_eq!(graph.get_shard(&known), 1);
    assert_eq!(graph.get_shard(&addr(0x02)), 0);
    assert_eq!(graph.get_shard(&addr(0x03)), 1);

    let bad = vec![AccToShardItem { account: String::from("0xZZ"), shard: 0 }];
    assert!(matches!(Account2ShardGraph::new(2, &bad), Err(TableError::BadAddress(0))));
}

#[test]
fn hex_addresses_decode_to_bytes() {
    let a = address_from_hex("0xA1E4380A3B1f749673E270229993eE55F35663b4").unwrap();
    assert_eq!(a.len(), 20);
    assert_eq!(a[0], 0xA1);
    assert_eq!(a[1], 0xE4);
    assert_eq!(a[19], 0xB4);
    assert!(address_from_hex("0xabc").is_none());
    assert!(address_from_hex("0xgg").is_none());
    assert!(address_from_hex("0").is_none());
    assert_eq!(address_from_hex("0x").unwrap(), Vec::<u8>::new());
}

#[test]
fn store_insert_then_get_and_remove() {
    let mut store = AccountStore::new();
    let k = addr(9);
    let v = Account { nonce: 3, balance: 44 };
    store.insert(&k, v);
    assert_eq!(store.get(&k), Some(v));
    assert_eq!(store.len(), 1);
    assert_eq!(store.remove(&k), Some(v));
    assert_eq!(store.get(&k), None);
    assert_eq!(store.remove(&k), None);
    assert_eq!(store.len(), 0);
}

#[test]
fn balance_check_rejects_exactly_overdrafts() {
    let a = addr(1);
    let b = addr(2);
    let mut store = AccountStore::new();
    assert!(execute_frame(&mut store, &vec![RWSet { addr: a.clone(), value: -INIT_BALANCE }, RWSet { addr: b.clone(), value: INIT_BALANCE }]));
    assert_eq!(store.get(&a).unwrap(), Account { nonce: 1, balance: 0 });
    assert_eq!(store.get(&b).unwrap(), Account { nonce: 0, balance: 2 * INIT_BALANCE });

    let mut fresh = AccountStore::new();
    assert!(!execute_frame(&mut fresh, &vec![RWSet { addr: b.clone(), value: 1 }, RWSet { addr: a.clone(), value: -(INIT_BALANCE + 1) }]));
    assert_eq!(fresh.len(), 0);

    assert!(execute_frame(&mut fresh, &vec![RWSet { addr: a.clone(), value: 5 }, RWSet { addr: a.clone(), value: -(INIT_BALANCE + 5) }]));
    assert_eq!(fresh.get(&a).unwrap(), Account { nonce: 1, balance: 0 });
}

#[test]
fn executed_message_is_refused_for_good() {
    let mut book = CSMsgStore::new(2);
    let id = CSMsgId { source_shard: 3, sequence: 8 };
    assert!(book.can_executed(id));
    assert_eq!(book.add_csmsg_sig(id, vec![1]), (true, vec![]));
    book.update_executed(id);
    assert!(!book.can_executed(id));
    let (updated, woken) = book.update_appended(id, AppendedType::Remote);
    assert!(updated);
    assert!(woken.is_empty());
    assert!(!book.can_executed(id));
    assert_eq!(book.add_csmsg_sig(id, vec![2]), (false, vec![]));
    assert!(!book.can_executed(id));
}

#[test]
fn signature_quorum_and_waiters() {
    let mut book = CSMsgStore::new(2);
    let id = CSMsgId { source_shard: 0, sequence: 1 };
    assert_eq!(book.add_csmsg_sig(id, vec![1]), (true, vec![]));
    assert!(!book.notify_appended(id, 77));
    assert_eq!(book.add_csmsg_sig(id, vec![2]), (true, vec![vec![1], vec![2]]));
    assert_eq!(book.add_csmsg_sig(id, vec![3]), (false, vec![]));
    assert_eq!(book.update_appended(id, AppendedType::Local), (true, vec![77]));
    assert_eq!(book.update_appended(id, AppendedType::Local), (false, vec![]));
    assert!(book.notify_appended(id, 78));
}

#[test]
fn pessimistic_append_without_packagers() {
    let mut book = CSMsgStore::new(1);
    let id = CSMsgId { source_shard: 0, sequence: 5 };
    assert_eq!(book.add_csmsg_sig(id, vec![1]), (true, vec![vec![1]]));
    let (s1, a1) = dual_append_step(false, AppendState::Start, AppendEvent::Begin);
    assert_eq!(a1, AppendAction::AwaitNotify);
    let (s2, a2) = dual_append_step(false, s1, AppendEvent::TimedOut);
    assert_eq!(a2, AppendAction::TryLocalAppend);
    let (updated, _) = try_local_append(&mut book, id);
    assert!(updated);
    let (s3, a3) = dual_append_step(false, s2, AppendEvent::LocalResult(updated));
    assert_eq!(a3, AppendAction::Enqueue);
    assert_eq!(s3, AppendState::Done);

    let (_, p1) = dual_append_step(true, AppendState::Start, AppendEvent::Begin);
    assert_eq!(p1, AppendAction::TryLocalAppend);
    let (again, _) = try_local_append(&mut book, id);
    assert!(!again);
}

#[test]
fn serial_append_passes_turns() {
    let order = vec![4usize, 2, 0, 1];
    let start = SerialState { turn: 0, done: false };
    let (s, a) = serial_append_step(&order, 2, 2, start, AppendEvent::Begin);
    assert_eq!(a, AppendAction::AwaitNotify);
    let (s, a) = serial_append_step(&order, 2, 2, s, AppendEvent::TimedOut);
    assert_eq!(a, AppendAction::TryLocalAppend);
    assert_eq!(s.turn, 1);
    let (s, a) = serial_append_step(&order, 2, 2, s, AppendEvent::LocalResult(true));
    assert_eq!(a, AppendAction::Enqueue);
    assert!(s.done);
    let (s, a) = serial_append_step(&order, 2, 0, SerialState { turn: 1, done: false }, AppendEvent::TimedOut);
    assert_eq!(a, AppendAction::Nothing);
    assert!(s.done);
}

#[test]
fn node_order_is_a_keyed_permutation() {
    let key = [7u8; 32];
    let order = shuffle_node_id_list(10, &key);
    let again = shuffle_node_id_list(10, &key);
    assert_eq!(order, again);
    let mut sorted = order.clone();
    sorted.sort();
    assert_eq!(sorted, (0..10).collect::<Vec<usize>>());
    assert_eq!(is_opt_packager(&order, order[0]), true);
    assert_eq!(is_opt_packager(&order, order[1]), true);
    assert_eq!(is_opt_packager(&order, order[2]), false);
}

#[test]
fn broker_pool_is_drawn_without_repeats() {
    let brokers: Vec<Vec<u8>> = (0..100u8).map(addr).collect();
    let pool = random_select_brokers(&brokers, 100, 40, 3);
    assert_eq!(pool.len(), 40);
    let mut seen = pool.clone();
    seen.sort();
    seen.dedup();
    assert_eq!(seen.len(), 40);
    assert_eq!(pool, random_select_brokers(&brokers, 100, 40, 3));
    assert_ne!(pool, random_select_brokers(&brokers, 100, 40, 4));
}

#[test]
fn assembled_transfer_balances_to_zero() {
    let tx = assemble_tx(addr(1), addr(2), 25, 1, 9, 0, 1, None, None, 0);
    assert_eq!(tx.payload.len(), 1);
    let sum: i64 = tx.payload[0].rwset.iter().map(|e| e.value).sum();
    assert_eq!(sum, 0);
    assert_eq!(tx.payload[0].rwset[0].value, -25);
    assert_eq!(tx.payload[0].rwset[1].value, 25);
}

#[test]
fn payload_hash_is_sha512_prefix() {
    let frames = vec![Frame { shardid: 1, rwset: vec![RWSet { addr: vec![0xAB, 0xCD], value: -2 }] }];
    let msg = payload_message(&frames);
    let mut expected_msg: Vec<u8> = vec![0, 0, 0, 0, 0, 0, 0, 1, 0xAB, 0xCD];
    expected_msg.extend_from_slice(&(-2i64).to_le_bytes());
    assert_eq!(msg, expected_msg);
    let tx = Transaction::new(addr(1), addr(2), 2, frames, 1, 1, 1, 5, 0, None, None);
    let full = ed25519_dalek::Sha512::digest(&expected_msg);
    assert_eq!(&tx.payload_hash[..], &full[..32]);
    assert_ne!(tx.payload_hash, [0u8; 32]);
}

#[test]
fn transaction_digest_tracks_step() {
    let frames = vec![
        Frame { shardid: 0, rwset: vec![RWSet { addr: addr(0), value: -1 }] },
        Frame { shardid: 1, rwset: vec![RWSet { addr: addr(1), value: 1 }] },
    ];
    let mut tx = Transaction::new(addr(0), addr(1), 1, frames, 2, 2, 1, 5, 0, None, None);
    let d0 = tx.digest();
    assert_eq!(d0, tx.digest());
    let next = tx.update_relay_info(0);
    assert_eq!(next, 1);
    assert_ne!(d0, tx.digest());
    assert_eq!(tx.get_csmsg_id(), Some(CSMsgId { source_shard: 0, sequence: 0 }));
    tx.pad_to(100);
    assert_eq!(tx.padding.len(), 412);
}

#[test]
fn default_parameters() {
    let p = Parameters::default();
    let lines = p.log();
    assert_eq!(lines.len(), 7);
    assert_eq!(lines[0].kind, ParamKind::HeaderSize);
    assert_eq!(lines[0].value, 1_000);
    assert_eq!(lines[3].value, 5_000);
    assert_eq!(lines[4].value, 3);
    assert_eq!(lines[5].value, 500_000);
}

#[test]
fn batches_seal_on_size_or_timer() {
    let tx = || Transaction::new(addr(1), addr(2), 1, vec![], 0, 1, 1, 0, 0, None, None);
    let mut maker = BatchMaker::new(1_000, 100);
    assert!(maker.on_timer().is_none());
    assert!(maker.add_transaction(tx(), 400).is_none());
    let sealed = maker.add_transaction(tx(), 700).unwrap();
    assert_eq!(sealed.tx_list.len(), 2);
    assert_eq!(sealed.external_tx_nums, 2);
    assert!(maker.on_timer().is_none());
    assert!(maker.add_transaction(tx(), 1).is_none());
    let late = maker.on_timer().unwrap();
    assert_eq!(late.tx_list.len(), 1);
    assert_eq!(maker.max_batch_delay(), 100);
}

#[test]
fn broker_list_rows_become_addresses() {
    let items = vec![
        BrokerItem { account: String::from("0x00000000000000000000000000000000000000ff"), freq: 3 },
        BrokerItem { account: String::from("0x0000000000000000000000000000000000000010"), freq: 1 },
    ];
    let addrs = broker_addresses(&items).ok().unwrap();
    assert_eq!(addrs, vec![addr(0xff), addr(0x10)]);
    let bad = vec![BrokerItem { account: String::from("0x00"), freq: 0 }, BrokerItem { account: String::from("0x1"), freq: 0 }];
    assert!(matches!(broker_addresses(&bad), Err(TableError::BadAddress(1))));
}

#[test]
fn committee_thresholds() {
    let committee = Committee {
        authorities: (0..4u8).map(|i| Authority { name: vec![i], stake: 1 }).collect(),
    };
    assert_eq!(committee.size(), 4);
    assert_eq!(committee.total_stake(), 4);
    assert_eq!(committee.quorum_threshold(), 3);
    assert_eq!(committee.validity_threshold(), 2);
    assert_eq!(committee.stake(&vec![2]), 1);
    assert_eq!(committee.stake(&vec![9]), 0);
    let weighted = Committee { authorities: vec![Authority { name: vec![1], stake: 10 }, Authority { name: vec![2], stake: 5 }] };
    assert_eq!(weighted.quorum_threshold(), 11);
    assert_eq!(weighted.validity_threshold(), 5);
}
