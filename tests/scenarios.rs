use shardag::acc_shard::{Account2ShardHash, ShardPolicy};
use shardag::account_store::{Account, AccountStore, INIT_BALANCE};
use shardag::batch_fetcher::{all_loaded, missing_batches, try_fetch_payload, ConvertStep, MissingBatchFetcher, PayloadEntry};
use shardag::broker::{Broker, BrokerManager};
use shardag::convert_tx::ConvertTx;
use shardag::cs_msg_sender::{monitor_csmsg_appending, CSMsgSender};
use shardag::cs_msg_verifier::{receive_partial, ReceiveOutcome};
use shardag::csmsg_store::{CSMsgId, CSMsgStore};
use shardag::executor::{Executor, ExecutorKind};
use shardag::messages::{CoreTx, CSMsg, RWSet, SHARD_NONE};
use shardag::state_store::{MStore, TStore};

fn addr(last: u8) -> Vec<u8> {
    let mut a = vec![0u8; 19];
    a.push(last);
    a
}

fn addr_with(prefix: u8, last: u8) -> Vec<u8> {
    let mut a = vec![prefix; 19];
    a.push(last);
    a
}

fn two_shards() -> ShardPolicy {
    ShardPolicy::Hash(Account2ShardHash::new(2))
}

fn client_tx(counter: u64, sender: &Vec<u8>, receiver: &Vec<u8>, amount: i64) -> CoreTx {
    CoreTx {
        sample: 1,
        counter,
        sender: sender.clone(),
        receiver: receiver.clone(),
        amount,
        payload: vec![
            RWSet { addr: sender.clone(), value: -amount },
            RWSet { addr: receiver.clone(), value: amount },
        ],
    }
}

#[test]
fn same_shard_transfer_commits() {
    let s = addr(0x00);
    let r = addr(0x02);
    let policy = two_shards();
    let (tx, first) = ConvertTx::new().rawtx2tx(&policy, client_tx(1, &s, &r, 5), 0).unwrap();
    assert_eq!(first, 0);
    assert_eq!(tx.payload.len(), 1);
    assert_eq!(tx.involved_shard_num, 1);

    let mut store = AccountStore::new();
    let mut book = CSMsgStore::new(2);
    let mut exec = Executor::new(0, ExecutorKind::Relay);
    let out = exec.process_tx_block(&mut store, &mut book, vec![vec![tx]]);
    assert!(out.is_empty());
    assert_eq!(store.get(&s).unwrap().balance, INIT_BALANCE - 5);
    assert_eq!(store.get(&s).unwrap().nonce, 1);
    assert_eq!(store.get(&r).unwrap().balance, INIT_BALANCE + 5);
    assert_eq!(exec.counters.total_general_txs, 1);
    assert_eq!(exec.counters.total_commit_txs, 1);
    assert_eq!(exec.counters.total_cross_shard_txs, 0);
}

#[test]
fn cross_shard_relay_executes_once() {
    let s = addr(0x00);
    let r = addr(0x01);
    let policy = two_shards();
    let (tx, first) = ConvertTx::new().rawtx2tx(&policy, client_tx(2, &s, &r, 7), 0).unwrap();
    assert_eq!(first, 0);
    assert_eq!(tx.payload.len(), 2);
    assert_eq!(tx.payload[0].shardid, 0);
    assert_eq!(tx.payload[1].shardid, 1);

    let mut store0 = AccountStore::new();
    let mut book0 = CSMsgStore::new(2);
    let mut exec0 = Executor::new(0, ExecutorKind::Relay);
    let mut out = exec0.process_tx_block(&mut store0, &mut book0, vec![vec![tx]]);
    assert_eq!(out.len(), 1);
    assert_eq!(store0.get(&s).unwrap().balance, INIT_BALANCE - 7);
    assert_eq!(exec0.counters.total_cross_shard_txs, 1);
    assert_eq!(exec0.counters.total_commit_txs, 1);
    let relayed = out.pop().unwrap();
    assert_eq!(relayed.target_shard, 1);
    assert_eq!(relayed.tx.step, 1);
    assert_eq!(relayed.tx.source_shard, 0);

    let msg = CSMsg::new(0, 1, 1, relayed.tx, vec![9u8; 32], vec![1u8]);
    let id = msg.get_csmsg_id();
    let mut book1 = CSMsgStore::new(2);
    match receive_partial(&mut book1, id, vec![1u8], false) {
        ReceiveOutcome::Pending => {}
        _ => panic!("one partial is no quorum"),
    }
    let quorum = match receive_partial(&mut book1, id, vec![2u8], false) {
        ReceiveOutcome::Quorum(sigs) => sigs,
        _ => panic!("two partials make the quorum"),
    };
    assert_eq!(quorum, vec![vec![1u8], vec![2u8]]);
    let mut inner = msg.tx;
    inner.set_thres_sig(vec![7u8; 4], 0);

    let mut store1 = AccountStore::new();
    let mut exec1 = Executor::new(1, ExecutorKind::Relay);
    let out1 = exec1.process_tx_block(&mut store1, &mut book1, vec![vec![inner.clone()]]);
    assert!(out1.is_empty());
    assert_eq!(store1.get(&r).unwrap().balance, INIT_BALANCE + 7);
    assert_eq!(exec1.counters.total_commit_txs, 1);
    assert!(!book1.can_executed(CSMsgId { source_shard: 0, sequence: 1 }));

    let replay = exec1.process_tx_block(&mut store1, &mut book1, vec![vec![inner]]);
    assert!(replay.is_empty());
    assert_eq!(store1.get(&r).unwrap().balance, INIT_BALANCE + 7);
    assert_eq!(exec1.counters.total_general_txs, 1);
    assert_eq!(exec1.counters.total_commit_txs, 1);
}

#[test]
fn insufficient_funds_aborts() {
    let s = addr(0x00);
    let r = addr(0x02);
    let policy = two_shards();
    let (tx, _) = ConvertTx::new().rawtx2tx(&policy, client_tx(3, &s, &r, INIT_BALANCE + 1), 0).unwrap();
    let mut store = AccountStore::new();
    let mut book = CSMsgStore::new(2);
    let mut exec = Executor::new(0, ExecutorKind::Monolithic);
    let out = exec.process_tx_block(&mut store, &mut book, vec![vec![tx]]);
    assert!(out.is_empty());
    assert_eq!(exec.counters.total_aborted_txs, 1);
    assert_eq!(exec.counters.total_commit_txs, 0);
    assert!(store.get(&s).is_none());
    assert!(store.get(&r).is_none());
    assert_eq!(store.load(&s).balance, INIT_BALANCE);
    assert_eq!(store.load(&r).balance, INIT_BALANCE);
}

#[test]
fn broker_two_phase_transfer() {
    let brokers: Vec<Vec<u8>> = (0..100u8).map(|i| addr_with(0xBB, 2 * i)).collect();
    let manager = BrokerManager::new(&brokers, 1);
    let mut broker = Broker::new(two_shards(), manager);
    let s = addr(0x00);
    let r = addr(0x01);
    let a: i64 = 10;

    let leg1 = broker.convert_tx(client_tx(42, &s, &r, a), 0);
    assert_eq!(leg1.target_shard, 0);
    let b = leg1.tx.receiver.clone();
    assert_eq!(b[0], 0xBB);
    assert_eq!(leg1.tx.final_receiver, Some(r.clone()));
    assert_eq!(leg1.tx.original_sender, Some(s.clone()));

    let mut store0 = AccountStore::new();
    let mut book0 = CSMsgStore::new(2);
    let mut exec0 = Executor::new(0, ExecutorKind::Broker);
    let mut out = exec0.process_tx_block(&mut store0, &mut book0, vec![vec![leg1.tx]]);
    assert_eq!(out.len(), 1);
    let confirmed = out.pop().unwrap();
    assert_eq!(confirmed.target_shard, SHARD_NONE);

    let leg2 = broker.process_tx1(&confirmed.tx, 0).unwrap();
    assert_eq!(leg2.target_shard, 1);
    assert_eq!(leg2.tx.sender, b);
    assert_eq!(leg2.tx.receiver, r);
    assert!(broker.process_tx1(&confirmed.tx, 0).is_none());

    let mut store1 = AccountStore::new();
    let mut book1 = CSMsgStore::new(2);
    let mut exec1 = Executor::new(1, ExecutorKind::Broker);
    let out1 = exec1.process_tx_block(&mut store1, &mut book1, vec![vec![leg2.tx]]);
    assert!(out1.is_empty());
    assert_eq!(exec1.counters.total_commit_txs, 1);

    assert_eq!(store0.get(&s).unwrap().balance, INIT_BALANCE - a);
    assert_eq!(store1.get(&r).unwrap().balance, INIT_BALANCE + a);
    let b_net = (store0.get(&b).unwrap().balance - INIT_BALANCE) + (store1.get(&b).unwrap().balance - INIT_BALANCE);
    assert_eq!(b_net, 0);
}

#[test]
fn missing_batch_recovery() {
    let d1 = [1u8; 32];
    let d2 = [2u8; 32];
    let payload = vec![
        PayloadEntry { digest: d1, worker_id: 0 },
        PayloadEntry { digest: d2, worker_id: 0 },
    ];
    let missing = missing_batches(&payload, &vec![true, false]);
    assert_eq!(missing.len(), 1);
    assert_eq!(missing[0].digest, d2);

    let author = vec![0xA0u8];
    let others = vec![vec![0xB1u8], vec![0xB2u8], vec![0xB3u8], vec![0xB4u8]];
    let mut fetcher = MissingBatchFetcher::new(5_000, 3);
    let request = fetcher.fetch_missing_batches(&vec![d2], &author, 1_000);
    assert_eq!(request.digests, vec![d2]);
    assert_eq!(request.to, vec![author.clone()]);
    let early = fetcher.on_timer(2_000, &others);
    assert!(early.digests.is_empty());
    assert!(early.to.is_empty());
    let retry = fetcher.on_timer(6_001, &others);
    assert_eq!(retry.digests, vec![d2]);
    assert_eq!(retry.to, others[..3].to_vec());
    assert_eq!(fetcher.on_timer(6_001, &others[..2].to_vec()).to, others[..2].to_vec());
    assert!(fetcher.on_batch_stored(&d2));
    assert!(missing_batches(&payload, &vec![true, true]).is_empty());
    assert!(all_loaded(payload.len(), 2));
    assert!(!all_loaded(payload.len(), 1));
}

fn numbered(i: u32) -> Vec<u8> {
    let mut a = vec![0xAAu8; 16];
    a.extend_from_slice(&i.to_be_bytes());
    a
}

#[test]
fn migration_round_trip() {
    let mut source = TStore::new(0);
    for i in 0..1000u32 {
        source.load_full(&numbered(i), Account { nonce: i as u64, balance: 1_000 + i as i64 });
    }
    for i in 0..400u32 {
        assert!(source.get(&numbered(i)).is_some());
    }
    let out_act: Vec<Vec<u8>> = (0..300u32).map(numbered).collect();
    let out_dor: Vec<Vec<u8>> = (400..500u32).map(numbered).collect();
    let migration = source.migrate_out(&out_act, &out_dor, 9, 1);
    assert_eq!(migration.active_accs.len(), 300);
    assert_eq!(migration.dormant_accs.len(), 100);
    assert_eq!(migration.source_shard, 0);
    assert_eq!(migration.target_shard, 1);

    let mut target = TStore::new(1);
    target.migrate_in(&migration);
    for i in (0..300u32).chain(400..500u32) {
        let got = target.get(&numbered(i)).unwrap();
        assert_eq!(got, Account { nonce: i as u64, balance: 1_000 + i as i64 });
        assert!(source.get(&numbered(i)).is_none());
    }
    assert!(source.get(&numbered(350)).is_some());
    assert!(source.get(&numbered(999)).is_some());
}

#[test]
fn single_tier_migration_moves_accounts() {
    let mut source = MStore::new(0);
    for i in 0..10u32 {
        source.insert(&numbered(i), Account { nonce: 0, balance: i as i64 });
    }
    let out_act: Vec<Vec<u8>> = (0..3u32).map(numbered).collect();
    let out_dor: Vec<Vec<u8>> = vec![numbered(5), numbered(6), numbered(42)];
    let migration = source.migrate_out(&out_act, &out_dor, 2, 1);
    assert_eq!(migration.active_accs.len(), 3);
    assert_eq!(migration.dormant_accs.len(), 2);
    let mut target = MStore::new(1);
    target.migrate_in(&migration);
    for i in [0u32, 1, 2, 5, 6] {
        assert_eq!(target.get(&numbered(i)), Some(Account { nonce: 0, balance: i as i64 }));
        assert_eq!(source.get(&numbered(i)), None);
    }
    assert_eq!(source.get(&numbered(7)), Some(Account { nonce: 0, balance: 7 }));
    assert_eq!(target.get(&numbered(42)), None);
}

#[test]
fn sender_sequences_and_roles() {
    let s = addr(0x00);
    let r = addr(0x01);
    let policy = two_shards();
    let (tx, _) = ConvertTx::new().rawtx2tx(&policy, client_tx(5, &s, &r, 3), 0).unwrap();
    let mut sender = CSMsgSender::new(0, 2, false, 2, 4, 4, 4);
    let first = sender.prepare(1, tx.clone(), vec![1]).unwrap();
    let second = sender.prepare(1, tx.clone(), vec![1]).unwrap();
    assert_eq!(first.msg.csmsg_sequence, 0);
    assert_eq!(second.msg.csmsg_sequence, 1);
    assert_eq!(sender.cs_msg_id, vec![0, 2]);
    assert!(first.send);
    assert_eq!(first.receivers.len(), 4);
    let mut roles = first.receivers.clone();
    roles.sort();
    assert_eq!(roles, vec![0, 1, 2, 3]);
    assert_eq!(first.msg.inner_tx_hash, first.msg.tx.digest());

    let to_broker = sender.prepare_to_broker(tx.clone(), vec![1]).unwrap();
    assert_eq!(to_broker.msg.target_shard, SHARD_NONE);
    assert_eq!(to_broker.msg.csmsg_sequence, 0);
    assert_eq!(sender.tx1_id, 1);
    assert!(to_broker.receivers.is_empty());

    let mut silent = CSMsgSender::new(0, 0, true, 2, 4, 4, 4);
    assert!(silent.prepare(1, tx, vec![1]).is_none());
    assert_eq!(silent.cs_msg_id, vec![0, 0]);
}

#[test]
fn receivers_mark_remote_appends() {
    let s = addr(0x00);
    let r = addr(0x01);
    let policy = two_shards();
    let (mut tx, _) = ConvertTx::new().rawtx2tx(&policy, client_tx(6, &s, &r, 3), 0).unwrap();
    tx.update_relay_info(0);
    tx.set_csmsg_sequence(4);
    tx.set_thres_sig(vec![1], 0);
    let id = CSMsgId { source_shard: 0, sequence: 4 };
    let mut book = CSMsgStore::new(2);
    book.add_csmsg_sig(id, vec![1]);
    assert!(!book.notify_appended(id, 11));
    let woken = monitor_csmsg_appending(&mut book, &vec![tx.clone()], 0, 1, 1);
    assert_eq!(woken, vec![11]);
    assert!(book.notify_appended(id, 12));
    let mut other = CSMsgStore::new(2);
    other.add_csmsg_sig(id, vec![1]);
    let none = monitor_csmsg_appending(&mut other, &vec![tx], 0, 1, 0);
    assert!(none.is_empty());
    assert!(!other.notify_appended(id, 13));
}

#[test]
fn convertor_fetches_then_delivers() {
    let d1 = [1u8; 32];
    let d2 = [2u8; 32];
    let payload = vec![
        PayloadEntry { digest: d1, worker_id: 0 },
        PayloadEntry { digest: d2, worker_id: 1 },
    ];
    match try_fetch_payload(&payload, &vec![true, false]) {
        ConvertStep::Fetch(d) => assert_eq!(d, vec![d2]),
        ConvertStep::Deliver => panic!("a batch is missing"),
    }
    let mut fetcher = MissingBatchFetcher::new(5_000, 3);
    let request = fetcher.fetch_missing_batches(&vec![d2], &vec![7u8], 0);
    assert_eq!(request.digests, vec![d2]);
    assert_eq!(fetcher.on_timer(5_001, &vec![vec![8u8]]).digests, vec![d2]);
    assert!(fetcher.on_batch_stored(&d2));
    assert!(matches!(try_fetch_payload(&payload, &vec![true, true]), ConvertStep::Deliver));
}

#[test]
fn waiter_on_unseen_message() {
    let mut book = CSMsgStore::new(2);
    let id = CSMsgId { source_shard: 1, sequence: 2 };
    assert!(!book.notify_appended(id, 5));
    assert!(book.can_executed(id));
    assert_eq!(book.add_csmsg_sig(id, vec![1]), (true, vec![]));
    assert_eq!(book.update_appended(id, shardag::csmsg_store::AppendedType::Remote), (true, vec![5]));
}

#[test]
fn new_epoch_active_tier() {
    let mut store = TStore::new(0);
    for i in 0..6u32 {
        store.load_full(&numbered(i), Account { nonce: 0, balance: i as i64 });
    }
    for i in 0..4u32 {
        assert!(store.get(&numbered(i)).is_some());
    }
    store.insert(&numbered(2), Account { nonce: 1, balance: 99 });
    store.rebuild_active(&vec![numbered(0), numbered(1), numbered(5)]);
    for i in 0..6u32 {
        let expected = if i == 2 { Account { nonce: 1, balance: 99 } } else { Account { nonce: 0, balance: i as i64 } };
        assert_eq!(store.get(&numbered(i)), Some(expected));
    }
}

#[test]
fn remote_append_wakes_waiters_of_executed_message() {
    let mut book = CSMsgStore::new(2);
    let id = CSMsgId { source_shard: 2, sequence: 9 };
    assert!(!book.notify_appended(id, 41));
    book.update_executed(id);
    assert_eq!(book.update_appended(id, shardag::csmsg_store::AppendedType::Remote), (true, vec![41]));
    assert!(!book.can_executed(id));
    assert_eq!(book.update_appended(id, shardag::csmsg_store::AppendedType::Remote), (true, vec![]));
}

#[test]
fn repeated_partial_is_ignored() {
    let mut book = CSMsgStore::new(2);
    let id = CSMsgId { source_shard: 0, sequence: 3 };
    assert_eq!(book.add_csmsg_sig(id, vec![1]), (true, vec![]));
    assert_eq!(book.add_csmsg_sig(id, vec![1]), (false, vec![]));
    assert_eq!(book.add_csmsg_sig(id, vec![2]), (true, vec![vec![1], vec![2]]));
}
