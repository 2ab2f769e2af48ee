use erc20_balances::abi::Transfer as TransferEvent;
use erc20_balances::algorithms::total_sent_received::compute_total_sent_received;
use erc20_balances::balances;
use erc20_balances::bignum::BigNum;
use erc20_balances::contracts;
use erc20_balances::eth::{
    Block, BlockHeader, Call, Clock, CodeChange, Log, NativeBalanceChange, StorageChange, Timestamp,
    TransactionTrace,
};
use erc20_balances::maps;
use erc20_balances::native;
use erc20_balances::native::Algorithm;
use erc20_balances::native_contracts;
use erc20_balances::erc721::{mint_contracts, tokens_of, Token};
use erc20_balances::native_events::{insert_events, ChangeSource, Events};
use erc20_balances::utils::addresses_for_storage_keys;

fn to_decimal_string(v: &BigNum) -> String {
    substreams::scalar::BigInt::from_signed_bytes_be(&v.bytes).to_string()
}

const TRANSFER_TOPIC: &str = "ddf252ad1be2c89b69c2b068fc378daa952ba7f163c4a11628f55a4df523b3ef";

fn addr(b: u8) -> Vec<u8> {
    vec![b; 20]
}

fn word(value: u64) -> Vec<u8> {
    let mut w = vec![0u8; 24];
    w.extend_from_slice(&value.to_be_bytes());
    w
}

fn padded(a: &[u8]) -> Vec<u8> {
    let mut w = vec![0u8; 12];
    w.extend_from_slice(a);
    w
}

fn transfer_log(contract: &[u8], from: &[u8], to: &[u8], value: u64, index: u32) -> Log {
    Log {
        address: contract.to_vec(),
        topics: vec![hex::decode(TRANSFER_TOPIC).unwrap(), padded(from), padded(to)],
        data: word(value),
        index,
        block_index: index,
        ordinal: 10 + index as u64,
    }
}

fn slot_key(b: u8) -> Vec<u8> {
    vec![b; 32]
}

fn preimage(key: &[u8], owner: &[u8]) -> (String, String) {
    let text = format!("{}{}{}{}", "0".repeat(24), hex::encode(owner), "0".repeat(62), "00");
    (hex::encode(key), text)
}

fn storage(contract: &[u8], key: &[u8], old: u64, new: u64, ordinal: u64) -> StorageChange {
    StorageChange { address: contract.to_vec(), key: key.to_vec(), old_value: word(old), new_value: word(new), ordinal }
}

fn call(index: u32, parent: u32, address: &[u8], logs: Vec<Log>, storage_changes: Vec<StorageChange>, preimages: Vec<(String, String)>) -> Call {
    Call {
        index,
        parent_index: parent,
        depth: if parent == 0 { 0 } else { 1 },
        call_type: 1,
        caller: addr(0xcc),
        address: address.to_vec(),
        address_delegates_to: None,
        value: None,
        begin_ordinal: 5 + index as u64,
        state_reverted: false,
        status_failed: false,
        status_reverted: false,
        logs,
        storage_changes,
        keccak_preimages: preimages,
        balance_changes: vec![],
        code_changes: vec![],
    }
}

fn trx(hash: u8, status: i32, calls: Vec<Call>) -> TransactionTrace {
    TransactionTrace {
        hash: vec![hash; 32],
        from: addr(0xaa),
        to: addr(0x11),
        status,
        value: None,
        gas_price: None,
        gas_used: 0,
        begin_ordinal: 1,
        trx_type: 2,
        calls,
    }
}

fn block(trxs: Vec<TransactionTrace>) -> Block {
    Block {
        number: 7,
        header: Some(BlockHeader { coinbase: addr(0xee), base_fee_per_gas: None }),
        transaction_traces: trxs,
        balance_changes: vec![],
        system_calls: vec![],
    }
}

fn clock() -> Clock {
    Clock { id: "abc".to_string(), number: 7, timestamp: Some(Timestamp { seconds: 1438272138, nanos: 0 }) }
}

// A transfer of 100 from A to B on contract C, whose call lowers A's balance from 300
// to 200 and raises B's from 0 to 100.
fn simple_block() -> Block {
    let c = addr(0x11);
    let a = addr(0xaa);
    let b = addr(0xbb);
    let ka = slot_key(1);
    let kb = slot_key(2);
    let root = call(
        1,
        0,
        &c,
        vec![transfer_log(&c, &a, &b, 100, 0)],
        vec![storage(&c, &ka, 300, 200, 20), storage(&c, &kb, 0, 100, 21)],
        vec![preimage(&ka, &a), preimage(&kb, &b)],
    );
    block(vec![trx(0x77, 1, vec![root])])
}

#[test]
fn root_map_events_finds_transfer_and_balance_changes() {
    let events = maps::map_events(clock(), simple_block());
    assert_eq!(events.transfers.len(), 1);
    let t = &events.transfers[0];
    assert_eq!(t.block_num, 7);
    assert_eq!(t.date, "2015-07-30");
    assert_eq!(t.transaction_id, "77".repeat(32));
    assert_eq!(t.from, "aa".repeat(20));
    assert_eq!(t.to, "bb".repeat(20));
    assert_eq!(t.value, "100");
    assert_eq!(t.contract, "11".repeat(20));
    assert_eq!(t.topic0, TRANSFER_TOPIC);

    assert_eq!(events.balance_changes.len(), 2);
    let first = &events.balance_changes[0];
    assert_eq!(first.owner, "aa".repeat(20));
    assert_eq!(first.old_balance, "300");
    assert_eq!(first.new_balance, "200");
    assert_eq!(first.amount, "-100");
    assert_eq!(first.change_type, 1);
    assert_eq!(first.index, 0);
    assert_eq!(first.version, 7u64 << 32);
    let second = &events.balance_changes[1];
    assert_eq!(second.owner, "bb".repeat(20));
    assert_eq!(second.index, 1);
    assert_eq!(second.version, (7u64 << 32) + 1);
    assert!(first.version < second.version);
}

#[test]
fn root_map_events_ignores_failed_transactions_and_zero_values() {
    let c = addr(0x11);
    let a = addr(0xaa);
    let b = addr(0xbb);
    let failed = trx(0x01, 2, vec![call(1, 0, &c, vec![transfer_log(&c, &a, &b, 5, 0)], vec![], vec![])]);
    let zero = trx(0x02, 1, vec![call(1, 0, &c, vec![transfer_log(&c, &a, &b, 0, 0)], vec![], vec![])]);
    let events = maps::map_events(clock(), block(vec![failed, zero]));
    assert_eq!(events.transfers.len(), 0);
    assert_eq!(events.balance_changes.len(), 0);
}

#[test]
fn balances_map_events_keeps_last_change_per_holder() {
    let c = addr(0x11);
    let a = addr(0xaa);
    let b = addr(0xbb);
    let ka = slot_key(1);
    // two transfers from A in two calls: 300 -> 200, then 200 -> 150
    let first = call(1, 0, &c, vec![transfer_log(&c, &a, &b, 100, 0)], vec![storage(&c, &ka, 300, 200, 20)], vec![preimage(&ka, &a)]);
    let second = call(2, 0, &c, vec![transfer_log(&c, &a, &b, 50, 1)], vec![storage(&c, &ka, 200, 150, 30)], vec![preimage(&ka, &a)]);
    let events = balances::map_events(block(vec![trx(0x77, 1, vec![first, second])]));
    assert_eq!(events.transfers.len(), 2);
    assert_eq!(events.transfers[0].value, "100");
    assert_eq!(events.transfers[1].value, "50");
    assert_eq!(events.transfers[0].algorithm, Algorithm::Log);
    assert_eq!(events.transfers[0].trx_type, 2);
    assert_eq!(events.transfers[0].transaction_id, Some(vec![0x77; 32]));
    assert_eq!(events.balance_changes.len(), 1);
    let bc = &events.balance_changes[0];
    assert_eq!(bc.address, a);
    assert_eq!(bc.contract, c);
    assert_eq!(bc.old_balance, Some("200".to_string()));
    assert_eq!(bc.new_balance, "150");
    assert_eq!(bc.ordinal, Some(30));
    assert_eq!(bc.algorithm, Algorithm::Call);
}

#[test]
fn balances_map_events_drops_fishing_transfers() {
    let c = addr(0x11);
    let fishing = call(1, 0, &c, vec![transfer_log(&c, &addr(0xaa), &addr(0xbb), 100, 0)], vec![], vec![]);
    let events = balances::map_events(block(vec![trx(0x77, 1, vec![fishing])]));
    assert_eq!(events.transfers.len(), 0);
    assert_eq!(events.balance_changes.len(), 0);
}

#[test]
fn balances_child_call_changes_are_found() {
    let c = addr(0x11);
    let a = addr(0xaa);
    let b = addr(0xbb);
    let ka = slot_key(1);
    let root = call(1, 0, &c, vec![transfer_log(&c, &a, &b, 100, 0)], vec![], vec![preimage(&ka, &a)]);
    let child = call(2, 1, &c, vec![], vec![storage(&c, &ka, 300, 200, 40)], vec![]);
    let events = balances::map_events(block(vec![trx(0x77, 1, vec![root, child])]));
    assert_eq!(events.transfers.len(), 1);
    assert_eq!(events.balance_changes.len(), 1);
    assert_eq!(events.balance_changes[0].algorithm, Algorithm::ChildCalls);
    assert_eq!(events.balance_changes[0].address, a);
}

#[test]
fn balances_to_balance_change_marks_mismatch() {
    let c = addr(0x11);
    let t = TransferEvent { from: addr(0xaa), to: addr(0xbb), value: BigNum { bytes: vec![100] } };
    let tr = trx(0x77, 1, vec![]);
    let cl = call(1, 0, &c, vec![], vec![], vec![]);
    let sc = storage(&c, &slot_key(1), 300, 100, 1);
    let bc = balances::to_balance_change(&tr, &cl, addr(0xaa), &t, &sc, Algorithm::Call);
    assert_eq!(bc.algorithm, Algorithm::BalanceNotMatchTransfer);
    let sc = storage(&c, &slot_key(1), 300, 201, 1);
    let bc = balances::to_balance_change(&tr, &cl, addr(0xaa), &t, &sc, Algorithm::Call);
    assert_eq!(bc.algorithm, Algorithm::Call);
}

#[test]
fn balances_count_child_storage_changes() {
    let c = addr(0x11);
    let root = call(1, 0, &c, vec![], vec![], vec![]);
    let child1 = call(2, 1, &c, vec![], vec![storage(&c, &slot_key(1), 1, 2, 1), storage(&c, &slot_key(2), 1, 2, 2)], vec![]);
    let grandchild = call(3, 2, &c, vec![], vec![storage(&c, &slot_key(3), 1, 2, 3)], vec![]);
    let t = trx(0x77, 1, vec![root.clone(), child1, grandchild]);
    assert_eq!(balances::count_all_child_call_storage_changes(&root, &t), 2);
    assert!(!balances::is_fishing_transfer(&t, &root));
    let lonely = trx(0x78, 1, vec![root.clone()]);
    assert!(balances::is_fishing_transfer(&lonely, &root));
}

#[test]
fn contracts_store_keys_are_distinct() {
    let c = addr(0x11);
    let ka = slot_key(1);
    let first = call(1, 0, &c, vec![transfer_log(&c, &addr(0xaa), &addr(0xbb), 100, 0)], vec![storage(&c, &ka, 300, 200, 20)], vec![]);
    let second = call(2, 0, &c, vec![transfer_log(&c, &addr(0xaa), &addr(0xbb), 50, 1)], vec![storage(&c, &ka, 200, 150, 30)], vec![]);
    let keys = contracts::store_erc20_transfers(&block(vec![trx(0x77, 1, vec![first, second])]));
    assert_eq!(keys, vec!["11".repeat(20)]);
}

#[test]
fn total_sent_received_sums_owned_changes() {
    let c = addr(0x11);
    let a = addr(0xaa);
    let b = addr(0xbb);
    let ka = slot_key(1);
    let kb = slot_key(2);
    let kx = slot_key(3);
    let with_preimages = call(1, 0, &c, vec![], vec![], vec![preimage(&ka, &a), preimage(&kb, &b), preimage(&kx, &addr(0x99))]);
    let map = addresses_for_storage_keys(&with_preimages);
    let child = call(2, 1, &c, vec![], vec![storage(&c, &ka, 300, 200, 1), storage(&c, &kb, 0, 70, 2), storage(&c, &kx, 0, 1000, 3)], vec![]);
    let t = TransferEvent { from: a, to: b, value: BigNum { bytes: vec![100] } };
    let (sent, received) = compute_total_sent_received(&vec![child], &t, &map);
    assert_eq!(to_decimal_string(&sent), "100");
    assert_eq!(to_decimal_string(&received), "70");
}

#[test]
fn native_contract_creations() {
    let c = addr(0x11);
    let mut create = call(1, 0, &c, vec![], vec![], vec![]);
    create.call_type = 5;
    create.code_changes = vec![CodeChange { address: addr(0x42), new_hash: vec![9; 32], ordinal: 3 }];
    let mut plain = call(2, 1, &c, vec![], vec![], vec![]);
    plain.code_changes = vec![CodeChange { address: addr(0x43), new_hash: vec![8; 32], ordinal: 4 }];
    let events = native_contracts::map_events(&block(vec![trx(0x77, 1, vec![create.clone(), plain]), trx(0x78, 2, vec![create])]));
    assert_eq!(events.contract_creations.len(), 1);
    let cc = &events.contract_creations[0];
    assert_eq!(cc.address, addr(0x42));
    assert_eq!(cc.hash, vec![9; 32]);
    assert_eq!(cc.transaction_id, vec![0x77; 32]);
    assert_eq!(cc.caller, addr(0xcc));
    assert_eq!(cc.ordinal, 3);
}

#[test]
fn native_balance_changes_of_block() {
    let mut b = block(vec![]);
    b.balance_changes = vec![NativeBalanceChange { address: addr(0xee), old_value: None, new_value: Some(vec![2]), reason: 2, ordinal: 1 }];
    let mut root = call(1, 0, &addr(0x11), vec![], vec![], vec![]);
    root.balance_changes = vec![
        NativeBalanceChange { address: addr(0xaa), old_value: Some(vec![10]), new_value: Some(vec![4]), reason: 7, ordinal: 2 },
        NativeBalanceChange { address: addr(0xaa), old_value: Some(vec![4]), new_value: Some(vec![3]), reason: 5, ordinal: 3 },
    ];
    let mut failed = trx(0x55, 3, vec![root.clone()]);
    failed.calls[0].state_reverted = true;
    b.transaction_traces = vec![failed];
    let out = native::map_balance_changes(b).balance_changes;
    assert_eq!(out.len(), 2);
    assert_eq!(out[0].reason, "REASON_REWARD_MINE_BLOCK");
    assert_eq!(out[0].old_value, "0");
    assert_eq!(out[0].new_value, "2");
    assert_eq!(out[0].transaction, "");
    assert_eq!(out[1].reason, "REASON_GAS_BUY");
    assert_eq!(out[1].transaction, "55".repeat(32));
}

#[test]
fn native_transfers_of_transaction_and_fee() {
    let mut t = trx(0x77, 1, vec![]);
    t.value = Some(vec![1, 0]);
    t.gas_price = Some(vec![10]);
    t.gas_used = 21;
    let transfer = native::get_transfer_from_transaction(&t).unwrap();
    assert_eq!(to_decimal_string(&transfer.value), "256");
    assert_eq!(transfer.algorithm, Algorithm::Transaction);
    let fees = native::get_transfer_from_transaction_fee(&t, &BigNum { bytes: vec![4] }, &addr(0xee));
    assert_eq!(fees.len(), 2);
    assert_eq!(to_decimal_string(&fees[0].value), "126");
    assert_eq!(fees[0].to, addr(0xee));
    assert_eq!(to_decimal_string(&fees[1].value), "84");
    assert_eq!(fees[1].to, vec![0u8; 20]);
    t.status = 3;
    assert!(native::get_transfer_from_transaction(&t).is_none());
}

#[test]
fn native_transfer_from_block_reward_and_call() {
    let reward = NativeBalanceChange { address: addr(0xee), old_value: Some(vec![1]), new_value: Some(vec![3]), reason: 2, ordinal: 9 };
    let t = native::get_transfer_from_block_reward(&reward).unwrap();
    assert_eq!(to_decimal_string(&t.value), "2");
    assert_eq!(t.from, vec![0u8; 20]);
    let lower = NativeBalanceChange { address: addr(0xee), old_value: Some(vec![3]), new_value: Some(vec![1]), reason: 2, ordinal: 9 };
    assert!(native::get_transfer_from_block_reward(&lower).is_none());

    let mut c = call(2, 1, &addr(0x11), vec![], vec![], vec![]);
    c.value = Some(vec![5]);
    let t = native::get_transfer_from_call(&c).unwrap();
    assert_eq!(t.from, addr(0xcc));
    assert_eq!(t.to, addr(0x11));
    c.call_type = 3;
    assert!(native::get_transfer_from_call(&c).is_none());
}

#[test]
fn native_accounts_of_block() {
    let mut c = call(1, 0, &addr(0x11), vec![transfer_log(&addr(0x22), &addr(0xaa), &addr(0xbb), 1, 0)], vec![], vec![]);
    c.address_delegates_to = Some(addr(0x33));
    let t = trx(0x77, 2, vec![c]);
    let accounts = erc20_balances::native_balances::collect_accounts(&block(vec![t]));
    // from 0xaa, to 0x11, call address 0x11 (again), caller 0xcc, delegate 0x33, log 0x22
    assert_eq!(accounts, vec![addr(0xaa), addr(0x11), addr(0xcc), addr(0x33), addr(0x22)]);
}

#[test]
fn balances_transfers_follow_log_ordinals() {
    let c = addr(0x11);
    let ka = slot_key(1);
    let mut late = transfer_log(&c, &addr(0xaa), &addr(0xbb), 100, 0);
    late.ordinal = 50;
    let mut early = transfer_log(&c, &addr(0xaa), &addr(0xbb), 7, 1);
    early.ordinal = 20;
    let root = call(1, 0, &c, vec![late], vec![storage(&c, &ka, 300, 200, 60)], vec![]);
    let child = call(2, 1, &c, vec![early], vec![storage(&c, &ka, 307, 300, 30)], vec![]);
    let events = balances::map_events(block(vec![trx(0x77, 1, vec![root, child])]));
    assert_eq!(events.transfers.len(), 2);
    assert_eq!(events.transfers[0].value, "7");
    assert_eq!(events.transfers[0].ordinal, 20);
    assert_eq!(events.transfers[1].value, "100");
}

#[test]
fn fishing_transfer_has_no_storage_change() {
    let root = call(1, 0, &addr(0x11), vec![], vec![], vec![]);
    let t = trx(0x61, 1, vec![root.clone()]);
    assert!(erc20_balances::algorithms::fishing::is_fishing_transfers(&t, &t.calls[0]));

    let changed = call(1, 0, &addr(0x11), vec![], vec![storage(&addr(0x11), &slot_key(1), 1, 2, 3)], vec![]);
    let t = trx(0x62, 1, vec![changed]);
    assert!(!erc20_balances::algorithms::fishing::is_fishing_transfers(&t, &t.calls[0]));

    let child = call(2, 1, &addr(0x22), vec![], vec![storage(&addr(0x22), &slot_key(2), 1, 2, 3)], vec![]);
    let t = trx(0x63, 1, vec![root, child]);
    assert!(!erc20_balances::algorithms::fishing::is_fishing_transfers(&t, &t.calls[0]));
}

fn native_events_block() -> Block {
    let mut b = block(vec![]);
    b.header = Some(BlockHeader { coinbase: addr(0xee), base_fee_per_gas: Some(vec![4]) });
    b.balance_changes = vec![NativeBalanceChange { address: addr(0xee), old_value: Some(vec![1]), new_value: Some(vec![3]), reason: 2, ordinal: 1 }];
    let mut system = call(1, 0, &addr(0x44), vec![], vec![], vec![]);
    system.balance_changes = vec![NativeBalanceChange { address: addr(0x44), old_value: None, new_value: Some(vec![1]), reason: 5, ordinal: 2 }];
    b.system_calls = vec![system];

    let mut root = call(1, 0, &addr(0x11), vec![], vec![], vec![]);
    root.balance_changes = vec![NativeBalanceChange { address: addr(0xaa), old_value: Some(vec![9]), new_value: Some(vec![8]), reason: 5, ordinal: 3 }];
    let mut child = call(2, 1, &addr(0x22), vec![], vec![], vec![]);
    child.value = Some(vec![5]);
    let mut ok = trx(0x71, 1, vec![root.clone(), child]);
    ok.value = Some(vec![1, 0]);
    ok.gas_price = Some(vec![10]);
    ok.gas_used = 21;

    let mut failed_root = root;
    failed_root.balance_changes = vec![
        NativeBalanceChange { address: addr(0xaa), old_value: Some(vec![8]), new_value: Some(vec![7]), reason: 7, ordinal: 4 },
        NativeBalanceChange { address: addr(0xaa), old_value: Some(vec![7]), new_value: Some(vec![6]), reason: 5, ordinal: 5 },
    ];
    let mut failed = trx(0x72, 3, vec![failed_root]);
    failed.value = Some(vec![9]);
    b.transaction_traces = vec![ok, failed];
    b
}

#[test]
fn native_events_transfers_in_module_order() {
    let b = native_events_block();
    let out = erc20_balances::native_events::native_transfers(&b);
    assert_eq!(out.len(), 5);
    assert_eq!((out[0].transaction, out[0].call, out[0].transfer.algorithm), (None, None, Algorithm::BlockReward));
    assert_eq!(to_decimal_string(&out[0].transfer.value), "2");
    assert_eq!((out[1].transaction, out[1].call, out[1].transfer.algorithm), (Some(0), None, Algorithm::TransactionFee));
    assert_eq!(to_decimal_string(&out[1].transfer.value), "126");
    assert_eq!((out[2].transaction, out[2].call, out[2].transfer.algorithm), (Some(0), None, Algorithm::TransactionFeeBurn));
    assert_eq!(to_decimal_string(&out[2].transfer.value), "84");
    assert_eq!((out[3].transaction, out[3].call, out[3].transfer.algorithm), (Some(0), None, Algorithm::Transaction));
    assert_eq!(to_decimal_string(&out[3].transfer.value), "256");
    assert_eq!((out[4].transaction, out[4].call, out[4].transfer.algorithm), (Some(0), Some(1), Algorithm::Call));
    assert_eq!(to_decimal_string(&out[4].transfer.value), "5");
}

#[test]
fn native_events_balance_change_candidates() {
    let b = native_events_block();
    let out = erc20_balances::native_events::balance_change_candidates(&b);
    let summary: Vec<(ChangeSource, u64, Algorithm)> = out.iter().map(|c| (c.source, c.change.ordinal, c.algorithm)).collect();
    assert_eq!(
        summary,
        vec![
            (ChangeSource::Block, 1, Algorithm::BlockReward),
            (ChangeSource::SystemCall(0), 2, Algorithm::System),
            (ChangeSource::Call(0, 0), 3, Algorithm::Call),
            (ChangeSource::Call(1, 0), 4, Algorithm::Gas),
        ]
    );
}

#[test]
fn native_events_insert_appends() {
    let b = native_events_block();
    let mut events = Events { transfers: vec![], balance_changes: vec![] };
    // the module's test finds the system call's and the failed transaction's change invalid
    let valid = vec![true, false, true, false];
    assert_eq!(erc20_balances::native_events::balance_change_candidates(&b).len(), valid.len());
    insert_events(&b, &mut events, &valid);
    assert_eq!(events.transfers.len(), 5);
    let kept: Vec<(ChangeSource, u64)> = events.balance_changes.iter().map(|c| (c.source, c.change.ordinal)).collect();
    assert_eq!(kept, vec![(ChangeSource::Block, 1), (ChangeSource::Call(0, 0), 3)]);
    insert_events(&b, &mut events, &vec![true; 4]);
    assert_eq!(events.transfers.len(), 10);
    assert_eq!(events.balance_changes.len(), 6);
    assert_eq!(events.transfers[5].transfer.algorithm, Algorithm::BlockReward);
    assert_eq!(events.balance_changes[5].algorithm, Algorithm::Gas);
}

#[test]
fn erc721_tokens_take_their_answers() {
    let mint = |contract: u8, id: &str, log_index: u64| Token {
        block_num: 9,
        tx_hash: vec![0x31; 32],
        log_index,
        uri: None,
        symbol: None,
        name: None,
        contract: addr(contract),
        token_id: id.to_string(),
    };
    let mints = vec![mint(0x11, "1", 0), mint(0x22, "2", 1), mint(0x11, "3", 2)];
    assert_eq!(mint_contracts(&mints), vec![addr(0x11), addr(0x22)]);
    let uris = vec![Some("ipfs://one".to_string()), None, Some("ipfs://three".to_string())];
    let answers = vec![(addr(0x11), Some("SYM".to_string()), Some("Name".to_string()))];
    let tokens = tokens_of(&mints, &uris, &answers);
    assert_eq!(tokens.len(), 3);
    assert_eq!(tokens[0].uri.as_deref(), Some("ipfs://one"));
    assert_eq!(tokens[0].symbol.as_deref(), Some("SYM"));
    assert_eq!(tokens[0].name.as_deref(), Some("Name"));
    assert_eq!(tokens[1].uri, None);
    assert_eq!(tokens[1].symbol, None);
    assert_eq!(tokens[1].name, None);
    assert_eq!(tokens[2].token_id, "3");
    assert_eq!(tokens[2].log_index, 2);
    assert_eq!(tokens[2].symbol.as_deref(), Some("SYM"));
}
