use erc20_balances::abi::Transfer;
use erc20_balances::bignum::BigNum;
use erc20_balances::contracts::{get_metadata, rpc_contract_change, contracts_to_read};
use erc20_balances::eth::{Call, Clock, StorageChange, Timestamp};
use erc20_balances::keccak_map::StorageKeyToAddressMap;
use erc20_balances::metadata::{initialize_metadata, parse_string, pick_name, pick_symbol, TokenAnswers};
use erc20_balances::pb::entity::Operation;
use erc20_balances::pb::erc20_types::BalanceChangeType;
use erc20_balances::rpc_balances::{
    balance_requests, find_missing_balances, highest_index_ordinal, rpc_balance_change, IndexedBalanceChange,
    IndexedEvents, IndexedTransfer,
};
use erc20_balances::stores::{map_events as first_transfers, store_erc20_transfers, BigIntDelta};
use erc20_balances::native_balances::{balances_of_responses, BalanceResponse};
use erc20_balances::subgraph::bytes_to_hex;
use erc20_balances::supply::{supply_contracts, total_supply_records};
use erc20_balances::utils::{
    addresses_for_storage_keys, clock_to_date, compute_keccak_address_map, get_owner_from_keccak_address_map,
    index_to_version, is_erc20_valid_address, is_erc20_valid_balance,
};

fn num(v: i64) -> BigNum {
    BigNum { bytes: substreams::scalar::BigInt::from(v).to_signed_bytes_be() }
}

fn to_decimal_string(v: &BigNum) -> String {
    substreams::scalar::BigInt::from_signed_bytes_be(&v.bytes).to_string()
}

fn word(value: u64) -> Vec<u8> {
    let mut w = vec![0u8; 24];
    w.extend_from_slice(&value.to_be_bytes());
    w
}

fn empty_call() -> Call {
    Call {
        index: 0,
        parent_index: 0,
        depth: 0,
        call_type: 1,
        caller: vec![],
        address: vec![],
        address_delegates_to: None,
        value: None,
        begin_ordinal: 0,
        state_reverted: false,
        status_failed: false,
        status_reverted: false,
        logs: vec![],
        storage_changes: vec![],
        keccak_preimages: vec![],
        balance_changes: vec![],
        code_changes: vec![],
    }
}

#[test]
fn test_is_erc20_valid_address() {
    let null_address = hex::decode("0000000000000000000000000000000000000000").unwrap();
    let transfer = Transfer {
        from: null_address.clone(),
        to: hex::decode("1234567890123456789012345678901234567890").unwrap(),
        value: BigNum::zero(),
    };

    let address = null_address;
    assert!(is_erc20_valid_address(&address, &transfer), "0x000 Null address should be valid");
}

#[test]
fn valid_address_rejects_third_party() {
    let transfer = Transfer { from: vec![1; 20], to: vec![2; 20], value: BigNum::zero() };
    assert!(is_erc20_valid_address(&vec![2; 20], &transfer));
    assert!(!is_erc20_valid_address(&vec![3; 20], &transfer));
}

#[test]
fn valid_balance_allows_one_wei() {
    let transfer = Transfer { from: vec![1; 20], to: vec![2; 20], value: num(100) };
    let change = |old: u64, new: u64| StorageChange { address: vec![], key: vec![], old_value: word(old), new_value: word(new), ordinal: 0 };
    assert!(is_erc20_valid_balance(&transfer, &change(300, 200)));
    assert!(is_erc20_valid_balance(&transfer, &change(300, 201)));
    assert!(is_erc20_valid_balance(&transfer, &change(0, 101)));
    assert!(!is_erc20_valid_balance(&transfer, &change(300, 202)));
    assert!(!is_erc20_valid_balance(&transfer, &change(300, 300)));
}

#[test]
fn date_of_clock() {
    let clock = Clock { id: String::new(), number: 1, timestamp: Some(Timestamp { seconds: 1438272138, nanos: 0 }) };
    assert_eq!(clock_to_date(&clock), "2015-07-30");
}

#[test]
fn version_of_index() {
    let clock = Clock { id: String::new(), number: 3, timestamp: None };
    assert_eq!(index_to_version(&clock, 5), (3u64 << 32) + 5);
    let big = Clock { id: String::new(), number: (1u64 << 32) + 2, timestamp: None };
    assert_eq!(index_to_version(&big, 0), 2u64 << 32);
}

#[test]
fn preimages_make_the_keccak_map() {
    let key = "ab".repeat(32);
    let owner = "12".repeat(20);
    let good = format!("{}{}{}{}", "0".repeat(24), owner, "0".repeat(62), "03");
    let bad_padding = format!("{}{}{}{}", "0".repeat(24), owner, "1".repeat(62), "03");
    let short = "00".to_string();
    let mut call = empty_call();
    call.keccak_preimages = vec![(key.clone(), good), ("cd".repeat(32), bad_padding), ("ef".repeat(32), short)];
    let map = addresses_for_storage_keys(&call);
    assert_eq!(map.get(&vec![0xab; 32]), Some(&vec![0x12; 20]));
    assert_eq!(map.get(&vec![0xcd; 32]), None);
    assert_eq!(map.get(&vec![0xef; 32]), None);

    let sc = StorageChange { address: vec![], key: vec![0xab; 32], old_value: vec![], new_value: vec![], ordinal: 0 };
    assert_eq!(get_owner_from_keccak_address_map(&map, &sc), Some(vec![0x12; 20]));

    // a later call replaces an earlier one
    let mut later = empty_call();
    later.keccak_preimages = vec![(key, format!("{}{}{}{}", "0".repeat(24), "34".repeat(20), "0".repeat(62), "00"))];
    let merged = compute_keccak_address_map(vec![call, later]);
    assert_eq!(merged.get(&vec![0xab; 32]), Some(&vec![0x34; 20]));
}

#[test]
fn keccak_map_insert_replaces() {
    let mut map = StorageKeyToAddressMap::new();
    map.insert(vec![1], vec![2]);
    map.insert(vec![1], vec![3]);
    assert_eq!(map.get(&[1]), Some(&vec![3]));
    assert_eq!(map.get(&[2]), None);
}

#[test]
fn bignum_from_signed_bytes() {
    assert_eq!(to_decimal_string(&BigNum::from_signed_bytes_be(&[0xff])), "-1");
    assert_eq!(to_decimal_string(&BigNum::from_signed_bytes_be(&[0x00, 0xff])), "255");
    assert_eq!(to_decimal_string(&BigNum::zero()), "0");
}

#[test]
fn parse_string_trims() {
    assert_eq!(parse_string("  USDC  "), Some("USDC".to_string()));
    assert_eq!(parse_string("DAI\0\0\0"), Some("DAI".to_string()));
    assert_eq!(parse_string("  hello \0\0"), Some("hello ".to_string()));
    assert_eq!(parse_string("\u{3000}abc\u{2003}"), Some("abc".to_string()));
    assert_eq!(parse_string("   "), None);
    assert_eq!(parse_string("\0\0"), None);
    assert_eq!(parse_string(""), None);
}

#[test]
fn name_and_symbol_choices() {
    assert_eq!(pick_name(Some(" Dai ".to_string()), Some("Other".to_string())), Some("Dai".to_string()));
    assert_eq!(pick_name(Some("  ".to_string()), Some("Maker".to_string())), Some("Maker".to_string()));
    assert_eq!(pick_name(None, Some(String::new())), None);
    assert_eq!(pick_symbol(None, Some("MKR\0\0".to_string())), Some("MKR".to_string()));
    assert_eq!(pick_symbol(Some("\0".to_string()), None), None);
}

#[test]
fn metadata_needs_decimals() {
    let answers = vec![
        TokenAnswers { address: vec![1], decimals: Some(18), symbol: Some("A".to_string()), name: None },
        TokenAnswers { address: vec![2], decimals: None, symbol: Some("B".to_string()), name: Some("Bee".to_string()) },
    ];
    let out = initialize_metadata(answers);
    assert_eq!(out.len(), 1);
    assert_eq!(out[0].address, vec![1]);
    assert_eq!(out[0].decimals, 18);
    assert_eq!(out[0].symbol, Some("A".to_string()));
}

#[test]
fn metadata_setter_priority() {
    let both = get_metadata(Some(("N".to_string(), "S".to_string())), Some("X".to_string()), None).unwrap();
    assert_eq!((both.name, both.symbol, both.decimals), (Some("N".to_string()), Some("S".to_string()), None));
    let name = get_metadata(None, Some("X".to_string()), Some("Y".to_string())).unwrap();
    assert_eq!((name.name, name.symbol), (Some("X".to_string()), None));
    let symbol = get_metadata(None, None, Some("Y".to_string())).unwrap();
    assert_eq!((symbol.name, symbol.symbol), (None, Some("Y".to_string())));
    assert!(get_metadata(None, None, None).is_none());
}

#[test]
fn rpc_contract_change_needs_decimals() {
    assert!(rpc_contract_change(vec![1], None, Some("N".to_string()), None, None, None).is_none());
    let c = rpc_contract_change(vec![1], Some(6), None, Some("Bytes".to_string()), Some("S".to_string()), Some("T".to_string())).unwrap();
    assert_eq!(c.name, Some("Bytes".to_string()));
    assert_eq!(c.symbol, Some("S".to_string()));
    assert_eq!(c.decimals, Some(6));
    assert!(c.transaction_id.is_none());
}

fn delta(key: &str, old: i64, new: i64) -> BigIntDelta {
    BigIntDelta { key: key.to_string(), old_value: num(old), new_value: num(new) }
}

#[test]
fn first_transfers_and_contracts_to_read() {
    let deltas = vec![delta("0a0b", 0, 1), delta("0c0d", 1, 2), delta("zz", 0, 1), delta("0x0e0f", 0, 1)];
    let events = first_transfers(&deltas);
    let contracts: Vec<Vec<u8>> = events.first_transfer_by_contract.iter().map(|f| f.contract.clone()).collect();
    assert_eq!(contracts, vec![vec![0x0a, 0x0b], vec![0x0e, 0x0f]]);
    assert_eq!(contracts_to_read(&deltas), vec![vec![0x0a, 0x0b], vec![0x0e, 0x0f]]);
}

#[test]
fn store_keys_once_per_contract() {
    let keys = store_erc20_transfers(&vec![vec![1, 2], vec![3], vec![1, 2]]);
    assert_eq!(keys, vec!["0102".to_string(), "03".to_string()]);
}

#[test]
fn addresses_in_text() {
    assert_eq!(bytes_to_hex(&vec![]), "");
    assert_eq!(bytes_to_hex(&b"native".to_vec()), "native");
    assert_eq!(bytes_to_hex(&vec![0xab, 0x01]), "0xab01");
}

#[test]
fn protobuf_names() {
    assert_eq!(BalanceChangeType::BalanceChangeType2.as_str_name(), "BALANCE_CHANGE_TYPE_2");
    assert_eq!(BalanceChangeType::from_str_name("BALANCE_CHANGE_TYPE_1"), Some(BalanceChangeType::BalanceChangeType1));
    assert_eq!(BalanceChangeType::from_str_name("nope"), None);
    assert_eq!(Operation::Update.as_str_name(), "OPERATION_UPDATE");
    assert_eq!(Operation::from_str_name("OPERATION_DELETE"), Some(Operation::Delete));
    assert_eq!(Operation::from_str_name("OPERATION_CREATE").map(|o| o.as_str_name()), Some("OPERATION_CREATE"));
}

#[test]
fn missing_balances_per_contract() {
    let events = IndexedEvents {
        balance_changes: vec![IndexedBalanceChange { contract: vec![1], owner: vec![9], ordinal: 4, index: 7 }],
        transfers: vec![
            IndexedTransfer { contract: vec![2], from: vec![5], to: vec![6], ordinal: 8, index: 3 },
            IndexedTransfer { contract: vec![1], from: vec![1], to: vec![7], ordinal: 1, index: 1 },
            IndexedTransfer { contract: vec![3], from: vec![5], to: vec![0; 20], ordinal: 2, index: 2 },
        ],
    };
    let pairs = find_missing_balances(&events);
    assert_eq!(pairs, vec![(vec![2], vec![6]), (vec![1], vec![1]), (vec![3], vec![0; 20])]);
    let (index, ordinal) = highest_index_ordinal(&events);
    assert_eq!((index, ordinal), (7, 8));
    let requests = balance_requests(&pairs, index, ordinal);
    assert_eq!(requests.len(), 2);
    assert_eq!(requests[0], (vec![2], vec![6], 8, 9));
    assert_eq!(requests[1], (vec![1], vec![1], 9, 10));
    let change = rpc_balance_change(requests[0].clone(), Some(num(42)), 77);
    assert_eq!(change.new_balance, "42");
    assert_eq!(change.old_balance, "");
    assert_eq!(change.global_sequence, 77);
    let failed = rpc_balance_change(requests[1].clone(), None, 78);
    assert_eq!(failed.new_balance, "");
}

#[test]
fn native_balances_from_responses() {
    let owners = vec![vec![1], vec![2], vec![3]];
    let responses = vec![
        BalanceResponse { failed: false, balance: vec![1, 0] },
        BalanceResponse { failed: true, balance: vec![] },
        BalanceResponse { failed: false, balance: vec![] },
    ];
    let out = balances_of_responses(&owners, &responses);
    assert_eq!(out.len(), 2);
    assert_eq!(out[0].0, vec![1]);
    assert_eq!(to_decimal_string(&out[0].1), "256");
    assert_eq!(out[1].0, vec![3]);
    assert_eq!(to_decimal_string(&out[1].1), "0");
}

#[test]
fn supplies_of_contracts() {
    assert_eq!(supply_contracts(&vec![vec![1], vec![2], vec![1]]), vec![vec![1], vec![2]]);
    let records = total_supply_records(&vec![(vec![1], num(1000)), (vec![2], num(0))]);
    assert_eq!(records.len(), 2);
    assert_eq!(records[0].total_supply, "1000");
    assert_eq!(records[1].contract, vec![2]);
}

#[test]
fn preimages_readable_rejects_bad_hex() {
    use_readable_case(true, "ab".repeat(32), format!("{}{}{}{}", "0".repeat(24), "12".repeat(20), "0".repeat(62), "03"));
    use_readable_case(false, "zz".repeat(32), format!("{}{}{}{}", "0".repeat(24), "12".repeat(20), "0".repeat(62), "03"));
    use_readable_case(false, "ab".repeat(32), format!("{}{}{}{}", "0".repeat(24), "xy".repeat(20), "0".repeat(62), "03"));
    // a bad key does not matter when the padding is not zero
    use_readable_case(true, "zz".repeat(32), format!("{}{}{}{}", "0".repeat(24), "12".repeat(20), "1".repeat(62), "03"));
}

fn use_readable_case(expected: bool, key: String, preimage: String) {
    let mut call = empty_call();
    call.keccak_preimages = vec![(key, preimage)];
    assert_eq!(erc20_balances::utils::preimages_readable(&call), expected);
}
