use erc20_balances::eth::{Clock, Timestamp};
use erc20_balances::pb::erc20_types::{BalanceChange, Events, Transfer};
use erc20_balances::sinks::{db_out, graph_out, Column};
use erc20_balances::stats::{balance_change_stats, store_valid_balance_changes, StatCounts};
use erc20_balances::subgraph;

fn change(trx: &str, log_index: u32, change_type: i32, index: u32) -> BalanceChange {
    BalanceChange {
        block_num: 7,
        block_hash: "hash".to_string(),
        timestamp: Some(Timestamp { seconds: 10, nanos: 0 }),
        date: "1970-01-01".to_string(),
        transaction_id: trx.to_string(),
        call_index: 1,
        log_index,
        log_block_index: log_index,
        log_ordinal: 3,
        storage_key: "k".to_string(),
        storage_ordinal: 4,
        storage_address: "s".to_string(),
        index,
        contract: "c".to_string(),
        owner: "o".to_string(),
        old_balance: "300".to_string(),
        new_balance: "200".to_string(),
        amount: "-100".to_string(),
        from: "o".to_string(),
        to: "t".to_string(),
        value: "100".to_string(),
        version: 5,
        change_type,
    }
}

fn transfer(trx: &str, log_index: u32, call_index: u32) -> Transfer {
    Transfer {
        block_num: 7,
        block_hash: "hash".to_string(),
        timestamp: Some(Timestamp { seconds: 10, nanos: 0 }),
        date: "1970-01-01".to_string(),
        transaction_id: trx.to_string(),
        call_index,
        log_index,
        log_block_index: log_index,
        log_ordinal: 3,
        topic0: "t0".to_string(),
        data: "d".to_string(),
        contract: "c".to_string(),
        from: "o".to_string(),
        to: "t".to_string(),
        value: "100".to_string(),
    }
}

fn events() -> Events {
    Events {
        transfers: vec![transfer("aa", 1, 0), transfer("aa", 2, 1), transfer("bb", 1, 2)],
        balance_changes: vec![change("aa", 1, 1, 0), change("aa", 1, 2, 1), change("bb", 2, 0, 2)],
    }
}

#[test]
fn store_counts_of_block() {
    let counts = store_valid_balance_changes(&events());
    assert_eq!(counts.balance_changes_type_1, 1);
    assert_eq!(counts.balance_changes_type_2, 1);
    assert_eq!(counts.balance_changes, 3);
    assert_eq!(counts.transfers, 3);
    // ("aa", 2) and ("bb", 1) have no balance change
    assert_eq!(counts.transfers_not_matched, 2);
}

#[test]
fn stats_of_block_and_totals() {
    let clock = Clock { id: "x".to_string(), number: 9, timestamp: Some(Timestamp { seconds: 1, nanos: 0 }) };
    let totals = StatCounts { balance_changes_type_1: 5, balance_changes_type_2: 6, balance_changes: 12, transfers: 0, transfers_not_matched: 0 };
    let stats = balance_change_stats(&clock, &events(), &totals);
    let current = stats.current.unwrap();
    assert_eq!(current.type1_balance_changes, 1);
    assert_eq!(current.type2_balance_changes, 1);
    assert_eq!(current.balance_changes, 2);
    assert_eq!(current.transfers, 3);
    assert_eq!(current.transfers_not_matched, 2);
    assert_eq!(current.valid_rate, "0.3333");
    let total = stats.total.unwrap();
    assert_eq!(total.balance_changes, 12);
    assert_eq!(total.valid_rate, "1.000");
    assert_eq!(stats.block_number, 9);
}

#[test]
fn graph_rows_of_events() {
    let rows = graph_out(events());
    assert_eq!(rows.len(), 6);
    assert_eq!(rows[0].entity, "BalanceChange");
    assert_eq!(rows[0].id, "aa:0");
    assert_eq!(rows[3].entity, "Transfer");
    assert_eq!(rows[4].id, "aa:1");
    let names: Vec<&str> = rows[3].fields.iter().map(|f| f.0.as_str()).collect();
    assert_eq!(names[0], "block_num");
    assert!(matches!(&rows[0].fields[0].1, Column::BigInt(v) if v == "7"));
}

#[test]
fn database_rows_of_events() {
    let rows = db_out(events());
    assert_eq!(rows.len(), 6);
    assert_eq!(rows[0].table, "balance_changes");
    assert_eq!(rows[0].primary_key, vec![("transaction_id".to_string(), "aa".to_string()), ("index".to_string(), "0".to_string())]);
    assert_eq!(rows[5].table, "transfers");
    assert_eq!(rows[5].primary_key[1].1, "2");
    assert!(matches!(&rows[0].fields[10].1, Column::Uint(4)));
}

#[test]
fn subgraph_balance_rows() {
    let clock = Clock { id: "x".to_string(), number: 9, timestamp: Some(Timestamp { seconds: 1438272138, nanos: 0 }) };
    let erc20 = subgraph::Events {
        balance_changes: vec![subgraph::BalanceChange { contract: vec![0xab], owner: vec![0x01], new_balance: "5".to_string() }],
    };
    let native = subgraph::Events {
        balance_changes: vec![subgraph::BalanceChange { contract: b"native".to_vec(), owner: vec![0x02], new_balance: "6".to_string() }],
    };
    let rows = subgraph::graph_out(&clock, &erc20, &native);
    assert_eq!(rows.len(), 2);
    assert_eq!(rows[0].entity, "Balance");
    assert_eq!(rows[0].id, "0xab:0x01");
    assert_eq!(rows[1].id, "native:0x02");
    assert!(matches!(&rows[0].fields[2].1, Column::Text(d) if d == "2015-07-30"));
    assert!(matches!(&rows[1].fields[5].1, Column::BigInt(b) if b == "6"));
}

#[test]
fn subgraph_no_rows_needs_no_timestamp() {
    let clock = Clock { id: "x".to_string(), number: 9, timestamp: None };
    let empty = subgraph::Events { balance_changes: vec![] };
    assert!(subgraph::graph_out(&clock, &empty, &empty).is_empty());
}
