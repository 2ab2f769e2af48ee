//! The rows that the sinks write for the transfers and balance changes of a block: one
//! entity per item for the subgraph sink, one table row per item for the database sink.
use crate::bignum::{from_i64, from_u64, int_text, to_decimal_string};
use crate::eth::Timestamp;
use crate::pb::erc20_types::{BalanceChange, Events, Transfer};
use vstd::prelude::*;

verus! {

/// A column value as the sinks write it.
#[derive(Clone, Debug)]
pub enum Column {
    /// Plain text.
    Text(String),
    /// An arbitrary-precision integer given by its decimal text.
    BigInt(String),
    /// A point in time.
    Timestamp(Timestamp),
    /// An unsigned integer.
    Uint(u64),
}

/// Contents of a column value.
pub enum ColumnView {
    Text(Seq<char>),
    BigInt(Seq<char>),
    Timestamp(Timestamp),
    Uint(u64),
}

impl View for Column {
    type V = ColumnView;

    open spec fn view(&self) -> ColumnView {
        match self {
            Column::Text(s) => ColumnView::Text(s@),
            Column::BigInt(s) => ColumnView::BigInt(s@),
            Column::Timestamp(t) => ColumnView::Timestamp(*t),
            Column::Uint(v) => ColumnView::Uint(*v),
        }
    }
}

/// Contents of a list of named columns.
pub open spec fn fields_view(v: Seq<(String, Column)>) -> Seq<(Seq<char>, ColumnView)> {
    v.map_values(|f: (String, Column)| (f.0@, f.1@))
}

/// An entity created by the subgraph sink.
#[derive(Clone, Debug)]
pub struct EntityRow {
    pub entity: String,
    pub id: String,
    pub fields: Vec<(String, Column)>,
}

/// A row created by the database sink, with its primary key columns.
#[derive(Clone, Debug)]
pub struct DatabaseRow {
    pub table: String,
    pub primary_key: Vec<(String, String)>,
    pub fields: Vec<(String, Column)>,
}

/// Decimal text of an unsigned integer.
fn u64_text(v: u64) -> (r: String)
    ensures
        r@ == int_text(v as int),
{
    to_decimal_string(&from_u64(v))
}

/// Decimal text of a signed integer.
fn i32_text(v: i32) -> (r: String)
    ensures
        r@ == int_text(v as int),
{
    to_decimal_string(&from_i64(v as i64))
}

/// A named column.
fn field(name: &str, value: Column) -> (r: (String, Column))
    ensures
        r.0@ == name@,
        r.1@ == value@,
{
    (String::from_str(name), value)
}

/// `a`, a colon, then `b`.
pub open spec fn colon_join(a: Seq<char>, b: Seq<char>) -> Seq<char> {
    a + ":"@ + b
}

/// `a`, a colon, then `b`.
pub(crate) fn join_with_colon(a: &String, b: &String) -> (r: String)
    ensures
        r@ == colon_join(a@, b@),
{
    let mut s = a.clone();
    s.append(":");
    s.append(b.as_str());
    s
}

/// The columns the subgraph sink writes for a balance change.
pub open spec fn graph_balance_change_fields(b: BalanceChange) -> Seq<(Seq<char>, ColumnView)> {
    seq![
        ("block_num"@, ColumnView::BigInt(int_text(b.block_num as int))),
        ("block_hash"@, ColumnView::Text(b.block_hash@)),
        ("timestamp"@, ColumnView::Timestamp(b.timestamp->0)),
        ("date"@, ColumnView::Text(b.date@)),
        ("transaction_id"@, ColumnView::Text(b.transaction_id@)),
        ("call_index"@, ColumnView::BigInt(int_text(b.call_index as int))),
        ("log_index"@, ColumnView::BigInt(int_text(b.log_index as int))),
        ("log_block_index"@, ColumnView::BigInt(int_text(b.log_block_index as int))),
        ("log_ordinal"@, ColumnView::BigInt(int_text(b.log_ordinal as int))),
        ("storage_key"@, ColumnView::Text(b.storage_key@)),
        ("storage_ordinal"@, ColumnView::BigInt(int_text(b.storage_ordinal as int))),
        ("index"@, ColumnView::BigInt(int_text(b.index as int))),
        ("version"@, ColumnView::BigInt(int_text(b.version as int))),
        ("contract"@, ColumnView::Text(b.contract@)),
        ("owner"@, ColumnView::Text(b.owner@)),
        ("old_balance"@, ColumnView::BigInt(b.old_balance@)),
        ("new_balance"@, ColumnView::BigInt(b.new_balance@)),
        ("from"@, ColumnView::Text(b.from@)),
        ("to"@, ColumnView::Text(b.to@)),
        ("value"@, ColumnView::BigInt(b.value@)),
        ("change_type"@, ColumnView::BigInt(int_text(b.change_type as int))),
    ]
}

/// The columns the subgraph sink writes for a transfer.
pub open spec fn graph_transfer_fields(t: Transfer) -> Seq<(Seq<char>, ColumnView)> {
    seq![
        ("block_num"@, ColumnView::BigInt(int_text(t.block_num as int))),
        ("block_hash"@, ColumnView::Text(t.block_hash@)),
        ("timestamp"@, ColumnView::Timestamp(t.timestamp->0)),
        ("date"@, ColumnView::Text(t.date@)),
        ("transaction_id"@, ColumnView::Text(t.transaction_id@)),
        ("call_index"@, ColumnView::BigInt(int_text(t.call_index as int))),
        ("log_index"@, ColumnView::BigInt(int_text(t.log_index as int))),
        ("log_block_index"@, ColumnView::BigInt(int_text(t.log_block_index as int))),
        ("log_ordinal"@, ColumnView::BigInt(int_text(t.log_ordinal as int))),
        ("contract"@, ColumnView::Text(t.contract@)),
        ("from"@, ColumnView::Text(t.from@)),
        ("to"@, ColumnView::Text(t.to@)),
        ("value"@, ColumnView::BigInt(t.value@)),
    ]
}

/// The entity of a balance change: `BalanceChange`, keyed by transaction and index.
pub open spec fn is_graph_balance_change_row(r: EntityRow, b: BalanceChange) -> bool {
    &&& r.entity@ == "BalanceChange"@
    &&& r.id@ == colon_join(b.transaction_id@, int_text(b.index as int))
    &&& fields_view(r.fields@) == graph_balance_change_fields(b)
}

/// The entity of a transfer: `Transfer`, keyed by transaction and call index.
pub open spec fn is_graph_transfer_row(r: EntityRow, t: Transfer) -> bool {
    &&& r.entity@ == "Transfer"@
    &&& r.id@ == colon_join(t.transaction_id@, int_text(t.call_index as int))
    &&& fields_view(r.fields@) == graph_transfer_fields(t)
}

fn graph_balance_change_row(b: &BalanceChange) -> (r: EntityRow)
    requires
        b.timestamp is Some,
    ensures
        is_graph_balance_change_row(r, *b),
{
    let ts = match b.timestamp {
        Some(t) => t,
        None => Timestamp { seconds: 0, nanos: 0 },
    };
    let mut fields: Vec<(String, Column)> = Vec::new();
    fields.push(field("block_num", Column::BigInt(u64_text(b.block_num))));
    fields.push(field("block_hash", Column::Text(b.block_hash.clone())));
    fields.push(field("timestamp", Column::Timestamp(ts)));
    fields.push(field("date", Column::Text(b.date.clone())));
    fields.push(field("transaction_id", Column::Text(b.transaction_id.clone())));
    fields.push(field("call_index", Column::BigInt(u64_text(b.call_index as u64))));
    fields.push(field("log_index", Column::BigInt(u64_text(b.log_index as u64))));
    fields.push(field("log_block_index", Column::BigInt(u64_text(b.log_block_index as u64))));
    fields.push(field("log_ordinal", Column::BigInt(u64_text(b.log_ordinal))));
    fields.push(field("storage_key", Column::Text(b.storage_key.clone())));
    fields.push(field("storage_ordinal", Column::BigInt(u64_text(b.storage_ordinal))));
    fields.push(field("index", Column::BigInt(u64_text(b.index as u64))));
    fields.push(field("version", Column::BigInt(u64_text(b.version))));
    fields.push(field("contract", Column::Text(b.contract.clone())));
    fields.push(field("owner", Column::Text(b.owner.clone())));
    fields.push(field("old_balance", Column::BigInt(b.old_balance.clone())));
    fields.push(field("new_balance", Column::BigInt(b.new_balance.clone())));
    fields.push(field("from", Column::Text(b.from.clone())));
    fields.push(field("to", Column::Text(b.to.clone())));
    fields.push(field("value", Column::BigInt(b.value.clone())));
    fields.push(field("change_type", Column::BigInt(i32_text(b.change_type))));
    assert(fields_view(fields@) =~= graph_balance_change_fields(*b));
    let id = join_with_colon(&b.transaction_id, &u64_text(b.index as u64));
    EntityRow { entity: String::from_str("BalanceChange"), id, fields }
}

fn graph_transfer_row(t: &Transfer) -> (r: EntityRow)
    requires
        t.timestamp is Some,
    ensures
        is_graph_transfer_row(r, *t),
{
    let ts = match t.timestamp {
        Some(x) => x,
        None => Timestamp { seconds: 0, nanos: 0 },
    };
    let mut fields: Vec<(String, Column)> = Vec::new();
    fields.push(field("block_num", Column::BigInt(u64_text(t.block_num))));
    fields.push(field("block_hash", Column::Text(t.block_hash.clone())));
    fields.push(field("timestamp", Column::Timestamp(ts)));
    fields.push(field("date", Column::Text(t.date.clone())));
    fields.push(field("transaction_id", Column::Text(t.transaction_id.clone())));
    fields.push(field("call_index", Column::BigInt(u64_text(t.call_index as u64))));
    fields.push(field("log_index", Column::BigInt(u64_text(t.log_index as u64))));
    fields.push(field("log_block_index", Column::BigInt(u64_text(t.log_block_index as u64))));
    fields.push(field("log_ordinal", Column::BigInt(u64_text(t.log_ordinal))));
    fields.push(field("contract", Column::Text(t.contract.clone())));
    fields.push(field("from", Column::Text(t.from.clone())));
    fields.push(field("to", Column::Text(t.to.clone())));
    fields.push(field("value", Column::BigInt(t.value.clone())));
    assert(fields_view(fields@) =~= graph_transfer_fields(*t));
    let id = join_with_colon(&t.transaction_id, &u64_text(t.call_index as u64));
    EntityRow { entity: String::from_str("Transfer"), id, fields }
}

/// Every item of the events has a timestamp.
pub open spec fn events_have_timestamps(events: Events) -> bool {
    &&& forall|k: int| 0 <= k < events.balance_changes.len() ==> (#[trigger] events.balance_changes@[k]).timestamp is Some
    &&& forall|k: int| 0 <= k < events.transfers.len() ==> (#[trigger] events.transfers@[k]).timestamp is Some
}

/// The entities of the subgraph sink: one per balance change, then one per transfer, in
/// order.
pub fn graph_out(events: Events) -> (r: Vec<EntityRow>)
    requires
        events_have_timestamps(events),
    ensures
        r.len() == events.balance_changes.len() + events.transfers.len(),
        forall|k: int| 0 <= k < events.balance_changes.len() ==> is_graph_balance_change_row(#[trigger] r@[k], events.balance_changes@[k]),
        forall|k: int| 0 <= k < events.transfers.len() ==> is_graph_transfer_row(#[trigger] r@[events.balance_changes.len() + k], events.transfers@[k]),
{
    let mut rows: Vec<EntityRow> = Vec::new();
    let mut i: usize = 0;
    while i < events.balance_changes.len()
        invariant
            events_have_timestamps(events),
            i <= events.balance_changes.len(),
            rows.len() == i,
            forall|k: int| 0 <= k < i ==> is_graph_balance_change_row(#[trigger] rows@[k], events.balance_changes@[k]),
        decreases events.balance_changes.len() - i,
    {
        assert(events.balance_changes@[i as int].timestamp is Some);
        rows.push(graph_balance_change_row(&events.balance_changes[i]));
        i += 1;
    }
    let n = events.balance_changes.len();
    let mut j: usize = 0;
    while j < events.transfers.len()
        invariant
            events_have_timestamps(events),
            n == events.balance_changes.len(),
            j <= events.transfers.len(),
            rows.len() == n + j,
            forall|k: int| 0 <= k < n ==> is_graph_balance_change_row(#[trigger] rows@[k], events.balance_changes@[k]),
            forall|k: int| 0 <= k < j ==> is_graph_transfer_row(#[trigger] rows@[n + k], events.transfers@[k]),
        decreases events.transfers.len() - j,
    {
        assert(events.transfers@[j as int].timestamp is Some);
        rows.push(graph_transfer_row(&events.transfers[j]));
        j += 1;
    }
    rows
}

/// The columns the database sink writes for a balance change.
pub open spec fn db_balance_change_fields(b: BalanceChange) -> Seq<(Seq<char>, ColumnView)> {
    seq![
        ("block_num"@, ColumnView::Text(int_text(b.block_num as int))),
        ("block_hash"@, ColumnView::Text(b.block_hash@)),
        ("timestamp"@, ColumnView::Timestamp(b.timestamp->0)),
        ("date"@, ColumnView::Text(b.date@)),
        ("transaction_id"@, ColumnView::Text(b.transaction_id@)),
        ("call_index"@, ColumnView::Text(int_text(b.call_index as int))),
        ("log_index"@, ColumnView::Text(int_text(b.log_index as int))),
        ("log_block_index"@, ColumnView::Text(int_text(b.log_block_index as int))),
        ("log_ordinal"@, ColumnView::Text(int_text(b.log_ordinal as int))),
        ("storage_key"@, ColumnView::Text(b.storage_key@)),
        ("storage_ordinal"@, ColumnView::Uint(b.storage_ordinal)),
        ("index"@, ColumnView::Text(int_text(b.index as int))),
        ("version"@, ColumnView::Text(int_text(b.version as int))),
        ("contract"@, ColumnView::Text(b.contract@)),
        ("owner"@, ColumnView::Text(b.owner@)),
        ("old_balance"@, ColumnView::Text(b.old_balance@)),
        ("new_balance"@, ColumnView::Text(b.new_balance@)),
        ("from"@, ColumnView::Text(b.from@)),
        ("to"@, ColumnView::Text(b.to@)),
        ("value"@, ColumnView::Text(b.value@)),
        ("change_type"@, ColumnView::Text(int_text(b.change_type as int))),
    ]
}

/// The columns the database sink writes for a transfer.
pub open spec fn db_transfer_fields(t: Transfer) -> Seq<(Seq<char>, ColumnView)> {
    seq![
        ("block_num"@, ColumnView::Text(int_text(t.block_num as int))),
        ("block_hash"@, ColumnView::Text(t.block_hash@)),
        ("timestamp"@, ColumnView::Timestamp(t.timestamp->0)),
        ("date"@, ColumnView::Text(t.date@)),
        ("transaction_id"@, ColumnView::Text(t.transaction_id@)),
        ("call_index"@, ColumnView::Text(int_text(t.call_index as int))),
        ("log_index"@, ColumnView::Text(int_text(t.log_index as int))),
        ("log_block_index"@, ColumnView::Text(int_text(t.log_block_index as int))),
        ("log_ordinal"@, ColumnView::Text(int_text(t.log_ordinal as int))),
        ("contract"@, ColumnView::Text(t.contract@)),
        ("from"@, ColumnView::Text(t.from@)),
        ("to"@, ColumnView::Text(t.to@)),
        ("value"@, ColumnView::Text(t.value@)),
    ]
}

/// Contents of a primary key.
pub open spec fn key_view(v: Seq<(String, String)>) -> Seq<(Seq<char>, Seq<char>)> {
    v.map_values(|f: (String, String)| (f.0@, f.1@))
}

/// The row of a balance change in `balance_changes`, keyed by transaction and index.
pub open spec fn is_db_balance_change_row(r: DatabaseRow, b: BalanceChange) -> bool {
    &&& r.table@ == "balance_changes"@
    &&& key_view(r.primary_key@) == seq![
        ("transaction_id"@, b.transaction_id@),
        ("index"@, int_text(b.index as int)),
    ]
    &&& fields_view(r.fields@) == db_balance_change_fields(b)
}

/// The row of a transfer in `transfers`, keyed by transaction and call index.
pub open spec fn is_db_transfer_row(r: DatabaseRow, t: Transfer) -> bool {
    &&& r.table@ == "transfers"@
    &&& key_view(r.primary_key@) == seq![
        ("transaction_id"@, t.transaction_id@),
        ("index"@, int_text(t.call_index as int)),
    ]
    &&& fields_view(r.fields@) == db_transfer_fields(t)
}

fn db_balance_change_row(b: &BalanceChange) -> (r: DatabaseRow)
    requires
        b.timestamp is Some,
    ensures
        is_db_balance_change_row(r, *b),
{
    let ts = match b.timestamp {
        Some(t) => t,
        None => Timestamp { seconds: 0, nanos: 0 },
    };
    let mut fields: Vec<(String, Column)> = Vec::new();
    fields.push(field("block_num", Column::Text(u64_text(b.block_num))));
    fields.push(field("block_hash", Column::Text(b.block_hash.clone())));
    fields.push(field("timestamp", Column::Timestamp(ts)));
    fields.push(field("date", Column::Text(b.date.clone())));
    fields.push(field("transaction_id", Column::Text(b.transaction_id.clone())));
    fields.push(field("call_index", Column::Text(u64_text(b.call_index as u64))));
    fields.push(field("log_index", Column::Text(u64_text(b.log_index as u64))));
    fields.push(field("log_block_index", Column::Text(u64_text(b.log_block_index as u64))));
    fields.push(field("log_ordinal", Column::Text(u64_text(b.log_ordinal))));
    fields.push(field("storage_key", Column::Text(b.storage_key.clone())));
    fields.push(field("storage_ordinal", Column::Uint(b.storage_ordinal)));
    fields.push(field("index", Column::Text(u64_text(b.index as u64))));
    fields.push(field("version", Column::Text(u64_text(b.version))));
    fields.push(field("contract", Column::Text(b.contract.clone())));
    fields.push(field("owner", Column::Text(b.owner.clone())));
    fields.push(field("old_balance", Column::Text(b.old_balance.clone())));
    fields.push(field("new_balance", Column::Text(b.new_balance.clone())));
    fields.push(field("from", Column::Text(b.from.clone())));
    fields.push(field("to", Column::Text(b.to.clone())));
    fields.push(field("value", Column::Text(b.value.clone())));
    fields.push(field("change_type", Column::Text(i32_text(b.change_type))));
    assert(fields_view(fields@) =~= db_balance_change_fields(*b));
    let mut primary_key: Vec<(String, String)> = Vec::new();
    primary_key.push((String::from_str("transaction_id"), b.transaction_id.clone()));
    primary_key.push((String::from_str("index"), u64_text(b.index as u64)));
    assert(key_view(primary_key@) =~= seq![
        ("transaction_id"@, b.transaction_id@),
        ("index"@, int_text(b.index as int)),
    ]);
    DatabaseRow { table: String::from_str("balance_changes"), primary_key, fields }
}

fn db_transfer_row(t: &Transfer) -> (r: DatabaseRow)
    requires
        t.timestamp is Some,
    ensures
        is_db_transfer_row(r, *t),
{
    let ts = match t.timestamp {
        Some(x) => x,
        None => Timestamp { seconds: 0, nanos: 0 },
    };
    let mut fields: Vec<(String, Column)> = Vec::new();
    fields.push(field("block_num", Column::Text(u64_text(t.block_num))));
    fields.push(field("block_hash", Column::Text(t.block_hash.clone())));
    fields.push(field("timestamp", Column::Timestamp(ts)));
    fields.push(field("date", Column::Text(t.date.clone())));
    fields.push(field("transaction_id", Column::Text(t.transaction_id.clone())));
    fields.push(field("call_index", Column::Text(u64_text(t.call_index as u64))));
    fields.push(field("log_index", Column::Text(u64_text(t.log_index as u64))));
    fields.push(field("log_block_index", Column::Text(u64_text(t.log_block_index as u64))));
    fields.push(field("log_ordinal", Column::Text(u64_text(t.log_ordinal))));
    fields.push(field("contract", Column::Text(t.contract.clone())));
    fields.push(field("from", Column::Text(t.from.clone())));
    fields.push(field("to", Column::Text(t.to.clone())));
    fields.push(field("value", Column::Text(t.value.clone())));
    assert(fields_view(fields@) =~= db_transfer_fields(*t));
    let mut primary_key: Vec<(String, String)> = Vec::new();
    primary_key.push((String::from_str("transaction_id"), t.transaction_id.clone()));
    primary_key.push((String::from_str("index"), u64_text(t.call_index as u64)));
    assert(key_view(primary_key@) =~= seq![
        ("transaction_id"@, t.transaction_id@),
        ("index"@, int_text(t.call_index as int)),
    ]);
    DatabaseRow { table: String::from_str("transfers"), primary_key, fields }
}

/// The rows of the database sink: one per balance change, then one per transfer, in
/// order.
pub fn db_out(events: Events) -> (r: Vec<DatabaseRow>)
    requires
        events_have_timestamps(events),
    ensures
        r.len() == events.balance_changes.len() + events.transfers.len(),
        forall|k: int| 0 <= k < events.balance_changes.len() ==> is_db_balance_change_row(#[trigger] r@[k], events.balance_changes@[k]),
        forall|k: int| 0 <= k < events.transfers.len() ==> is_db_transfer_row(#[trigger] r@[events.balance_changes.len() + k], events.transfers@[k]),
{
    let mut rows: Vec<DatabaseRow> = Vec::new();
    let mut i: usize = 0;
    while i < events.balance_changes.len()
        invariant
            events_have_timestamps(events),
            i <= events.balance_changes.len(),
            rows.len() == i,
            forall|k: int| 0 <= k < i ==> is_db_balance_change_row(#[trigger] rows@[k], events.balance_changes@[k]),
        decreases events.balance_changes.len() - i,
    {
        assert(events.balance_changes@[i as int].timestamp is Some);
        rows.push(db_balance_change_row(&events.balance_changes[i]));
        i += 1;
    }
    let n = events.balance_changes.len();
    let mut j: usize = 0;
    while j < events.transfers.len()
        invariant
            events_have_timestamps(events),
            n == events.balance_changes.len(),
            j <= events.transfers.len(),
            rows.len() == n + j,
            forall|k: int| 0 <= k < n ==> is_db_balance_change_row(#[trigger] rows@[k], events.balance_changes@[k]),
            forall|k: int| 0 <= k < j ==> is_db_transfer_row(#[trigger] rows@[n + k], events.transfers@[k]),
        decreases events.transfers.len() - j,
    {
        assert(events.transfers@[j as int].timestamp is Some);
        rows.push(db_transfer_row(&events.transfers[j]));
        j += 1;
    }
    rows
}

} // verus!
