//! The subgraph of token balances: one `Balance` entity per contract and owner, set from
//! the balance changes of ERC-20 tokens and of the native token.
use crate::bignum::{from_u64, int_text, to_decimal_string};
use crate::eth::Clock;
use crate::hexcode::{encode, hex_text};
use crate::maps::clock_date;
use crate::sinks::{colon_join, fields_view, Column, ColumnView, EntityRow};
use crate::utils::clock_to_date;
use vstd::prelude::*;

verus! {

/// The balance of an owner after a change.
#[derive(Clone, Debug)]
pub struct BalanceChange {
    pub contract: Vec<u8>,
    pub owner: Vec<u8>,
    /// Decimal text of the new balance.
    pub new_balance: String,
}

/// The balance changes of a module's output.
#[derive(Clone, Debug)]
pub struct Events {
    pub balance_changes: Vec<BalanceChange>,
}

/// The bytes of the text `native`, which stands for the native token's contract.
pub open spec fn native_bytes() -> Seq<u8> {
    seq![110u8, 97u8, 116u8, 105u8, 118u8, 101u8]
}

/// How an address is written: empty stays empty, `native` stays `native`, anything else
/// is `0x` and its lowercase hexadecimal digits.
pub open spec fn address_text(bytes: Seq<u8>) -> Seq<char> {
    if bytes.len() == 0 {
        Seq::empty()
    } else if bytes == native_bytes() {
        "native"@
    } else {
        "0x"@ + hex_text(bytes)
    }
}

/// Whether the bytes spell `native`.
fn is_native(bytes: &Vec<u8>) -> (r: bool)
    ensures
        r == (bytes@ == native_bytes()),
{
    let r = bytes.len() == 6 && bytes[0] == 110 && bytes[1] == 97 && bytes[2] == 116 && bytes[3]
        == 105 && bytes[4] == 118 && bytes[5] == 101;
    proof {
        if r {
            assert(bytes@ =~= native_bytes());
        }
    }
    r
}

/// Writes an address: empty stays empty, `native` stays `native`, anything else is `0x`
/// and its lowercase hexadecimal digits.
pub fn bytes_to_hex(bytes: &Vec<u8>) -> (r: String)
    ensures
        r@ == address_text(bytes@),
{
    proof {
        reveal_strlit("native");
        reveal_strlit("0x");
    }
    if bytes.len() == 0 {
        String::new()
    } else if is_native(bytes) {
        String::from_str("native")
    } else {
        let mut s = String::from_str("0x");
        let digits = encode(bytes.as_slice());
        s.append(digits.as_str());
        s
    }
}

/// The fields of the `Balance` entity of a balance change.
pub open spec fn balance_fields(clock: Clock, b: BalanceChange) -> Seq<(Seq<char>, ColumnView)> {
    seq![
        ("block_num"@, ColumnView::BigInt(int_text(clock.number as int))),
        ("timestamp"@, ColumnView::Timestamp(clock.timestamp->0)),
        ("date"@, ColumnView::Text(clock_date(clock))),
        ("contract"@, ColumnView::Text(address_text(b.contract@))),
        ("owner"@, ColumnView::Text(address_text(b.owner@))),
        ("balance"@, ColumnView::BigInt(b.new_balance@)),
    ]
}

/// Whether `r` is the `Balance` entity of a balance change, keyed by contract and owner.
pub open spec fn is_balance_row(r: EntityRow, clock: Clock, b: BalanceChange) -> bool {
    &&& r.entity@ == "Balance"@
    &&& r.id@ == colon_join(address_text(b.contract@), address_text(b.owner@))
    &&& fields_view(r.fields@) == balance_fields(clock, b)
}

fn balance_row(clock: &Clock, b: &BalanceChange) -> (r: EntityRow)
    requires
        clock.timestamp is Some,
    ensures
        is_balance_row(r, *clock, *b),
{
    let ts = match clock.timestamp {
        Some(t) => t,
        None => crate::eth::Timestamp { seconds: 0, nanos: 0 },
    };
    let contract = bytes_to_hex(&b.contract);
    let owner = bytes_to_hex(&b.owner);
    let id = crate::sinks::join_with_colon(&contract, &owner);
    let mut fields: Vec<(String, Column)> = Vec::new();
    fields.push((String::from_str("block_num"), Column::BigInt(to_decimal_string(&from_u64(clock.number)))));
    fields.push((String::from_str("timestamp"), Column::Timestamp(ts)));
    fields.push((String::from_str("date"), Column::Text(clock_to_date(clock))));
    fields.push((String::from_str("contract"), Column::Text(contract)));
    fields.push((String::from_str("owner"), Column::Text(owner)));
    fields.push((String::from_str("balance"), Column::BigInt(b.new_balance.clone())));
    assert(fields_view(fields@) =~= balance_fields(*clock, *b));
    EntityRow { entity: String::from_str("Balance"), id, fields }
}

/// The `Balance` entities of the ERC-20 balance changes, then of the native ones, one per
/// change in order (a later change of the same contract and owner sets the same entity
/// again). The clock's timestamp is needed as soon as there is a row to write.
pub fn graph_out(clock: &Clock, erc20: &Events, native: &Events) -> (r: Vec<EntityRow>)
    requires
        erc20.balance_changes.len() + native.balance_changes.len() > 0 ==> clock.timestamp is Some,
    ensures
        r.len() == erc20.balance_changes.len() + native.balance_changes.len(),
        forall|k: int| 0 <= k < erc20.balance_changes.len() ==> is_balance_row(#[trigger] r@[k], *clock, erc20.balance_changes@[k]),
        forall|k: int| 0 <= k < native.balance_changes.len() ==> is_balance_row(
            #[trigger] r@[erc20.balance_changes.len() + k],
            *clock,
            native.balance_changes@[k],
        ),
{
    let mut rows: Vec<EntityRow> = Vec::new();
    let mut i: usize = 0;
    while i < erc20.balance_changes.len()
        invariant
            erc20.balance_changes.len() + native.balance_changes.len() > 0 ==> clock.timestamp is Some,
            i <= erc20.balance_changes.len(),
            rows.len() == i,
            forall|k: int| 0 <= k < i ==> is_balance_row(#[trigger] rows@[k], *clock, erc20.balance_changes@[k]),
        decreases erc20.balance_changes.len() - i,
    {
        rows.push(balance_row(clock, &erc20.balance_changes[i]));
        i += 1;
    }
    let n = erc20.balance_changes.len();
    let mut j: usize = 0;
    while j < native.balance_changes.len()
        invariant
            erc20.balance_changes.len() + native.balance_changes.len() > 0 ==> clock.timestamp is Some,
            n == erc20.balance_changes.len(),
            j <= native.balance_changes.len(),
            rows.len() == n + j,
            forall|k: int| 0 <= k < n ==> is_balance_row(#[trigger] rows@[k], *clock, erc20.balance_changes@[k]),
            forall|k: int| 0 <= k < j ==> is_balance_row(#[trigger] rows@[n + k], *clock, native.balance_changes@[k]),
        decreases native.balance_changes.len() - j,
    {
        rows.push(balance_row(clock, &native.balance_changes[j]));
        j += 1;
    }
    rows
}

} // verus!
