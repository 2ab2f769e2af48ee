//! Output messages of the ERC-20 balance-change module.
use crate::eth::Timestamp;
use crate::text::str_eq;
use vstd::prelude::*;

verus! {

/// Transfers and balance changes of a block.
#[derive(Clone, Debug)]
pub struct Events {
    pub transfers: Vec<Transfer>,
    pub balance_changes: Vec<BalanceChange>,
}

/// A change of an ERC-20 balance, with the transfer that caused it.
#[derive(Clone, Debug)]
pub struct BalanceChange {
    // -- block --
    pub block_num: u64,
    pub block_hash: String,
    pub timestamp: Option<Timestamp>,
    pub date: String,
    // -- transaction --
    pub transaction_id: String,
    // -- call --
    pub call_index: u32,
    // -- log --
    /// Index of the log relative to the transaction.
    pub log_index: u32,
    /// Index of the log relative to the block.
    pub log_block_index: u32,
    /// The block's global ordinal when the transfer was recorded.
    pub log_ordinal: u64,
    // -- storage change --
    pub storage_key: String,
    pub storage_ordinal: u64,
    pub storage_address: String,
    // -- indexing --
    /// Position of the balance change among those of the block.
    pub index: u32,
    // -- balance change --
    pub contract: String,
    pub owner: String,
    pub old_balance: String,
    pub new_balance: String,
    /// Delta between old and new balance.
    pub amount: String,
    // -- transfer --
    pub from: String,
    pub to: String,
    pub value: String,
    // -- indexing --
    /// Version of the balance change: block number in the high 32 bits, index in the low.
    pub version: u64,
    // -- debug --
    /// Protobuf number of the `BalanceChangeType`.
    pub change_type: i32,
}

/// An ERC-20 transfer event.
#[derive(Clone, Debug)]
pub struct Transfer {
    // -- block --
    pub block_num: u64,
    pub block_hash: String,
    pub timestamp: Option<Timestamp>,
    pub date: String,
    // -- transaction --
    pub transaction_id: String,
    // -- call --
    pub call_index: u32,
    // -- log --
    /// Index of the log relative to the transaction.
    pub log_index: u32,
    /// Index of the log relative to the block.
    pub log_block_index: u32,
    /// The block's global ordinal when the transfer was recorded.
    pub log_ordinal: u64,
    pub topic0: String,
    pub data: String,
    // -- transfer --
    pub contract: String,
    pub from: String,
    pub to: String,
    pub value: String,
}

/// Statistics of the current block and of all blocks so far.
#[derive(Clone, Debug)]
pub struct BalanceChangeStats {
    pub current: Option<BalanceChangeStat>,
    pub total: Option<BalanceChangeStat>,
    pub block_number: u64,
    pub timestamp: Option<Timestamp>,
}

/// Counts of balance changes and transfers.
#[derive(Clone, Debug)]
pub struct BalanceChangeStat {
    pub type1_balance_changes: u64,
    pub type2_balance_changes: u64,
    pub balance_changes: u64,
    pub transfers: u64,
    pub transfers_not_matched: u64,
    pub valid_rate: String,
}

/// How a balance change was found.
#[derive(Clone, Copy, Debug, PartialEq, Eq, Structural)]
pub enum BalanceChangeType {
    /// cannot determine balance change
    Unspecified,
    /// easy case where storage change is in the same call as the Transfer call
    BalanceChangeType1,
    /// storage change is in a different call than the Transfer call
    BalanceChangeType2,
}

impl BalanceChangeType {
    /// Protobuf number of the variant.
    pub open spec fn number(self) -> i32 {
        match self {
            BalanceChangeType::Unspecified => 0,
            BalanceChangeType::BalanceChangeType1 => 1,
            BalanceChangeType::BalanceChangeType2 => 2,
        }
    }

    /// Protobuf number of the variant.
    pub fn to_i32(&self) -> (r: i32)
        ensures
            r == self.number(),
    {
        match self {
            BalanceChangeType::Unspecified => 0,
            BalanceChangeType::BalanceChangeType1 => 1,
            BalanceChangeType::BalanceChangeType2 => 2,
        }
    }

    /// Name of the variant in the protobuf definition.
    pub open spec fn name(self) -> Seq<char> {
        match self {
            BalanceChangeType::Unspecified => "BALANCE_CHANGE_TYPE_UNSPECIFIED"@,
            BalanceChangeType::BalanceChangeType1 => "BALANCE_CHANGE_TYPE_1"@,
            BalanceChangeType::BalanceChangeType2 => "BALANCE_CHANGE_TYPE_2"@,
        }
    }

    /// The variant of a protobuf name.
    pub open spec fn of_name(s: Seq<char>) -> Option<BalanceChangeType> {
        if s == "BALANCE_CHANGE_TYPE_UNSPECIFIED"@ {
            Some(BalanceChangeType::Unspecified)
        } else if s == "BALANCE_CHANGE_TYPE_1"@ {
            Some(BalanceChangeType::BalanceChangeType1)
        } else if s == "BALANCE_CHANGE_TYPE_2"@ {
            Some(BalanceChangeType::BalanceChangeType2)
        } else {
            None
        }
    }

    /// String value of the enum field names used in the ProtoBuf definition.
    pub fn as_str_name(&self) -> (r: &'static str)
        ensures
            r@ == self.name(),
    {
        match self {
            BalanceChangeType::Unspecified => "BALANCE_CHANGE_TYPE_UNSPECIFIED",
            BalanceChangeType::BalanceChangeType1 => "BALANCE_CHANGE_TYPE_1",
            BalanceChangeType::BalanceChangeType2 => "BALANCE_CHANGE_TYPE_2",
        }
    }

    /// Creates an enum from field names used in the ProtoBuf definition.
    pub fn from_str_name(value: &str) -> (r: Option<BalanceChangeType>)
        ensures
            r == BalanceChangeType::of_name(value@),
    {
        if str_eq(value, "BALANCE_CHANGE_TYPE_UNSPECIFIED") {
            Some(BalanceChangeType::Unspecified)
        } else if str_eq(value, "BALANCE_CHANGE_TYPE_1") {
            Some(BalanceChangeType::BalanceChangeType1)
        } else if str_eq(value, "BALANCE_CHANGE_TYPE_2") {
            Some(BalanceChangeType::BalanceChangeType2)
        } else {
            None
        }
    }
}

/// Reading back the name of a variant gives the variant, and a name that reads as a
/// variant is that variant's name.
pub proof fn lemma_balance_change_type_names(t: BalanceChangeType, s: Seq<char>)
    ensures
        BalanceChangeType::of_name(t.name()) == Some(t),
        BalanceChangeType::of_name(s) matches Some(u) ==> u.name() == s,
{
    reveal_strlit("BALANCE_CHANGE_TYPE_UNSPECIFIED");
    reveal_strlit("BALANCE_CHANGE_TYPE_1");
    reveal_strlit("BALANCE_CHANGE_TYPE_2");
    assert("BALANCE_CHANGE_TYPE_UNSPECIFIED"@.len() != "BALANCE_CHANGE_TYPE_1"@.len());
    assert("BALANCE_CHANGE_TYPE_UNSPECIFIED"@.len() != "BALANCE_CHANGE_TYPE_2"@.len());
    assert("BALANCE_CHANGE_TYPE_1"@ != "BALANCE_CHANGE_TYPE_2"@) by {
        assert("BALANCE_CHANGE_TYPE_1"@[20] != "BALANCE_CHANGE_TYPE_2"@[20]);
    }
}

} // verus!
