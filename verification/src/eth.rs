//! The parts of an Ethereum block trace that the token logic reads.
use vstd::prelude::*;

verus! {

/// Contents of a list of byte strings.
pub open spec fn bytes_list_view(v: Seq<Vec<u8>>) -> Seq<Seq<u8>> {
    v.map_values(|t: Vec<u8>| t@)
}

/// Contents of an optional byte string.
pub open spec fn opt_bytes_view(v: Option<Vec<u8>>) -> Option<Seq<u8>> {
    match v {
        Some(b) => Some(b@),
        None => None,
    }
}

/// Contents of a list of string pairs.
pub open spec fn string_pairs_view(v: Seq<(String, String)>) -> Seq<(Seq<char>, Seq<char>)> {
    v.map_values(|p: (String, String)| (p.0@, p.1@))
}

/// A copy of a byte string.
pub fn copy_bytes(v: &Vec<u8>) -> (r: Vec<u8>)
    ensures
        r@ == v@,
{
    let r = v.clone();
    assert(r@ =~= v@);
    r
}

/// A copy of an optional byte string.
pub fn copy_opt_bytes(v: &Option<Vec<u8>>) -> (r: Option<Vec<u8>>)
    ensures
        opt_bytes_view(r) == opt_bytes_view(*v),
{
    match v {
        Some(b) => Some(copy_bytes(b)),
        None => None,
    }
}

/// A copy of a list of byte strings.
pub fn copy_bytes_list(v: &Vec<Vec<u8>>) -> (r: Vec<Vec<u8>>)
    ensures
        bytes_list_view(r@) == bytes_list_view(v@),
{
    let mut r: Vec<Vec<u8>> = Vec::new();
    let mut i: usize = 0;
    while i < v.len()
        invariant
            i <= v.len(),
            r.len() == i,
            forall|j: int| 0 <= j < i ==> (#[trigger] r@[j])@ == v@[j]@,
        decreases v.len() - i,
    {
        r.push(copy_bytes(&v[i]));
        i += 1;
    }
    assert(bytes_list_view(r@) =~= bytes_list_view(v@));
    r
}

/// A copy of a list of string pairs.
pub fn copy_string_pairs(v: &Vec<(String, String)>) -> (r: Vec<(String, String)>)
    ensures
        string_pairs_view(r@) == string_pairs_view(v@),
{
    let mut r: Vec<(String, String)> = Vec::new();
    let mut i: usize = 0;
    while i < v.len()
        invariant
            i <= v.len(),
            r.len() == i,
            forall|j: int| 0 <= j < i ==> (#[trigger] r@[j]).0@ == v@[j].0@ && r@[j].1@ == v@[j].1@,
        decreases v.len() - i,
    {
        r.push((v[i].0.clone(), v[i].1.clone()));
        i += 1;
    }
    assert(string_pairs_view(r@) =~= string_pairs_view(v@));
    r
}

/// A point in time: seconds and nanoseconds since the Unix epoch.
#[derive(Clone, Copy, Debug, PartialEq, Eq, Structural)]
pub struct Timestamp {
    pub seconds: i64,
    pub nanos: i32,
}

/// The block a module runs on.
#[derive(Clone, Debug)]
pub struct Clock {
    pub id: String,
    pub number: u64,
    pub timestamp: Option<Timestamp>,
}

/// Contents of a storage change.
pub struct StorageChangeView {
    pub address: Seq<u8>,
    pub key: Seq<u8>,
    pub old_value: Seq<u8>,
    pub new_value: Seq<u8>,
    pub ordinal: u64,
}

/// A change of one storage slot of a contract.
#[derive(Clone, Debug)]
pub struct StorageChange {
    pub address: Vec<u8>,
    pub key: Vec<u8>,
    pub old_value: Vec<u8>,
    pub new_value: Vec<u8>,
    pub ordinal: u64,
}

impl View for StorageChange {
    type V = StorageChangeView;

    open spec fn view(&self) -> StorageChangeView {
        StorageChangeView {
            address: self.address@,
            key: self.key@,
            old_value: self.old_value@,
            new_value: self.new_value@,
            ordinal: self.ordinal,
        }
    }
}

impl StorageChange {
    /// A copy with the same contents.
    pub fn duplicate(&self) -> (r: StorageChange)
        ensures
            r@ == self@,
    {
        StorageChange {
            address: copy_bytes(&self.address),
            key: copy_bytes(&self.key),
            old_value: copy_bytes(&self.old_value),
            new_value: copy_bytes(&self.new_value),
            ordinal: self.ordinal,
        }
    }
}

/// Contents of a log.
pub struct LogView {
    pub address: Seq<u8>,
    pub topics: Seq<Seq<u8>>,
    pub data: Seq<u8>,
    pub index: u32,
    pub block_index: u32,
    pub ordinal: u64,
}

/// An event emitted by a call.
#[derive(Clone, Debug)]
pub struct Log {
    pub address: Vec<u8>,
    pub topics: Vec<Vec<u8>>,
    pub data: Vec<u8>,
    /// Index of the log relative to the transaction.
    pub index: u32,
    /// Index of the log relative to the block.
    pub block_index: u32,
    pub ordinal: u64,
}

impl View for Log {
    type V = LogView;

    open spec fn view(&self) -> LogView {
        LogView {
            address: self.address@,
            topics: bytes_list_view(self.topics@),
            data: self.data@,
            index: self.index,
            block_index: self.block_index,
            ordinal: self.ordinal,
        }
    }
}

impl Log {
    /// A copy with the same contents.
    pub fn duplicate(&self) -> (r: Log)
        ensures
            r@ == self@,
    {
        Log {
            address: copy_bytes(&self.address),
            topics: copy_bytes_list(&self.topics),
            data: copy_bytes(&self.data),
            index: self.index,
            block_index: self.block_index,
            ordinal: self.ordinal,
        }
    }
}

/// Contents of a native balance change.
pub struct NativeBalanceChangeView {
    pub address: Seq<u8>,
    pub old_value: Option<Seq<u8>>,
    pub new_value: Option<Seq<u8>>,
    pub reason: i32,
    pub ordinal: u64,
}

/// A change of the native balance of an account; values are unsigned big-endian bytes.
#[derive(Clone, Debug)]
pub struct NativeBalanceChange {
    pub address: Vec<u8>,
    pub old_value: Option<Vec<u8>>,
    pub new_value: Option<Vec<u8>>,
    pub reason: i32,
    pub ordinal: u64,
}

impl View for NativeBalanceChange {
    type V = NativeBalanceChangeView;

    open spec fn view(&self) -> NativeBalanceChangeView {
        NativeBalanceChangeView {
            address: self.address@,
            old_value: opt_bytes_view(self.old_value),
            new_value: opt_bytes_view(self.new_value),
            reason: self.reason,
            ordinal: self.ordinal,
        }
    }
}

impl NativeBalanceChange {
    /// A copy with the same contents.
    pub fn duplicate(&self) -> (r: NativeBalanceChange)
        ensures
            r@ == self@,
    {
        NativeBalanceChange {
            address: copy_bytes(&self.address),
            old_value: copy_opt_bytes(&self.old_value),
            new_value: copy_opt_bytes(&self.new_value),
            reason: self.reason,
            ordinal: self.ordinal,
        }
    }
}

/// Contents of a call.
pub struct CallView {
    pub index: u32,
    pub parent_index: u32,
    pub depth: u32,
    pub call_type: i32,
    pub caller: Seq<u8>,
    pub address: Seq<u8>,
    pub address_delegates_to: Option<Seq<u8>>,
    pub value: Option<Seq<u8>>,
    pub begin_ordinal: u64,
    pub state_reverted: bool,
    pub status_failed: bool,
    pub status_reverted: bool,
    pub logs: Seq<LogView>,
    pub storage_changes: Seq<StorageChangeView>,
    pub keccak_preimages: Seq<(Seq<char>, Seq<char>)>,
    pub balance_changes: Seq<NativeBalanceChangeView>,
    pub code_changes: Seq<CodeChangeView>,
}

/// One call of a transaction trace.
#[derive(Clone, Debug)]
pub struct Call {
    pub index: u32,
    pub parent_index: u32,
    pub depth: u32,
    pub call_type: i32,
    pub caller: Vec<u8>,
    pub address: Vec<u8>,
    /// The account whose code the call runs, when it delegates.
    pub address_delegates_to: Option<Vec<u8>>,
    /// Value sent with the call, unsigned big-endian bytes.
    pub value: Option<Vec<u8>>,
    pub begin_ordinal: u64,
    pub state_reverted: bool,
    pub status_failed: bool,
    pub status_reverted: bool,
    pub logs: Vec<Log>,
    pub storage_changes: Vec<StorageChange>,
    /// Hash (hex) to preimage (hex) of the Keccak computations of the call, in the order
    /// in which they are read.
    pub keccak_preimages: Vec<(String, String)>,
    pub balance_changes: Vec<NativeBalanceChange>,
    /// Code changes of the call; a contract creation has one for the new contract.
    pub code_changes: Vec<CodeChange>,
}

/// Contents of a list of logs.
pub open spec fn logs_view(v: Seq<Log>) -> Seq<LogView> {
    v.map_values(|l: Log| l@)
}

/// Contents of a list of storage changes.
pub open spec fn storage_changes_view(v: Seq<StorageChange>) -> Seq<StorageChangeView> {
    v.map_values(|s: StorageChange| s@)
}

/// Contents of a list of native balance changes.
pub open spec fn native_changes_view(v: Seq<NativeBalanceChange>) -> Seq<NativeBalanceChangeView> {
    v.map_values(|s: NativeBalanceChange| s@)
}

/// Contents of a list of calls.
pub open spec fn calls_view(v: Seq<Call>) -> Seq<CallView> {
    v.map_values(|c: Call| c@)
}

impl View for Call {
    type V = CallView;

    open spec fn view(&self) -> CallView {
        CallView {
            index: self.index,
            parent_index: self.parent_index,
            depth: self.depth,
            call_type: self.call_type,
            caller: self.caller@,
            address: self.address@,
            address_delegates_to: opt_bytes_view(self.address_delegates_to),
            value: opt_bytes_view(self.value),
            begin_ordinal: self.begin_ordinal,
            state_reverted: self.state_reverted,
            status_failed: self.status_failed,
            status_reverted: self.status_reverted,
            logs: logs_view(self.logs@),
            storage_changes: storage_changes_view(self.storage_changes@),
            keccak_preimages: string_pairs_view(self.keccak_preimages@),
            balance_changes: native_changes_view(self.balance_changes@),
            code_changes: code_changes_view(self.code_changes@),
        }
    }
}

/// A copy of a list of logs.
pub fn copy_logs(v: &Vec<Log>) -> (r: Vec<Log>)
    ensures
        logs_view(r@) == logs_view(v@),
{
    let mut r: Vec<Log> = Vec::new();
    let mut i: usize = 0;
    while i < v.len()
        invariant
            i <= v.len(),
            r.len() == i,
            forall|j: int| 0 <= j < i ==> (#[trigger] r@[j])@ == v@[j]@,
        decreases v.len() - i,
    {
        r.push(v[i].duplicate());
        i += 1;
    }
    assert(logs_view(r@) =~= logs_view(v@));
    r
}

/// A copy of a list of storage changes.
pub fn copy_storage_changes(v: &Vec<StorageChange>) -> (r: Vec<StorageChange>)
    ensures
        storage_changes_view(r@) == storage_changes_view(v@),
{
    let mut r: Vec<StorageChange> = Vec::new();
    let mut i: usize = 0;
    while i < v.len()
        invariant
            i <= v.len(),
            r.len() == i,
            forall|j: int| 0 <= j < i ==> (#[trigger] r@[j])@ == v@[j]@,
        decreases v.len() - i,
    {
        r.push(v[i].duplicate());
        i += 1;
    }
    assert(storage_changes_view(r@) =~= storage_changes_view(v@));
    r
}

/// A copy of a list of native balance changes.
pub fn copy_native_changes(v: &Vec<NativeBalanceChange>) -> (r: Vec<NativeBalanceChange>)
    ensures
        native_changes_view(r@) == native_changes_view(v@),
{
    let mut r: Vec<NativeBalanceChange> = Vec::new();
    let mut i: usize = 0;
    while i < v.len()
        invariant
            i <= v.len(),
            r.len() == i,
            forall|j: int| 0 <= j < i ==> (#[trigger] r@[j])@ == v@[j]@,
        decreases v.len() - i,
    {
        r.push(v[i].duplicate());
        i += 1;
    }
    assert(native_changes_view(r@) =~= native_changes_view(v@));
    r
}

/// Contents of a code change.
pub struct CodeChangeView {
    pub address: Seq<u8>,
    pub new_hash: Seq<u8>,
    pub ordinal: u64,
}

/// A change of the code of an account.
#[derive(Clone, Debug)]
pub struct CodeChange {
    pub address: Vec<u8>,
    /// Hash of the new code.
    pub new_hash: Vec<u8>,
    pub ordinal: u64,
}

impl View for CodeChange {
    type V = CodeChangeView;

    open spec fn view(&self) -> CodeChangeView {
        CodeChangeView { address: self.address@, new_hash: self.new_hash@, ordinal: self.ordinal }
    }
}

/// Contents of a list of code changes.
pub open spec fn code_changes_view(v: Seq<CodeChange>) -> Seq<CodeChangeView> {
    v.map_values(|c: CodeChange| c@)
}

/// A copy of a list of code changes.
pub fn copy_code_changes(v: &Vec<CodeChange>) -> (r: Vec<CodeChange>)
    ensures
        code_changes_view(r@) == code_changes_view(v@),
{
    let mut r: Vec<CodeChange> = Vec::new();
    let mut i: usize = 0;
    while i < v.len()
        invariant
            i <= v.len(),
            r.len() == i,
            forall|j: int| 0 <= j < i ==> (#[trigger] r@[j])@ == v@[j]@,
        decreases v.len() - i,
    {
        let c = &v[i];
        r.push(CodeChange { address: copy_bytes(&c.address), new_hash: copy_bytes(&c.new_hash), ordinal: c.ordinal });
        i += 1;
    }
    assert(code_changes_view(r@) =~= code_changes_view(v@));
    r
}

impl Call {
    /// A copy with the same contents.
    pub fn duplicate(&self) -> (r: Call)
        ensures
            r@ == self@,
    {
        Call {
            index: self.index,
            parent_index: self.parent_index,
            depth: self.depth,
            call_type: self.call_type,
            caller: copy_bytes(&self.caller),
            address: copy_bytes(&self.address),
            address_delegates_to: copy_opt_bytes(&self.address_delegates_to),
            value: copy_opt_bytes(&self.value),
            begin_ordinal: self.begin_ordinal,
            state_reverted: self.state_reverted,
            status_failed: self.status_failed,
            status_reverted: self.status_reverted,
            logs: copy_logs(&self.logs),
            storage_changes: copy_storage_changes(&self.storage_changes),
            keccak_preimages: copy_string_pairs(&self.keccak_preimages),
            balance_changes: copy_native_changes(&self.balance_changes),
            code_changes: copy_code_changes(&self.code_changes),
        }
    }
}

/// Protobuf number of a succeeded transaction.
pub const STATUS_SUCCEEDED: i32 = 1;

/// Protobuf number of a failed transaction.
pub const STATUS_FAILED: i32 = 2;

/// Protobuf number of a reverted transaction.
pub const STATUS_REVERTED: i32 = 3;

/// Contents of a transaction trace.
pub struct TransactionTraceView {
    pub hash: Seq<u8>,
    pub from: Seq<u8>,
    pub to: Seq<u8>,
    pub status: i32,
    pub value: Option<Seq<u8>>,
    pub gas_price: Option<Seq<u8>>,
    pub gas_used: u64,
    pub begin_ordinal: u64,
    pub trx_type: i32,
    pub calls: Seq<CallView>,
}

/// The trace of one transaction.
#[derive(Clone, Debug)]
pub struct TransactionTrace {
    pub hash: Vec<u8>,
    pub from: Vec<u8>,
    pub to: Vec<u8>,
    /// Protobuf number of the status (succeeded, failed, reverted, unknown).
    pub status: i32,
    /// Value sent with the transaction, unsigned big-endian bytes.
    pub value: Option<Vec<u8>>,
    /// Gas price, unsigned big-endian bytes.
    pub gas_price: Option<Vec<u8>>,
    pub gas_used: u64,
    pub begin_ordinal: u64,
    pub trx_type: i32,
    pub calls: Vec<Call>,
}

impl View for TransactionTrace {
    type V = TransactionTraceView;

    open spec fn view(&self) -> TransactionTraceView {
        TransactionTraceView {
            hash: self.hash@,
            from: self.from@,
            to: self.to@,
            status: self.status,
            value: opt_bytes_view(self.value),
            gas_price: opt_bytes_view(self.gas_price),
            gas_used: self.gas_used,
            begin_ordinal: self.begin_ordinal,
            trx_type: self.trx_type,
            calls: calls_view(self.calls@),
        }
    }
}

/// Contents of a list of transaction traces.
pub open spec fn trxs_view(v: Seq<TransactionTrace>) -> Seq<TransactionTraceView> {
    v.map_values(|t: TransactionTrace| t@)
}

/// The header fields that the native logic reads.
#[derive(Clone, Debug)]
pub struct BlockHeader {
    pub coinbase: Vec<u8>,
    /// Base fee per gas, unsigned big-endian bytes.
    pub base_fee_per_gas: Option<Vec<u8>>,
}

/// A block with its transaction traces.
#[derive(Clone, Debug)]
pub struct Block {
    pub number: u64,
    pub header: Option<BlockHeader>,
    pub transaction_traces: Vec<TransactionTrace>,
    /// Balance changes at block level (such as block rewards).
    pub balance_changes: Vec<NativeBalanceChange>,
    pub system_calls: Vec<Call>,
}

} // verus!
