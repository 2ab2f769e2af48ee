//! Helpers shared by the balance-change algorithms: dates, versions, owner addresses of
//! storage keys, and the checks that relate a storage change to a transfer.
use crate::abi::{Transfer, TransferView};
use crate::bignum::{
    abs_int, absolute, difference, from_u64, lt, signed_be_value, BigNum,
};
use crate::eth::{
    calls_view, string_pairs_view, Call, CallView, Clock, StorageChange, StorageChangeView,
    Timestamp, TransactionTrace,
};
use crate::hexcode::{decode, hex_bytes, is_hex_text};
use crate::keccak_map::StorageKeyToAddressMap;
use vstd::prelude::*;
use vstd::utf8::{encode_utf8, is_continuation_byte};

verus! {

/// The text `prost_types::Timestamp` displays for a point in time (RFC 3339, UTC).
pub uninterp spec fn timestamp_display(seconds: i64, nanos: i32) -> Seq<char>;

/// Calls `prost_types::Timestamp::to_string`; the text is named `timestamp_display`.
#[verifier::external_body]
fn timestamp_to_string(ts: Timestamp) -> (r: String)
    ensures
        r@ == timestamp_display(ts.seconds, ts.nanos),
{
    prost_types::Timestamp { seconds: ts.seconds, nanos: ts.nanos }.to_string()
}

/// The characters before the first `T` (all of them when there is none).
pub open spec fn date_part(s: Seq<char>) -> Seq<char>
    decreases s.len(),
{
    if s.len() == 0 {
        s
    } else if s[0] == 'T' {
        Seq::empty()
    } else {
        seq![s[0]] + date_part(s.drop_first())
    }
}

proof fn lemma_date_part(s: Seq<char>, i: int)
    requires
        0 <= i <= s.len(),
        i < s.len() ==> s[i] == 'T',
        forall|j: int| 0 <= j < i ==> s[j] != 'T',
    ensures
        date_part(s) == s.subrange(0, i),
    decreases s.len(),
{
    if s.len() > 0 && i > 0 {
        lemma_date_part(s.drop_first(), i - 1);
        assert(seq![s[0]] + s.drop_first().subrange(0, i - 1) =~= s.subrange(0, i));
    } else if s.len() > 0 {
        assert(s.subrange(0, 0) =~= Seq::<char>::empty());
    }
}

/// The date of the block: the text of its timestamp up to the `T`
/// (for example `2015-07-30T16:02:18Z` gives `2015-07-30`).
pub fn clock_to_date(clock: &Clock) -> (r: String)
    requires
        clock.timestamp is Some,
    ensures
        r@ == date_part(
            timestamp_display(clock.timestamp->0.seconds, clock.timestamp->0.nanos),
        ),
{
    let ts = match clock.timestamp {
        Some(ts) => ts,
        None => Timestamp { seconds: 0, nanos: 0 },
    };
    let text = timestamp_to_string(ts);
    let s = text.as_str();
    let n = s.unicode_len();
    let mut i: usize = 0;
    let mut found = false;
    while i < n && !found
        invariant
            n == s@.len(),
            i <= n,
            found ==> i < n && s@[i as int] == 'T',
            forall|j: int| 0 <= j < i ==> s@[j] != 'T',
        decreases 2 * (n - i) + (if found { 0int } else { 1int }),
    {
        if s.get_char(i) == 'T' {
            found = true;
        } else {
            i += 1;
        }
    }
    proof {
        lemma_date_part(s@, i as int);
    }
    let prefix = s.substring_char(0, i);
    String::from_str(prefix)
}

/// The version of an item of a block: the low 32 bits of the block number in the high
/// 32 bits, the item's index in the low 32 bits, so that versions grow with
/// (block number, index).
pub fn index_to_version(clock: &Clock, index: u32) -> (r: u64)
    ensures
        r == (clock.number % 0x1_0000_0000) * 0x1_0000_0000 + index,
{
    let n = clock.number;
    let high = n << 32u64;
    assert(high == (n % 0x1_0000_0000) * 0x1_0000_0000) by (bit_vector)
        requires
            high == n << 32u64,
    ;
    high + index as u64
}

/// Whether the 62 characters at 64..126 of a preimage are all `0`.
pub open spec fn zero_padding(pre: Seq<u8>) -> bool {
    forall|i: int| 64 <= i < 126 ==> pre[i] == 48
}

/// What a Keccak preimage entry contributes to the map: a 128-byte preimage whose
/// bytes 64..126 are `0` maps the storage key to the address written at 24..64.
pub open spec fn preimage_entry(key: Seq<char>, pre: Seq<char>) -> Option<(Seq<u8>, Seq<u8>)> {
    let kb = encode_utf8(key);
    let pb = encode_utf8(pre);
    if pb.len() == 128 && zero_padding(pb) {
        Some((hex_bytes(kb), hex_bytes(pb.subrange(24, 64))))
    } else {
        None
    }
}

/// An entry that can be read without fault: a 128-byte preimage has character boundaries
/// at 64 and 126, and when its padding is zero both the key and the address are hex.
pub open spec fn preimage_entry_ok(key: Seq<char>, pre: Seq<char>) -> bool {
    let kb = encode_utf8(key);
    let pb = encode_utf8(pre);
    pb.len() == 128 ==> {
        &&& !is_continuation_byte(pb[64])
        &&& !is_continuation_byte(pb[126])
        &&& zero_padding(pb) ==> is_hex_text(kb) && is_hex_text(pb.subrange(24, 64))
    }
}

/// Every entry of the list can be read without fault.
pub open spec fn preimages_ok(s: Seq<(Seq<char>, Seq<char>)>) -> bool {
    forall|i: int| 0 <= i < s.len() ==> #[trigger] preimage_entry_ok(s[i].0, s[i].1)
}

/// The map made from a list of preimage entries, later entries replacing earlier ones.
pub open spec fn keccak_map_of(s: Seq<(Seq<char>, Seq<char>)>) -> Map<Seq<u8>, Seq<u8>>
    decreases s.len(),
{
    if s.len() == 0 {
        Map::empty()
    } else {
        let m = keccak_map_of(s.drop_last());
        match preimage_entry(s.last().0, s.last().1) {
            Some(e) => m.insert(e.0, e.1),
            None => m,
        }
    }
}

/// The storage keys of the call's balance slots and the owner address of each, read from
/// the Keccak preimages of the call.
pub fn addresses_for_storage_keys(call: &Call) -> (r: StorageKeyToAddressMap)
    requires
        preimages_ok(call@.keccak_preimages),
    ensures
        r.wf(),
        r@ == keccak_map_of(call@.keccak_preimages),
{
    let ghost s = call@.keccak_preimages;
    let mut out = StorageKeyToAddressMap::new();
    let mut i: usize = 0;
    while i < call.keccak_preimages.len()
        invariant
            s == string_pairs_view(call.keccak_preimages@),
            preimages_ok(s),
            i <= call.keccak_preimages.len(),
            out.wf(),
            out@ == keccak_map_of(s.subrange(0, i as int)),
        decreases call.keccak_preimages.len() - i,
    {
        let storage_key = call.keccak_preimages[i].0.as_str();
        let preimage = call.keccak_preimages[i].1.as_str();
        let pb = preimage.as_bytes();
        proof {
            assert(s[i as int] == (storage_key@, preimage@));
            assert(s.subrange(0, i + 1).drop_last() =~= s.subrange(0, i as int));
            assert(preimage_entry_ok(s[i as int].0, s[i as int].1));
        }
        if pb.len() == 128 {
            let mut zeros = true;
            let mut j: usize = 64;
            while j < 126
                invariant
                    pb.len() == 128,
                    64 <= j <= 126,
                    zeros == (forall|k: int| 64 <= k < j ==> pb@[k] == 48),
                decreases 126 - j,
            {
                if pb[j] != 48 {
                    zeros = false;
                }
                j += 1;
            }
            if zeros {
                let kb = storage_key.as_bytes();
                let key = match decode(kb) {
                    Ok(v) => v,
                    Err(_) => Vec::new(),
                };
                let address = match decode(vstd::slice::slice_subrange(pb, 24, 64)) {
                    Ok(v) => v,
                    Err(_) => Vec::new(),
                };
                out.insert(key, address);
            }
        }
        i += 1;
    }
    assert(s.subrange(0, call.keccak_preimages.len() as int) =~= s);
    out
}

/// The owner address of a storage change's key, if the map knows the key.
pub fn get_owner_from_keccak_address_map(
    keccak_address_map: &StorageKeyToAddressMap,
    storage_change: &StorageChange,
) -> (r: Option<Vec<u8>>)
    requires
        keccak_address_map.wf(),
    ensures
        r is Some <==> keccak_address_map@.contains_key(storage_change.key@),
        r matches Some(v) ==> v@ == keccak_address_map@[storage_change.key@],
{
    match keccak_address_map.get(storage_change.key.as_slice()) {
        Some(v) => Some(crate::eth::copy_bytes(v)),
        None => None,
    }
}

/// The map of all calls: each call's map laid over those of the calls before it.
pub open spec fn calls_keccak_map(calls: Seq<CallView>) -> Map<Seq<u8>, Seq<u8>>
    decreases calls.len(),
{
    if calls.len() == 0 {
        Map::empty()
    } else {
        calls_keccak_map(calls.drop_last()).union_prefer_right(
            keccak_map_of(calls.last().keccak_preimages),
        )
    }
}

/// The storage key map of a list of calls.
pub fn compute_keccak_address_map(calls: Vec<Call>) -> (r: StorageKeyToAddressMap)
    requires
        forall|i: int| 0 <= i < calls.len() ==> preimages_ok(#[trigger] calls@[i]@.keccak_preimages),
    ensures
        r.wf(),
        r@ == calls_keccak_map(calls_view(calls@)),
{
    let ghost cv = calls_view(calls@);
    let mut keccak_address_map = StorageKeyToAddressMap::new();
    let mut i: usize = 0;
    while i < calls.len()
        invariant
            cv == calls_view(calls@),
            forall|j: int| 0 <= j < calls.len() ==> preimages_ok(#[trigger] calls@[j]@.keccak_preimages),
            i <= calls.len(),
            keccak_address_map.wf(),
            keccak_address_map@ == calls_keccak_map(cv.subrange(0, i as int)),
        decreases calls.len() - i,
    {
        let m = addresses_for_storage_keys(&calls[i]);
        keccak_address_map.extend(m);
        proof {
            assert(cv.subrange(0, i + 1).drop_last() =~= cv.subrange(0, i as int));
        }
        i += 1;
    }
    assert(cv.subrange(0, calls.len() as int) =~= cv);
    keccak_address_map
}

/// Whether `address` is the sender or the receiver of the transfer.
pub fn is_erc20_valid_address(address: &Vec<u8>, transfer: &Transfer) -> (r: bool)
    ensures
        r == (address@ == transfer@.from || address@ == transfer@.to),
{
    crate::keccak_map::bytes_eq(address.as_slice(), transfer.from.as_slice())
        || crate::keccak_map::bytes_eq(address.as_slice(), transfer.to.as_slice())
}

/// The balance change of a storage change (values read as signed big-endian) matches the
/// transfer's value within one unit, both taken in absolute value.
pub open spec fn valid_balance(transfer: TransferView, sc: StorageChangeView) -> bool {
    let change = abs_int(signed_be_value(sc.new_value) - signed_be_value(sc.old_value));
    abs_int(change - abs_int(transfer.value)) <= 1
}

/// Whether the storage change moves the balance by the transfer's value, give or take
/// one wei.
pub fn is_erc20_valid_balance(transfer: &Transfer, storage_change: &StorageChange) -> (r: bool)
    ensures
        r == valid_balance(transfer@, storage_change@),
{
    let old_balance = BigNum::from_signed_bytes_be(storage_change.old_value.as_slice());
    let new_balance = BigNum::from_signed_bytes_be(storage_change.new_value.as_slice());
    let balance_change_abs = absolute(&difference(&new_balance, &old_balance));
    let transfer_value_abs = absolute(&transfer.value);
    let diff = absolute(&difference(&balance_change_abs, &transfer_value_abs));
    let one = from_u64(1);
    if lt(&one, &diff) {
        return false;
    }
    true
}

/// The calls of a list whose parent is the call with index `index`.
pub open spec fn child_calls_of(calls: Seq<CallView>, index: u32) -> Seq<CallView>
    decreases calls.len(),
{
    if calls.len() == 0 {
        Seq::empty()
    } else if calls.last().parent_index == index {
        child_calls_of(calls.drop_last(), index).push(calls.last())
    } else {
        child_calls_of(calls.drop_last(), index)
    }
}

/// The calls of the transaction whose parent is `original`, in order.
pub fn get_all_child_calls(original: &Call, trx: &TransactionTrace) -> (r: Vec<Call>)
    ensures
        calls_view(r@) == child_calls_of(trx@.calls, original.index),
{
    let ghost cv = trx@.calls;
    let mut out: Vec<Call> = Vec::new();
    let mut i: usize = 0;
    while i < trx.calls.len()
        invariant
            cv == calls_view(trx.calls@),
            i <= trx.calls.len(),
            calls_view(out@) == child_calls_of(cv.subrange(0, i as int), original.index),
        decreases trx.calls.len() - i,
    {
        proof {
            assert(cv.subrange(0, i + 1).drop_last() =~= cv.subrange(0, i as int));
        }
        if trx.calls[i].parent_index == original.index {
            let ghost before = out@;
            out.push(trx.calls[i].duplicate());
            proof {
                assert(calls_view(out@) =~= calls_view(before).push(cv[i as int]));
            }
        }
        i += 1;
    }
    assert(cv.subrange(0, trx.calls.len() as int) =~= cv);
    out
}

/// Whether every Keccak preimage entry of the call can be read without fault.
pub fn preimages_readable(call: &Call) -> (r: bool)
    ensures
        r == preimages_ok(call@.keccak_preimages),
{
    let ghost s = call@.keccak_preimages;
    let mut i: usize = 0;
    while i < call.keccak_preimages.len()
        invariant
            s == string_pairs_view(call.keccak_preimages@),
            i <= call.keccak_preimages.len(),
            forall|k: int| 0 <= k < i ==> #[trigger] preimage_entry_ok(s[k].0, s[k].1),
        decreases call.keccak_preimages.len() - i,
    {
        let storage_key = call.keccak_preimages[i].0.as_str();
        let preimage = call.keccak_preimages[i].1.as_str();
        let kb = storage_key.as_bytes();
        let pb = preimage.as_bytes();
        proof {
            assert(s[i as int] == (storage_key@, preimage@));
        }
        if pb.len() == 128 {
            if 0x80 <= pb[64] && pb[64] <= 0xbf {
                assert(!preimage_entry_ok(s[i as int].0, s[i as int].1));
                return false;
            }
            if 0x80 <= pb[126] && pb[126] <= 0xbf {
                assert(!preimage_entry_ok(s[i as int].0, s[i as int].1));
                return false;
            }
            let mut zeros = true;
            let mut j: usize = 64;
            while j < 126
                invariant
                    pb.len() == 128,
                    64 <= j <= 126,
                    zeros == (forall|k: int| 64 <= k < j ==> pb@[k] == 48),
                decreases 126 - j,
            {
                if pb[j] != 48 {
                    zeros = false;
                }
                j += 1;
            }
            if zeros {
                let key_ok = match decode(kb) {
                    Ok(_) => true,
                    Err(_) => false,
                };
                let address_ok = match decode(vstd::slice::slice_subrange(pb, 24, 64)) {
                    Ok(_) => true,
                    Err(_) => false,
                };
                if !key_ok || !address_ok {
                    assert(!preimage_entry_ok(s[i as int].0, s[i as int].1));
                    return false;
                }
            }
        }
        i += 1;
    }
    true
}

/// Versions grow with (block number, index) while block numbers fit in 32 bits: a later
/// block always has the higher version, and within a block a later index does.
pub proof fn lemma_version_order(n1: u64, i1: u32, n2: u64, i2: u32)
    requires
        n1 < 0x1_0000_0000,
        n2 < 0x1_0000_0000,
        n1 < n2 || (n1 == n2 && i1 < i2),
    ensures
        (n1 % 0x1_0000_0000) * 0x1_0000_0000 + i1 < (n2 % 0x1_0000_0000) * 0x1_0000_0000 + i2,
{
    assert(n1 % 0x1_0000_0000 == n1);
    assert(n2 % 0x1_0000_0000 == n2);
    if n1 < n2 {
        assert(n1 * 0x1_0000_0000 + 0x1_0000_0000 <= n2 * 0x1_0000_0000) by (nonlinear_arith)
            requires
                n1 < n2,
        ;
    }
}

} // verus!
