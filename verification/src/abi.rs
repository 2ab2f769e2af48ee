//! The ERC-20 `Transfer(address indexed from, address indexed to, uint256 value)` event
//! and its decoding from a log, as the contract ABI lays it out.
use crate::bignum::{be_value, from_unsigned_bytes_be, BigNum};
use crate::eth::{copy_bytes, Log, LogView};
use vstd::prelude::*;

verus! {

/// Contents of a decoded transfer.
pub struct TransferView {
    pub from: Seq<u8>,
    pub to: Seq<u8>,
    pub value: int,
}

/// A decoded ERC-20 `Transfer` event.
#[derive(Clone, Debug)]
pub struct Transfer {
    pub from: Vec<u8>,
    pub to: Vec<u8>,
    pub value: BigNum,
}

impl View for Transfer {
    type V = TransferView;

    open spec fn view(&self) -> TransferView {
        TransferView { from: self.from@, to: self.to@, value: self.value@ }
    }
}

impl Transfer {
    /// A copy with the same contents.
    pub fn duplicate(&self) -> (r: Transfer)
        ensures
            r@ == self@,
    {
        Transfer {
            from: copy_bytes(&self.from),
            to: copy_bytes(&self.to),
            value: self.value.duplicate(),
        }
    }
}

/// Keccak-256 of `Transfer(address,address,uint256)`, the first topic of the event.
pub open spec fn transfer_topic() -> Seq<u8> {
    seq![
        221u8, 242u8, 82u8, 173u8, 27u8, 226u8, 200u8, 155u8,
        105u8, 194u8, 176u8, 104u8, 252u8, 55u8, 141u8, 170u8,
        149u8, 43u8, 167u8, 241u8, 99u8, 196u8, 161u8, 22u8,
        40u8, 245u8, 90u8, 77u8, 245u8, 35u8, 179u8, 239u8,
    ]
}

/// The transfer a log holds, if it is one: three topics, the first of them the event's
/// signature, 32 bytes of data; each address is bytes 12..32 of its topic (which must hold
/// at least 32 bytes) and the value is the data as an unsigned big-endian integer.
pub open spec fn decode_transfer(log: LogView) -> Option<TransferView> {
    if log.topics.len() == 3 && log.data.len() == 32 && log.topics[0] == transfer_topic()
        && log.topics[1].len() >= 32 && log.topics[2].len() >= 32 {
        Some(
            TransferView {
                from: log.topics[1].subrange(12, 32),
                to: log.topics[2].subrange(12, 32),
                value: be_value(log.data) as int,
            },
        )
    } else {
        None
    }
}

/// Whether `t` is the `Transfer` event signature.
fn is_transfer_topic(t: &Vec<u8>) -> (r: bool)
    ensures
        r == (t@ == transfer_topic()),
{
    let r = t.len() == 32 && t[0] == 221 && t[1] == 242 && t[2] == 82 && t[3] == 173 && t[4] == 27
        && t[5] == 226 && t[6] == 200 && t[7] == 155 && t[8] == 105 && t[9] == 194 && t[10] == 176
        && t[11] == 104 && t[12] == 252 && t[13] == 55 && t[14] == 141 && t[15] == 170 && t[16]
        == 149 && t[17] == 43 && t[18] == 167 && t[19] == 241 && t[20] == 99 && t[21] == 196
        && t[22] == 161 && t[23] == 22 && t[24] == 40 && t[25] == 245 && t[26] == 90 && t[27] == 77
        && t[28] == 245 && t[29] == 35 && t[30] == 179 && t[31] == 239;
    if r {
        assert(t@ =~= transfer_topic());
    } else if t.len() == 32 {
        assert(t@ != transfer_topic()) by {
            if t@ == transfer_topic() {
                assert(t@[0] == transfer_topic()[0]);
            }
        }
    }
    r
}

/// Bytes `from..to` of `v`.
fn copy_range(v: &Vec<u8>, from: usize, to: usize) -> (r: Vec<u8>)
    requires
        from <= to <= v.len(),
    ensures
        r@ == v@.subrange(from as int, to as int),
{
    let mut r: Vec<u8> = Vec::new();
    let mut i: usize = from;
    while i < to
        invariant
            from <= i <= to <= v.len(),
            r@ == v@.subrange(from as int, i as int),
        decreases to - i,
    {
        r.push(v[i]);
        i += 1;
        assert(r@ =~= v@.subrange(from as int, i as int));
    }
    r
}

impl Transfer {
    /// Decodes a log into a transfer when it is one.
    pub fn match_and_decode(log: &Log) -> (r: Option<Transfer>)
        ensures
            match (r, decode_transfer(log@)) {
                (Some(t), Some(v)) => t@ == v,
                (None, None) => true,
                _ => false,
            },
    {
        if log.topics.len() != 3 || log.data.len() != 32 {
            return None;
        }
        if !is_transfer_topic(&log.topics[0]) {
            return None;
        }
        if log.topics[1].len() < 32 || log.topics[2].len() < 32 {
            return None;
        }
        let from = copy_range(&log.topics[1], 12, 32);
        let to = copy_range(&log.topics[2], 12, 32);
        let value = from_unsigned_bytes_be(log.data.as_slice());
        Some(Transfer { from, to, value })
    }
}

} // verus!
