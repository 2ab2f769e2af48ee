//! The typed content of an array element.
use crate::pb::entity::{BigDecimal, BigInt};
use vstd::prelude::*;

verus! {

/// The content of an array element, by type.
#[derive(Clone, Debug)]
pub enum Typed {
    String(String),
    Int64(i64),
    /// An IEEE-754 double, held by its bit pattern.
    Float64(u64),
    Bytes(Vec<u8>),
    Bool(bool),
    Bigint(BigInt),
    Bigdecimal(BigDecimal),
}

} // verus!
