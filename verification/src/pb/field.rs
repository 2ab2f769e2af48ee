//! The typed value of an entity field.
use crate::pb::entity::{Array, BigDecimal, BigInt};
use vstd::prelude::*;

verus! {

/// The value of a field, by type.
#[derive(Clone, Debug)]
pub enum TypedValue {
    StringValue(String),
    Int64Value(i64),
    /// An IEEE-754 double, held by its bit pattern.
    Float64Value(u64),
    BytesValue(Vec<u8>),
    BoolValue(bool),
    BigintValue(BigInt),
    BigdecimalValue(BigDecimal),
    ArrayValue(Array),
}

} // verus!
