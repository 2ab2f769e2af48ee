//! Entity-change messages.
use crate::pb::field::TypedValue;
use crate::pb::value::Typed;
use crate::text::str_eq;
use vstd::prelude::*;

verus! {

/// A list of entity changes.
#[derive(Clone, Debug)]
pub struct EntityChanges {
    pub entity_changes: Vec<EntityChange>,
}

/// A change of one entity.
#[derive(Clone, Debug)]
pub struct EntityChange {
    pub entity: String,
    pub id: String,
    pub ordinal: u64,
    /// Protobuf number of the `Operation`.
    pub operation: i32,
    pub fields: Vec<Field>,
}

/// A named field of an entity.
#[derive(Clone, Debug)]
pub struct Field {
    pub name: String,
    pub typed_value: Option<TypedValue>,
}

/// An arbitrary-precision integer, as text bytes.
#[derive(Clone, Debug)]
pub struct BigInt {
    pub value: Vec<u8>,
}

/// An arbitrary-precision decimal, as text bytes.
#[derive(Clone, Debug)]
pub struct BigDecimal {
    pub value: Vec<u8>,
}

/// A list of values.
#[derive(Clone, Debug)]
pub struct Array {
    pub values: Vec<Value>,
}

/// A typed value.
#[derive(Clone, Debug)]
pub struct Value {
    pub typed: Option<Typed>,
}

/// What is done to an entity.
#[derive(Clone, Copy, Debug, PartialEq, Eq, Structural)]
pub enum Operation {
    Unspecified,
    Create,
    Update,
    Delete,
}

impl Operation {
    /// Name of the variant in the protobuf definition.
    pub open spec fn name(self) -> Seq<char> {
        match self {
            Operation::Unspecified => "OPERATION_UNSPECIFIED"@,
            Operation::Create => "OPERATION_CREATE"@,
            Operation::Update => "OPERATION_UPDATE"@,
            Operation::Delete => "OPERATION_DELETE"@,
        }
    }

    /// The variant of a protobuf name.
    pub open spec fn of_name(s: Seq<char>) -> Option<Operation> {
        if s == "OPERATION_UNSPECIFIED"@ {
            Some(Operation::Unspecified)
        } else if s == "OPERATION_CREATE"@ {
            Some(Operation::Create)
        } else if s == "OPERATION_UPDATE"@ {
            Some(Operation::Update)
        } else if s == "OPERATION_DELETE"@ {
            Some(Operation::Delete)
        } else {
            None
        }
    }

    /// String value of the enum field names used in the ProtoBuf definition.
    pub fn as_str_name(&self) -> (r: &'static str)
        ensures
            r@ == self.name(),
    {
        match self {
            Operation::Unspecified => "OPERATION_UNSPECIFIED",
            Operation::Create => "OPERATION_CREATE",
            Operation::Update => "OPERATION_UPDATE",
            Operation::Delete => "OPERATION_DELETE",
        }
    }

    /// Creates an enum from field names used in the ProtoBuf definition.
    pub fn from_str_name(value: &str) -> (r: Option<Operation>)
        ensures
            r == Operation::of_name(value@),
    {
        if str_eq(value, "OPERATION_UNSPECIFIED") {
            Some(Operation::Unspecified)
        } else if str_eq(value, "OPERATION_CREATE") {
            Some(Operation::Create)
        } else if str_eq(value, "OPERATION_UPDATE") {
            Some(Operation::Update)
        } else if str_eq(value, "OPERATION_DELETE") {
            Some(Operation::Delete)
        } else {
            None
        }
    }
}

/// Reading back the name of an operation gives the operation, and a name that reads as an
/// operation is that operation's name.
pub proof fn lemma_operation_names(o: Operation, s: Seq<char>)
    ensures
        Operation::of_name(o.name()) == Some(o),
        Operation::of_name(s) matches Some(u) ==> u.name() == s,
{
    reveal_strlit("OPERATION_UNSPECIFIED");
    reveal_strlit("OPERATION_CREATE");
    reveal_strlit("OPERATION_UPDATE");
    reveal_strlit("OPERATION_DELETE");
    assert("OPERATION_UNSPECIFIED"@.len() != "OPERATION_CREATE"@.len());
    assert("OPERATION_UNSPECIFIED"@.len() != "OPERATION_UPDATE"@.len());
    assert("OPERATION_UNSPECIFIED"@.len() != "OPERATION_DELETE"@.len());
    assert("OPERATION_CREATE"@ != "OPERATION_UPDATE"@) by {
        assert("OPERATION_CREATE"@[10] != "OPERATION_UPDATE"@[10]);
    }
    assert("OPERATION_CREATE"@ != "OPERATION_DELETE"@) by {
        assert("OPERATION_CREATE"@[10] != "OPERATION_DELETE"@[10]);
    }
    assert("OPERATION_UPDATE"@ != "OPERATION_DELETE"@) by {
        assert("OPERATION_UPDATE"@[10] != "OPERATION_DELETE"@[10]);
    }
}

} // verus!
