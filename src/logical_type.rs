use vstd::prelude::*;

verus! {

/// The type of a column or value as the binder and the logical operators see it.
#[derive(Debug, Clone, Copy, PartialEq, Eq, Structural)]
pub enum LogicalType {
    Invalid,
    Boolean,
    Tinyint,
    UTinyint,
    Smallint,
    USmallint,
    Integer,
    UInteger,
    Bigint,
    UBigint,
    Varchar,
}

} // verus!
