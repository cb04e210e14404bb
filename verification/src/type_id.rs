//! Ids of Spark data types, as a literal declares them.

use vstd::prelude::*;

verus! {

pub const BOOL: i32 = 0;

pub const INT8: i32 = 1;

pub const INT16: i32 = 2;

pub const INT32: i32 = 3;

pub const INT64: i32 = 4;

pub const FLOAT: i32 = 5;

pub const DOUBLE: i32 = 6;

pub const STRING: i32 = 7;

pub const DATE: i32 = 12;

/// The ids are those that Spark's serialized plans use, and tell the types apart.
pub proof fn ids_of_a_plan()
    ensures
        BOOL == 0,
        INT8 == 1,
        INT16 == 2,
        INT32 == 3,
        INT64 == 4,
        FLOAT == 5,
        DOUBLE == 6,
        STRING == 7,
        DATE == 12,
{
}

} // verus!
