use vstd::prelude::*;

verus! {

/// This bit mask means the values should be sorted in ascending order.
pub const ASCENDING: i32 = 0;

/// This bit mask means the values should be sorted in descending order.
pub const DESCENDING: i32 = 1;

/// This bit mask means NULLs should be sorted before other data, no matter
/// if ascending or descending order is used.
pub const NULLS_FIRST: i32 = 2;

/// This bit mask means NULLs should be sorted after other data, no matter
/// if ascending or descending order is used.
pub const NULLS_LAST: i32 = 4;

/// The sort order of the columns of a result.
pub struct SortOrder {}

} // verus!
