use vstd::prelude::*;
use crate::result::sort_orders;
use crate::util::chars::str_eq;

verus! {

/// Where NULL values go when sorting, by default, in ascending and in
/// descending order.
pub struct DefaultNullOrdering {
    default_asc_nulls: i32,
    default_desc_nulls: i32,
    null_asc: i32,
    null_desc: i32,
}

/// How a NULL compares to other values for a default placement: -1 (before
/// them) for `NULLS_FIRST`, 1 (after them) otherwise.
pub open spec fn null_comparison(default_nulls: i32) -> i32 {
    if default_nulls == sort_orders::NULLS_FIRST {
        -1i32
    } else {
        1i32
    }
}

impl DefaultNullOrdering {
    /// The default placement of NULLs in ascending order.
    pub closed spec fn asc_nulls(&self) -> i32 {
        self.default_asc_nulls
    }

    /// The default placement of NULLs in descending order.
    pub closed spec fn desc_nulls(&self) -> i32 {
        self.default_desc_nulls
    }

    /// How a NULL compares to other values in ascending order.
    pub closed spec fn asc_comparison(&self) -> i32 {
        self.null_asc
    }

    /// How a NULL compares to other values in descending order.
    pub closed spec fn desc_comparison(&self) -> i32 {
        self.null_desc
    }

    /// Whether this is the ordering with the default placements `asc` and
    /// `desc`, with the comparisons that follow from them.
    pub open spec fn is_ordering(&self, asc: i32, desc: i32) -> bool {
        &&& self.asc_nulls() == asc
        &&& self.desc_nulls() == desc
        &&& self.asc_comparison() == null_comparison(asc)
        &&& self.desc_comparison() == null_comparison(desc)
    }

    /// The ordering with the given default placements; the comparisons follow
    /// from them (see `null_comparison`).
    pub fn new(default_asc_nulls: i32, default_desc_nulls: i32) -> (o: DefaultNullOrdering)
        ensures
            o.is_ordering(default_asc_nulls, default_desc_nulls),
    {
        let null_asc: i32 = if default_asc_nulls == sort_orders::NULLS_FIRST {
            -1
        } else {
            1
        };
        let null_desc: i32 = if default_desc_nulls == sort_orders::NULLS_FIRST {
            -1
        } else {
            1
        };
        DefaultNullOrdering { default_asc_nulls, default_desc_nulls, null_asc, null_desc }
    }

    /// The ordering named `name`: `LOW`, `HIGH`, `LAST` or `FIRST`; `None` for
    /// any other name.
    pub fn value_of(name: &str) -> (r: Option<DefaultNullOrdering>)
        ensures
            name@ == "LOW"@ ==> (r matches Some(o) && o.is_ordering(sort_orders::NULLS_FIRST, sort_orders::NULLS_LAST)),
            name@ == "HIGH"@ ==> (r matches Some(o) && o.is_ordering(sort_orders::NULLS_LAST, sort_orders::NULLS_FIRST)),
            name@ == "LAST"@ ==> (r matches Some(o) && o.is_ordering(sort_orders::NULLS_LAST, sort_orders::NULLS_LAST)),
            name@ == "FIRST"@ ==> (r matches Some(o) && o.is_ordering(sort_orders::NULLS_FIRST, sort_orders::NULLS_FIRST)),
            name@ != "LOW"@ && name@ != "HIGH"@ && name@ != "LAST"@ && name@ != "FIRST"@ ==> r is None,
    {
        proof {
            reveal_strlit("LOW");
            reveal_strlit("HIGH");
            reveal_strlit("LAST");
            reveal_strlit("FIRST");
            assert("LOW"@.len() == 3 && "HIGH"@.len() == 4 && "LAST"@.len() == 4 && "FIRST"@.len() == 5);
            assert("HIGH"@[0] != "LAST"@[0]);
        }
        if str_eq(name, "LOW") {
            Some(low())
        } else if str_eq(name, "HIGH") {
            Some(high())
        } else if str_eq(name, "LAST") {
            Some(last())
        } else if str_eq(name, "FIRST") {
            Some(first())
        } else {
            None
        }
    }
}

/// NULL values are considered as smaller than other values during sorting.
pub fn low() -> (o: DefaultNullOrdering)
    ensures
        o.is_ordering(sort_orders::NULLS_FIRST, sort_orders::NULLS_LAST),
{
    DefaultNullOrdering::new(sort_orders::NULLS_FIRST, sort_orders::NULLS_LAST)
}

/// NULL values are considered as larger than other values during sorting.
pub fn high() -> (o: DefaultNullOrdering)
    ensures
        o.is_ordering(sort_orders::NULLS_LAST, sort_orders::NULLS_FIRST),
{
    DefaultNullOrdering::new(sort_orders::NULLS_LAST, sort_orders::NULLS_FIRST)
}

/// NULL values are sorted after other values, no matter if ascending or
/// descending order is used.
pub fn last() -> (o: DefaultNullOrdering)
    ensures
        o.is_ordering(sort_orders::NULLS_LAST, sort_orders::NULLS_LAST),
{
    DefaultNullOrdering::new(sort_orders::NULLS_LAST, sort_orders::NULLS_LAST)
}

/// NULL values are sorted before other values, no matter if ascending or
/// descending order is used.
pub fn first() -> (o: DefaultNullOrdering)
    ensures
        o.is_ordering(sort_orders::NULLS_FIRST, sort_orders::NULLS_FIRST),
{
    DefaultNullOrdering::new(sort_orders::NULLS_FIRST, sort_orders::NULLS_FIRST)
}

} // verus!
