//! Pages of lists.
use vstd::prelude::*;

verus! {

/// The length of a page where none is asked for.
pub const DEFAULT_LIMIT: i64 = 50;

/// The longest page there is.
pub const MAX_LIMIT: i64 = 500;

/// `v` moved into a range.
pub open spec fn clamped(v: i64, lo: i64, hi: i64) -> i64 {
    if v < lo {
        lo
    } else if v > hi {
        hi
    } else {
        v
    }
}

/// The length of the page that is asked for.
pub open spec fn page_limit(limit: Option<i64>) -> i64 {
    clamped(
        match limit {
            Some(l) => l,
            None => DEFAULT_LIMIT,
        },
        1,
        MAX_LIMIT,
    )
}

/// Where the page that is asked for begins.
pub open spec fn page_offset(offset: Option<i64>) -> i64 {
    match offset {
        Some(o) => if o > 0 {
            o
        } else {
            0
        },
        None => 0,
    }
}

/// `v` moved into a range.
pub fn clamp(v: i64, lo: i64, hi: i64) -> (r: i64)
    requires
        lo <= hi,
    ensures
        r == clamped(v, lo, hi),
{
    if v < lo {
        lo
    } else if v > hi {
        hi
    } else {
        v
    }
}

/// The length of the page that is asked for: between one and [`MAX_LIMIT`].
pub fn limit_of(limit: Option<i64>) -> (r: i64)
    ensures
        r == page_limit(limit),
        1 <= r <= MAX_LIMIT,
{
    let wanted: i64 = match limit {
        Some(l) => l,
        None => DEFAULT_LIMIT,
    };
    clamp(wanted, 1, MAX_LIMIT)
}

/// Where the page that is asked for begins: never before the first row.
pub fn offset_of(offset: Option<i64>) -> (r: i64)
    ensures
        r == page_offset(offset),
        r >= 0,
{
    match offset {
        Some(o) => if o > 0 {
            o
        } else {
            0
        },
        None => 0,
    }
}

} // verus!
