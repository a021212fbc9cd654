//! What is written about shelves, and how lists of them are narrowed.
use crate::text::{keep_non_blank, like_pattern, like_pattern_of, non_blank, opt_view};
use vstd::prelude::*;

verus! {

/// A shelf to be stored.
#[derive(Debug, Clone)]
pub struct ShelfInsert {
    pub id: i64,
    pub code: String,
    pub name: String,
    pub zone: String,
    pub location: Option<String>,
    pub display_order: i32,
    pub created_by: i64,
}

/// What of a shelf is changed. An absent name or display order stays as it is;
/// the location is set where its flag says so.
#[derive(Debug, Clone)]
pub struct ShelfPatch {
    pub name: Option<String>,
    pub set_location: bool,
    pub location: Option<String>,
    pub display_order: Option<i32>,
}

/// The conditions on a list of shelves. An absent one does not count.
#[derive(Debug, Clone)]
pub struct ShelfFilter {
    pub zone: Option<String>,
    pub is_active: Option<bool>,
    /// A pattern for the code, with percent signs for anything.
    pub code_pattern: Option<String>,
}

/// The table of shelves.
pub struct ShelfRepo;

impl ShelfRepo {
    /// The conditions that a list of shelves, and its count, are read with. Blank
    /// ones are dropped.
    pub fn list_with_filters(
        code_like: &Option<String>,
        zone: &Option<String>,
        is_active: Option<bool>,
    ) -> (r: ShelfFilter)
        ensures
            opt_view(r.zone) == non_blank(opt_view(*zone)),
            r.is_active == is_active,
            opt_view(r.code_pattern) == like_pattern_of(opt_view(*code_like)),
    {
        ShelfFilter {
            zone: keep_non_blank(zone),
            is_active,
            code_pattern: like_pattern(code_like),
        }
    }
}

} // verus!
