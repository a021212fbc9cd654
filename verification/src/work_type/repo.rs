//! What is written about work types, and how lists of them are narrowed.
use crate::text::{like_pattern, like_pattern_of, opt_view};
use vstd::prelude::*;

verus! {

/// A work type to be stored.
#[derive(Debug, Clone)]
pub struct WorkTypeInsert {
    pub id: i64,
    pub code: String,
    pub name: String,
    pub description: Option<String>,
    pub sort_order: i32,
    pub max_held_batches: Option<i32>,
    pub created_by: i64,
}

/// What of a work type is changed. An absent name or sort order stays as it is;
/// the others are set where their flag says so.
#[derive(Debug, Clone)]
pub struct WorkTypePatch {
    pub name: Option<String>,
    pub set_description: bool,
    pub description: Option<String>,
    pub sort_order: Option<i32>,
    pub set_max_held_batches: bool,
    pub max_held_batches: Option<i32>,
}

/// The table of work types.
pub struct WorkTypeRepo;

impl WorkTypeRepo {
    /// The pattern for the code that a list of work types, and its count, are
    /// read with; none for a blank text.
    pub fn list_with_filters(code_like: &Option<String>) -> (r: Option<String>)
        ensures
            opt_view(r) == like_pattern_of(opt_view(*code_like)),
    {
        like_pattern(code_like)
    }
}

} // verus!
