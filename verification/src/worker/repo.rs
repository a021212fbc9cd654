//! What is written about workers.
use crate::text::{like_pattern, like_pattern_of, opt_view};
use vstd::prelude::*;

verus! {

/// A worker to be stored.
#[derive(Debug, Clone)]
pub struct WorkerInsert {
    pub id: i64,
    pub badge_code: String,
    pub name: String,
    pub id_card_no: Option<String>,
    pub phone: Option<String>,
    pub work_type_id: Option<i64>,
    pub created_by: i64,
}

/// What of a worker is changed. An absent name or badge stays as it is; the
/// others are set where their flag says so.
#[derive(Debug, Clone)]
pub struct WorkerPatch {
    pub name: Option<String>,
    pub badge_code: Option<String>,
    pub set_id_card_no: bool,
    pub id_card_no: Option<String>,
    pub set_phone: bool,
    pub phone: Option<String>,
    pub set_work_type_id: bool,
    pub work_type_id: Option<i64>,
}

/// The conditions on a list of workers. An absent one does not count.
#[derive(Debug, Clone)]
pub struct WorkerFilter {
    pub is_active: Option<bool>,
    /// A pattern for the name, with percent signs for anything.
    pub name_pattern: Option<String>,
}

/// The table of workers.
pub struct WorkerRepo;

impl WorkerRepo {
    /// The conditions that a list of workers, and its count, are read with. A
    /// blank name is dropped.
    pub fn list_with_filters(name_like: &Option<String>, is_active: Option<bool>) -> (r:
        WorkerFilter)
        ensures
            r.is_active == is_active,
            opt_view(r.name_pattern) == like_pattern_of(opt_view(*name_like)),
    {
        WorkerFilter { is_active, name_pattern: like_pattern(name_like) }
    }
}

} // verus!
