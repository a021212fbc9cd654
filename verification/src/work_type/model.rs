//! The stored row of a work type.
use crate::calendar::DateTime;
use crate::text::copy_opt;
use vstd::prelude::*;

verus! {

/// A work type as stored. Without `max_held_batches`, nothing limits how many
/// batches a worker may hold.
#[derive(Debug)]
pub struct TWorkType {
    pub id: i64,
    pub code: String,
    pub name: String,
    pub description: Option<String>,
    pub sort_order: i32,
    pub version: i32,
    pub created_at: DateTime,
    pub created_by: Option<i64>,
    pub updated_at: DateTime,
    pub updated_by: Option<i64>,
    pub deleted_at: Option<DateTime>,
    pub max_held_batches: Option<i32>,
}

impl Clone for TWorkType {
    fn clone(&self) -> (r: Self)
        ensures
            r == *self,
    {
        TWorkType {
            id: self.id,
            code: self.code.clone(),
            name: self.name.clone(),
            description: copy_opt(&self.description),
            sort_order: self.sort_order,
            version: self.version,
            created_at: self.created_at,
            created_by: self.created_by,
            updated_at: self.updated_at,
            updated_by: self.updated_by,
            deleted_at: self.deleted_at,
            max_held_batches: self.max_held_batches,
        }
    }
}

} // verus!
