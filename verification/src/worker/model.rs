//! The stored row of a worker.
use crate::calendar::DateTime;
use crate::text::copy_opt;
use vstd::prelude::*;

verus! {

/// A worker as stored.
#[derive(Debug)]
pub struct TWorker {
    pub id: i64,
    pub badge_code: String,
    pub name: String,
    pub id_card_no: Option<String>,
    pub phone: Option<String>,
    pub is_active: bool,
    pub work_type_id: Option<i64>,
    pub version: i32,
    pub created_at: DateTime,
    pub created_by: Option<i64>,
    pub updated_at: DateTime,
    pub updated_by: Option<i64>,
    pub deleted_at: Option<DateTime>,
}

impl Clone for TWorker {
    fn clone(&self) -> (r: Self)
        ensures
            r == *self,
    {
        TWorker {
            id: self.id,
            badge_code: self.badge_code.clone(),
            name: self.name.clone(),
            id_card_no: copy_opt(&self.id_card_no),
            phone: copy_opt(&self.phone),
            is_active: self.is_active,
            work_type_id: self.work_type_id,
            version: self.version,
            created_at: self.created_at,
            created_by: self.created_by,
            updated_at: self.updated_at,
            updated_by: self.updated_by,
            deleted_at: self.deleted_at,
        }
    }
}

} // verus!
