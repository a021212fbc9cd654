//! Stored rows of shelves.
use crate::calendar::DateTime;
use crate::text::copy_opt;
use vstd::prelude::*;

verus! {

/// A shelf as stored. `zone` is `PRODUCTION` or `INSPECTION`.
#[derive(Debug)]
pub struct TShelf {
    pub id: i64,
    pub code: String,
    pub name: String,
    pub zone: String,
    pub location: Option<String>,
    pub is_active: bool,
    pub display_order: i32,
    pub version: i32,
    pub created_at: DateTime,
    pub created_by: Option<i64>,
    pub updated_at: DateTime,
    pub updated_by: Option<i64>,
    pub deleted_at: Option<DateTime>,
}

impl Clone for TShelf {
    fn clone(&self) -> (r: Self)
        ensures
            r == *self,
    {
        TShelf {
            id: self.id,
            code: self.code.clone(),
            name: self.name.clone(),
            zone: self.zone.clone(),
            location: copy_opt(&self.location),
            is_active: self.is_active,
            display_order: self.display_order,
            version: self.version,
            created_at: self.created_at,
            created_by: self.created_by,
            updated_at: self.updated_at,
            updated_by: self.updated_by,
            deleted_at: self.deleted_at,
        }
    }
}

/// What is read of a shelf to put a batch back on one, with how much is on it.
#[derive(Debug)]
pub struct TShelfWithLoad {
    pub id: i64,
    pub code: String,
    pub name: String,
    pub zone: String,
    pub location: Option<String>,
    pub current_load: i64,
}

impl Clone for TShelfWithLoad {
    fn clone(&self) -> (r: Self)
        ensures
            r == *self,
    {
        TShelfWithLoad {
            id: self.id,
            code: self.code.clone(),
            name: self.name.clone(),
            zone: self.zone.clone(),
            location: copy_opt(&self.location),
            current_load: self.current_load,
        }
    }
}

} // verus!
