//! Requests and answers about workers.
use crate::calendar::DateTime;
use crate::text::copy_opt;
use vstd::prelude::*;

verus! {

/// A worker as the client gets it.
#[derive(Debug)]
pub struct WorkerOut {
    pub id: i64,
    pub badge_code: String,
    pub name: String,
    pub id_card_no: Option<String>,
    pub phone: Option<String>,
    pub is_active: bool,
    pub work_type_id: Option<String>,
    pub work_type_name: Option<String>,
    pub version: i32,
    pub created_at: DateTime,
    pub updated_at: DateTime,
}

impl Clone for WorkerOut {
    fn clone(&self) -> (r: Self)
        ensures
            r == *self,
    {
        WorkerOut {
            id: self.id,
            badge_code: self.badge_code.clone(),
            name: self.name.clone(),
            id_card_no: copy_opt(&self.id_card_no),
            phone: copy_opt(&self.phone),
            is_active: self.is_active,
            work_type_id: copy_opt(&self.work_type_id),
            work_type_name: copy_opt(&self.work_type_name),
            version: self.version,
            created_at: self.created_at,
            updated_at: self.updated_at,
        }
    }
}

#[derive(Debug, Clone)]
pub struct WorkerListOut {
    pub items: Vec<WorkerOut>,
    pub total: i64,
    pub limit: i64,
    pub offset: i64,
}

#[derive(Debug, Clone)]
pub struct VerifyBadgeRequest {
    pub badge_code: String,
}

#[derive(Debug, Clone)]
pub struct WorkerListQuery {
    pub name_like: Option<String>,
    pub is_active: Option<bool>,
    pub limit: Option<i64>,
    pub offset: Option<i64>,
}

#[derive(Debug, Clone)]
pub struct WorkerCreateRequest {
    pub badge_code: String,
    pub name: String,
    pub id_card_no: Option<String>,
    pub phone: Option<String>,
    pub work_type_id: Option<String>,
}

/// What is absent stays as it is. `Some(None)` clears a part that can be empty.
#[derive(Debug, Clone)]
pub struct WorkerUpdateRequest {
    pub name: Option<String>,
    pub badge_code: Option<String>,
    pub id_card_no: Option<Option<String>>,
    pub phone: Option<Option<String>>,
    pub work_type_id: Option<Option<String>>,
}

} // verus!
