//! Requests and answers about work types.
use crate::calendar::DateTime;
use vstd::prelude::*;

verus! {

#[derive(Debug, Clone)]
pub struct WorkTypeOut {
    pub id: i64,
    pub code: String,
    pub name: String,
    pub description: Option<String>,
    pub sort_order: i32,
    pub max_held_batches: Option<i32>,
    /// The ids of the processes that the work type is mapped to, as text.
    pub process_ids: Vec<String>,
    pub version: i32,
    pub created_at: DateTime,
    pub updated_at: DateTime,
}

#[derive(Debug, Clone)]
pub struct WorkTypeListOut {
    pub items: Vec<WorkTypeOut>,
    pub total: i64,
    pub limit: i64,
    pub offset: i64,
}

#[derive(Debug, Clone)]
pub struct WorkTypeProcessMappingItem {
    pub work_type_id: i64,
    pub process_id: i64,
    pub process_code: String,
    pub sort_order: i32,
}

#[derive(Debug, Clone)]
pub struct WorkTypeProcessMappingOut {
    pub items: Vec<WorkTypeProcessMappingItem>,
}

#[derive(Debug, Clone)]
pub struct WorkTypeCreateRequest {
    pub code: String,
    pub name: String,
    pub description: Option<String>,
    pub sort_order: Option<i32>,
    /// At least one, where it is given; else there is no limit.
    pub max_held_batches: Option<i32>,
}

/// What is absent stays as it is. `Some(None)` clears a part that can be empty. A
/// code is refused, whatever it is.
#[derive(Debug, Clone)]
pub struct WorkTypeUpdateRequest {
    pub code: Option<String>,
    pub name: Option<String>,
    pub description: Option<Option<String>>,
    pub sort_order: Option<i32>,
    pub max_held_batches: Option<Option<i32>>,
}

#[derive(Debug, Clone)]
pub struct WorkTypeListQuery {
    pub code_like: Option<String>,
    pub limit: Option<i64>,
    pub offset: Option<i64>,
}

/// The processes of a work type, in place of those before; none clears them.
#[derive(Debug, Clone)]
pub struct SetWorkTypeProcessesRequest {
    pub items: Vec<SetWorkTypeProcessesItem>,
}

#[derive(Debug, Clone)]
pub struct SetWorkTypeProcessesItem {
    pub process_id: String,
    pub sort_order: i32,
}

} // verus!
