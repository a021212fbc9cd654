//! Requests and answers about shelves.
use crate::calendar::DateTime;
use vstd::prelude::*;

verus! {

#[derive(Debug, Clone)]
pub struct ShelfCreateRequest {
    pub code: String,
    pub name: String,
    pub zone: String,
    pub location: Option<String>,
    pub display_order: Option<i32>,
}

/// What is absent stays as it is. `Some(None)` clears the location.
#[derive(Debug, Clone)]
pub struct ShelfUpdateRequest {
    pub name: Option<String>,
    pub location: Option<Option<String>>,
    pub display_order: Option<i32>,
}

#[derive(Debug, Clone)]
pub struct ShelfListQuery {
    pub code_like: Option<String>,
    pub zone: Option<String>,
    pub is_active: Option<bool>,
    pub limit: Option<i64>,
    pub offset: Option<i64>,
}

/// Which process a batch that is put back waits for.
#[derive(Debug, Clone)]
pub struct ShelfForReturnQuery {
    pub next_process_id: Option<String>,
}

/// The processes of a shelf, in place of those before; none clears them.
#[derive(Debug, Clone)]
pub struct SetShelfProcessesRequest {
    pub items: Vec<SetShelfProcessesItem>,
}

#[derive(Debug, Clone)]
pub struct SetShelfProcessesItem {
    pub process_id: String,
    pub sort_order: i32,
}

#[derive(Debug, Clone)]
pub struct ShelfOut {
    pub id: i64,
    pub code: String,
    pub name: String,
    pub zone: String,
    pub location: Option<String>,
    pub is_active: bool,
    pub display_order: i32,
    /// How many shelf accounts are bound to the shelf.
    pub account_count: i64,
    pub version: i32,
    pub created_at: DateTime,
    pub updated_at: DateTime,
}

#[derive(Debug, Clone)]
pub struct ShelfListOut {
    pub items: Vec<ShelfOut>,
    pub total: i64,
    pub limit: i64,
    pub offset: i64,
}

#[derive(Debug, Clone)]
pub struct ShelfForReturnItem {
    pub id: i64,
    pub code: String,
    pub name: String,
    pub zone: String,
    pub location: Option<String>,
    pub current_load: i64,
    /// The emptiest shelf of the list.
    pub is_recommended: bool,
}

#[derive(Debug, Clone)]
pub struct ShelfForReturnOut {
    pub items: Vec<ShelfForReturnItem>,
}

#[derive(Debug, Clone)]
pub struct ShelfForInspectionItem {
    pub id: i64,
    pub code: String,
    pub name: String,
    pub zone: String,
    pub location: Option<String>,
    pub is_active: bool,
}

#[derive(Debug, Clone)]
pub struct ShelfForInspectionOut {
    pub items: Vec<ShelfForInspectionItem>,
}

#[derive(Debug, Clone)]
pub struct ShelfProcessMappingItem {
    pub shelf_id: i64,
    pub shelf_code: String,
    pub process_id: i64,
    pub process_code: String,
    pub sort_order: i32,
}

#[derive(Debug, Clone)]
pub struct ShelfProcessMappingOut {
    pub items: Vec<ShelfProcessMappingItem>,
}

#[derive(Debug, Clone)]
pub struct AllShelfProcessMappingItem {
    pub shelf_id: i64,
    pub shelf_code: String,
    pub process_id: i64,
    pub process_code: String,
}

#[derive(Debug, Clone)]
pub struct AllShelfProcessMappingOut {
    pub items: Vec<AllShelfProcessMappingItem>,
}

} // verus!
