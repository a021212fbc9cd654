//! Requests and answers of the pool.
use super::model::TakenItem;
use crate::calendar::Date;
use crate::text::copy_opt;
use vstd::prelude::*;

verus! {

/// What a worker scans a batch for.
#[derive(Debug, Clone, Copy, PartialEq, Eq, Structural)]
pub enum WorkerScanEvent {
    RETURNED,
    INSPECTED,
}

/// Fill a worker up from a shelf.
#[derive(Debug, Clone, Copy, PartialEq, Eq, Structural)]
pub struct AdminRefillRequest {
    pub worker_id: i64,
    pub shelf_id: i64,
}

/// Put a batch that a worker holds back on a shelf, for a process.
#[derive(Debug, Clone, Copy, PartialEq, Eq, Structural)]
pub struct AdminRemoveRequest {
    pub worker_id: i64,
    pub batch_id: i64,
    pub shelf_id: i64,
    pub next_process_id: i64,
}

/// Whose state, and on which shelf.
#[derive(Debug, Clone, Copy, PartialEq, Eq, Structural)]
pub struct StateQuery {
    pub worker_id: i64,
    pub shelf_id: i64,
}

/// A batch that waits for a process.
#[derive(Debug)]
pub struct PoolBatchItem {
    pub batch_id: i64,
    pub part_id: i64,
    pub batch_no: i32,
    pub quantity: i32,
    pub serial_no: Option<String>,
    pub name: String,
    pub drawing_no: String,
    pub system_delivery_date: Option<Date>,
    pub customer_name: Option<String>,
    pub parent_customer_name: Option<String>,
    /// The customer below its group, or the customer alone.
    pub customer_path: Option<String>,
    pub applicant_name: Option<String>,
    pub location: String,
    pub shelf_id: i64,
    pub shelf_code: String,
    pub shelf_name: String,
    pub is_urgent: bool,
    pub note: Option<String>,
    pub version: i32,
}

impl Clone for PoolBatchItem {
    fn clone(&self) -> (r: Self)
        ensures
            r == *self,
    {
        PoolBatchItem {
            batch_id: self.batch_id,
            part_id: self.part_id,
            batch_no: self.batch_no,
            quantity: self.quantity,
            serial_no: copy_opt(&self.serial_no),
            name: self.name.clone(),
            drawing_no: self.drawing_no.clone(),
            system_delivery_date: self.system_delivery_date,
            customer_name: copy_opt(&self.customer_name),
            parent_customer_name: copy_opt(&self.parent_customer_name),
            customer_path: copy_opt(&self.customer_path),
            applicant_name: copy_opt(&self.applicant_name),
            location: self.location.clone(),
            shelf_id: self.shelf_id,
            shelf_code: self.shelf_code.clone(),
            shelf_name: self.shelf_name.clone(),
            is_urgent: self.is_urgent,
            note: copy_opt(&self.note),
            version: self.version,
        }
    }
}

/// A worker that can carry out a process.
#[derive(Debug)]
pub struct WorkerBrief {
    pub worker_id: i64,
    pub name: String,
    pub work_type_id: i64,
    pub work_type_code: String,
}

impl Clone for WorkerBrief {
    fn clone(&self) -> (r: Self)
        ensures
            r == *self,
    {
        WorkerBrief {
            worker_id: self.worker_id,
            name: self.name.clone(),
            work_type_id: self.work_type_id,
            work_type_code: self.work_type_code.clone(),
        }
    }
}

/// A work type that is mapped to a process, and how much its workers may hold.
#[derive(Debug)]
pub struct WorkTypeMaxHeld {
    pub work_type_id: i64,
    pub work_type_code: String,
    pub work_type_name: String,
    pub max_held_batches: Option<i32>,
}

impl Clone for WorkTypeMaxHeld {
    fn clone(&self) -> (r: Self)
        ensures
            r == *self,
    {
        WorkTypeMaxHeld {
            work_type_id: self.work_type_id,
            work_type_code: self.work_type_code.clone(),
            work_type_name: self.work_type_name.clone(),
            max_held_batches: self.max_held_batches,
        }
    }
}

/// Everything that waits for a process, and who could take it.
#[derive(Debug, Clone)]
pub struct ProcessPoolDetail {
    pub process_id: i64,
    pub process_code: String,
    pub process_name: String,
    pub workers: Vec<WorkerBrief>,
    pub work_types: Vec<WorkTypeMaxHeld>,
    pub total: i64,
    pub items: Vec<PoolBatchItem>,
}

/// How workers are filled up: by the number of batches, against the limit on
/// batches of their work type, or by the estimated minutes of the batches,
/// against the limit on minutes.
#[derive(Debug, Clone, Copy, PartialEq, Eq, Structural)]
pub enum AutoAllocateMode {
    Count,
    Time,
}

/// Fill up all workers of a process from a shelf, to a share of their limit. The
/// share is a number of the caller's choosing; it is handed back as it came.
#[derive(Debug, Clone, Copy)]
pub struct AutoAllocateRequest<R> {
    pub process_id: i64,
    pub shelf_id: i64,
    pub mode: AutoAllocateMode,
    pub fill_ratio: R,
}

/// What an automatic allocation did for one worker. `target` and `filled_count`
/// are batches where workers are filled up by number, and minutes where they are
/// filled up by time.
#[derive(Debug, Clone)]
pub struct WorkerFillItem {
    pub worker_id: i64,
    pub target: i32,
    pub filled_count: i32,
    pub skipped_reason: Option<String>,
}

/// What an automatic allocation did.
#[derive(Debug, Clone)]
pub struct AutoAllocateResult<R> {
    pub process_id: i64,
    pub shelf_id: i64,
    pub mode: AutoAllocateMode,
    pub fill_ratio: R,
    pub filled: Vec<WorkerFillItem>,
    pub pool_empty: bool,
}

/// Give one batch of a shelf to a worker, where it waits for the process, if one
/// is named.
#[derive(Debug, Clone, Copy, PartialEq, Eq, Structural)]
pub struct AdminAssignRequest {
    pub worker_id: i64,
    pub batch_id: i64,
    pub shelf_id: i64,
    pub process_id: Option<i64>,
}

/// The batch that a worker got, and how much the worker holds now.
#[derive(Debug, Clone)]
pub struct AssignResult {
    pub worker_id: i64,
    pub batch_id: i64,
    pub shelf_id: i64,
    pub taken: TakenItem,
    pub current_held: i32,
    pub max_held: i32,
}

} // verus!
