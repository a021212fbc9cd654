//! What the pool tells of batches, workers and counts.
use crate::calendar::Date;
use crate::text::copy_opt;
use vstd::prelude::*;

verus! {

/// A batch that changed hands.
#[derive(Debug)]
pub struct TakenItem {
    pub batch_id: i64,
    pub part_id: i64,
    pub batch_no: i32,
    pub quantity: i32,
    pub serial_no: Option<String>,
    pub drawing_no: String,
    pub system_delivery_date: Option<Date>,
    pub planned_delivery_date: Option<Date>,
    pub is_urgent: bool,
    pub version: i32,
}

impl Clone for TakenItem {
    fn clone(&self) -> (r: Self)
        ensures
            r == *self,
    {
        TakenItem {
            batch_id: self.batch_id,
            part_id: self.part_id,
            batch_no: self.batch_no,
            quantity: self.quantity,
            serial_no: copy_opt(&self.serial_no),
            drawing_no: self.drawing_no.clone(),
            system_delivery_date: self.system_delivery_date,
            planned_delivery_date: self.planned_delivery_date,
            is_urgent: self.is_urgent,
            version: self.version,
        }
    }
}

/// A batch that a worker holds, with what is shown of its part.
#[derive(Debug)]
pub struct HeldBatchItem {
    pub batch_id: i64,
    pub part_id: i64,
    pub batch_no: i32,
    pub quantity: i32,
    pub serial_no: Option<String>,
    pub drawing_no: String,
    pub name: String,
    pub system_delivery_date: Option<Date>,
    pub planned_delivery_date: Option<Date>,
    pub is_urgent: bool,
    pub customer_name: Option<String>,
    pub parent_customer_name: Option<String>,
    pub applicant_name: Option<String>,
    pub location: String,
    pub shelf_code: Option<String>,
    pub note: Option<String>,
    pub version: i32,
}

impl Clone for HeldBatchItem {
    fn clone(&self) -> (r: Self)
        ensures
            r == *self,
    {
        HeldBatchItem {
            batch_id: self.batch_id,
            part_id: self.part_id,
            batch_no: self.batch_no,
            quantity: self.quantity,
            serial_no: copy_opt(&self.serial_no),
            drawing_no: self.drawing_no.clone(),
            name: self.name.clone(),
            system_delivery_date: self.system_delivery_date,
            planned_delivery_date: self.planned_delivery_date,
            is_urgent: self.is_urgent,
            customer_name: copy_opt(&self.customer_name),
            parent_customer_name: copy_opt(&self.parent_customer_name),
            applicant_name: copy_opt(&self.applicant_name),
            location: self.location.clone(),
            shelf_code: copy_opt(&self.shelf_code),
            note: copy_opt(&self.note),
            version: self.version,
        }
    }
}

/// What a refill got for a worker.
#[derive(Debug, Clone)]
pub struct RefillResult {
    pub worker_id: i64,
    pub shelf_id: i64,
    pub taken: Vec<TakenItem>,
    pub pool_empty: bool,
}

/// How many batches wait for a process.
#[derive(Debug, Clone, Copy, PartialEq, Eq, Structural)]
pub struct ProcessPoolCount {
    pub process_id: i64,
    pub pool_count: i64,
}

/// What a worker holds and could still take.
#[derive(Debug, Clone)]
pub struct WorkerPoolState {
    pub worker_id: i64,
    pub worker_name: String,
    pub work_type_code: String,
    pub max_held: i32,
    pub current_held: i64,
    pub capacity_remaining: i32,
    pub pool_count_by_process: Vec<ProcessPoolCount>,
    pub held_batches: Vec<HeldBatchItem>,
}

/// A batch in process that a worker holds, as stored.
#[derive(Debug, Clone, Copy, PartialEq, Eq, Structural)]
pub struct HeldBatchRow {
    pub id: i64,
    pub part_id: i64,
    pub batch_no: i32,
    pub quantity: i32,
    pub version: i32,
}

/// What the pool reads of a part.
#[derive(Debug)]
pub struct PartRow {
    pub id: i64,
    pub serial_no: Option<String>,
    pub drawing_no: String,
    pub system_delivery_date: Option<Date>,
    pub planned_delivery_date: Date,
    pub is_urgent: bool,
}

impl Clone for PartRow {
    fn clone(&self) -> (r: Self)
        ensures
            r == *self,
    {
        PartRow {
            id: self.id,
            serial_no: copy_opt(&self.serial_no),
            drawing_no: self.drawing_no.clone(),
            system_delivery_date: self.system_delivery_date,
            planned_delivery_date: self.planned_delivery_date,
            is_urgent: self.is_urgent,
        }
    }
}

/// What the pool reads of a process.
#[derive(Debug)]
pub struct ProcessRow {
    pub id: i64,
    pub code: String,
    pub name: String,
}

impl Clone for ProcessRow {
    fn clone(&self) -> (r: Self)
        ensures
            r == *self,
    {
        ProcessRow {
            id: self.id,
            code: self.code.clone(),
            name: self.name.clone(),
        }
    }
}

/// An entry of a part's history.
#[derive(Debug, Clone)]
pub struct NewPartEvent {
    pub part_id: i64,
    pub event_type: &'static str,
    pub from_status: Option<&'static str>,
    pub to_status: Option<&'static str>,
    pub batch_id: Option<i64>,
    pub quantity: Option<i32>,
    pub drawing_code: Option<String>,
    pub badge_code: Option<String>,
    pub note: Option<&'static str>,
    pub created_by: Option<i64>,
}

} // verus!
