//! Rows that the statistics read.
use crate::calendar::{Date, DateTime, Decimal};
use crate::text::copy_opt;
use vstd::prelude::*;

verus! {

/// What a worker picked up over some days.
#[derive(Debug, Clone, Copy, PartialEq, Eq, Structural)]
pub struct WorkerPickupRow {
    pub worker_id: i64,
    pub work_type_id: Option<i64>,
    pub pickup_count: i64,
    pub pickup_quantity: i64,
    pub participated_part_count: i64,
}

/// What was delivered over some days.
#[derive(Debug, Clone, Copy, PartialEq, Eq, Structural)]
pub struct DeliveredRow {
    pub count: i64,
    pub value: Decimal,
    pub orange: i64,
    pub red: i64,
}

/// What one worker picked up and brought back over some days.
#[derive(Debug, Clone, Copy, PartialEq, Eq, Structural)]
pub struct WorkerEventsRow {
    pub pickup_count: i64,
    pub pickup_quantity: i64,
    pub return_count: i64,
}

/// A part on which a worker picked something up. `is_live` says that it has not
/// been deleted since.
#[derive(Debug)]
pub struct WorkerPartRow {
    pub part_id: i64,
    pub is_live: bool,
    pub serial_no: Option<String>,
    pub name: String,
    pub drawing_no: String,
    pub status: String,
    pub pickup_count: i64,
    pub last_pickup_at: DateTime,
}

impl Clone for WorkerPartRow {
    fn clone(&self) -> (r: Self)
        ensures
            r == *self,
    {
        WorkerPartRow {
            part_id: self.part_id,
            is_live: self.is_live,
            serial_no: copy_opt(&self.serial_no),
            name: self.name.clone(),
            drawing_no: self.drawing_no.clone(),
            status: self.status.clone(),
            pickup_count: self.pickup_count,
            last_pickup_at: self.last_pickup_at,
        }
    }
}

#[derive(Debug)]
pub struct PickupSkipSummaryRow {
    pub worker_id: i64,
    pub worker_name: String,
    pub badge_code: String,
    pub work_type_name: Option<String>,
    pub skip_count: i64,
    pub last_skip_at: Option<DateTime>,
}

impl Clone for PickupSkipSummaryRow {
    fn clone(&self) -> (r: Self)
        ensures
            r == *self,
    {
        PickupSkipSummaryRow {
            worker_id: self.worker_id,
            worker_name: self.worker_name.clone(),
            badge_code: self.badge_code.clone(),
            work_type_name: copy_opt(&self.work_type_name),
            skip_count: self.skip_count,
            last_skip_at: self.last_skip_at,
        }
    }
}

#[derive(Debug)]
pub struct PickupSkipDetailRow {
    pub id: i64,
    pub part_id: i64,
    pub serial_no: Option<String>,
    pub part_name: String,
    pub batch_no: i32,
    pub quantity: i32,
    pub part_planned_delivery_date: Option<Date>,
    pub skipped_earliest_date: Option<Date>,
    pub created_at: DateTime,
}

impl Clone for PickupSkipDetailRow {
    fn clone(&self) -> (r: Self)
        ensures
            r == *self,
    {
        PickupSkipDetailRow {
            id: self.id,
            part_id: self.part_id,
            serial_no: copy_opt(&self.serial_no),
            part_name: self.part_name.clone(),
            batch_no: self.batch_no,
            quantity: self.quantity,
            part_planned_delivery_date: self.part_planned_delivery_date,
            skipped_earliest_date: self.skipped_earliest_date,
            created_at: self.created_at,
        }
    }
}

} // verus!
